//! Resource identity and metadata.

use vstd::prelude::*;
use vstd::slice::slice_index_get;
use vstd::string::StrSliceExecFns;
use vstd::string::StringExecFns;

use crate::assoc::{assoc_distinct, assoc_map, lemma_assoc_contains, lemma_assoc_index,
    lemma_assoc_push, lemma_assoc_remove};
use crate::strutil::str_eq;

verus! {

/// Ghost model of a [`VariantMetadata`]: the size in bytes and the MIME type.
#[verifier::ext_equal]
pub struct VariantMetadataV {
    pub size: u64,
    pub mime_type: Seq<char>,
}

/// Metadata of one variant of a resource: its size in bytes and its MIME type.
#[derive(Debug)]
pub struct VariantMetadata {
    size: u64,
    mime_type: String,
}

impl View for VariantMetadata {
    type V = VariantMetadataV;

    closed spec fn view(&self) -> VariantMetadataV {
        VariantMetadataV { size: self.size, mime_type: self.mime_type@ }
    }
}

impl Clone for VariantMetadata {
    fn clone(&self) -> (r: Self)
        ensures
            r@ == self@,
    {
        VariantMetadata { size: self.size, mime_type: self.mime_type.clone() }
    }
}

impl VariantMetadata {
    pub fn new(size: u64, mime_type: &str) -> (r: Self)
        ensures
            r@ == (VariantMetadataV { size, mime_type: mime_type@ }),
    {
        VariantMetadata { size, mime_type: mime_type.to_owned() }
    }

    pub fn set_size(&mut self, size: u64)
        ensures
            final(self)@ == (VariantMetadataV { size, mime_type: old(self)@.mime_type }),
    {
        self.size = size;
    }

    pub fn size(&self) -> (r: u64)
        ensures
            r == self@.size,
    {
        self.size
    }

    pub fn mime_type(&self) -> (r: String)
        ensures
            r@ == self@.mime_type,
    {
        self.mime_type.clone()
    }

    pub fn set_mime_type(&mut self, mime_type: &str)
        ensures
            final(self)@ == (VariantMetadataV { size: old(self)@.size, mime_type: mime_type@ }),
    {
        self.mime_type = mime_type.to_owned();
    }
}

/// No `'/'` occurs in the sequence.
pub open spec fn slash_free(s: Seq<char>) -> bool {
    forall|i: int| 0 <= i < s.len() ==> s[i] != '/'
}

/// Path components joined by `'/'`.
pub open spec fn join_parts(parts: Seq<Seq<char>>) -> Seq<char>
    decreases parts.len(),
{
    if parts.len() == 0 {
        Seq::empty()
    } else if parts.len() == 1 {
        parts[0]
    } else {
        parts[0] + seq!['/'] + join_parts(parts.drop_first())
    }
}

/// Index of the first `'/'`, or the length when there is none.
pub open spec fn first_slash(s: Seq<char>) -> int
    decreases s.len(),
{
    if s.len() == 0 {
        0
    } else if s[0] == '/' {
        0
    } else {
        1 + first_slash(s.drop_first())
    }
}

/// The components obtained by cutting at each `'/'`.
pub open spec fn split_path(s: Seq<char>) -> Seq<Seq<char>>
    decreases s.len(),
{
    let i = first_slash(s);
    if 0 <= i < s.len() {
        seq![s.subrange(0, i)] + split_path(s.subrange(i + 1, s.len() as int))
    } else {
        seq![s]
    }
}

/// `first_slash` points at the first `'/'`, or past the end when there is none.
pub proof fn lemma_first_slash(s: Seq<char>)
    ensures
        0 <= first_slash(s) <= s.len(),
        first_slash(s) < s.len() ==> s[first_slash(s)] == '/',
        forall|j: int| 0 <= j < first_slash(s) ==> s[j] != '/',
    decreases s.len(),
{
    if s.len() == 0 {
    } else if s[0] == '/' {
    } else {
        lemma_first_slash(s.drop_first());
        assert forall|j: int| 0 <= j < first_slash(s) implies s[j] != '/' by {
            if j > 0 {
                assert(s.drop_first()[j - 1] != '/');
            }
        }
    }
}

/// A position with no `'/'` before it, and `'/'` or the end at it, is `first_slash`.
pub proof fn lemma_first_slash_at(s: Seq<char>, m: int)
    requires
        0 <= m <= s.len(),
        forall|j: int| 0 <= j < m ==> s[j] != '/',
        m < s.len() ==> s[m] == '/',
    ensures
        first_slash(s) == m,
{
    lemma_first_slash(s);
}

/// Joining then splitting gives the components back, as long as no
/// component contains a `'/'`.
pub proof fn lemma_split_of_join(parts: Seq<Seq<char>>)
    requires
        parts.len() > 0,
        forall|k: int| 0 <= k < parts.len() ==> slash_free(#[trigger] parts[k]),
    ensures
        split_path(join_parts(parts)) == parts,
    decreases parts.len(),
{
    let s = join_parts(parts);
    if parts.len() == 1 {
        assert(s == parts[0]);
        lemma_first_slash_at(s, s.len() as int);
        assert(split_path(s) =~= parts);
    } else {
        let head = parts[0];
        let rest = join_parts(parts.drop_first());
        assert(s == head + seq!['/'] + rest);
        lemma_first_slash_at(s, head.len() as int);
        assert(s.subrange(0, head.len() as int) =~= head);
        assert(s.subrange(head.len() as int + 1, s.len() as int) =~= rest);
        lemma_split_of_join(parts.drop_first());
        assert(split_path(s) =~= seq![head] + parts.drop_first());
        assert(seq![head] + parts.drop_first() =~= parts);
    }
}

/// Appending one more component appends `'/'` and the component to the join.
pub proof fn lemma_join_push(parts: Seq<Seq<char>>, x: Seq<char>)
    requires
        parts.len() >= 1,
    ensures
        join_parts(parts.push(x)) == parts.first() + seq!['/'] + join_parts(
            parts.drop_first().push(x),
        ),
        parts.len() == 1 ==> join_parts(parts.push(x)) == parts[0] + seq!['/'] + x,
{
    let p = parts.push(x);
    assert(p.drop_first() =~= parts.drop_first().push(x));
    if parts.len() == 1 {
        let q = parts.drop_first().push(x);
        assert(q =~= seq![x]);
        assert(join_parts(q) == x);
    }
}

/// Joining is flat: the join of `parts.push(x)` extends the join of `parts`.
pub proof fn lemma_join_extend(parts: Seq<Seq<char>>, x: Seq<char>)
    requires
        parts.len() >= 1,
    ensures
        join_parts(parts.push(x)) == join_parts(parts) + seq!['/'] + x,
    decreases parts.len(),
{
    lemma_join_push(parts, x);
    if parts.len() == 1 {
    } else {
        lemma_join_extend(parts.drop_first(), x);
        assert(parts.first() + seq!['/'] + (join_parts(parts.drop_first()) + seq!['/'] + x)
            =~= (parts.first() + seq!['/'] + join_parts(parts.drop_first())) + seq!['/'] + x);
    }
}

/// A resource's unique identity: its path components joined by `'/'`.
#[derive(Debug)]
pub struct ResourceId {
    id: String,
}

impl View for ResourceId {
    type V = Seq<char>;

    closed spec fn view(&self) -> Seq<char> {
        self.id@
    }
}

impl Clone for ResourceId {
    fn clone(&self) -> (r: Self)
        ensures
            r@ == self@,
    {
        ResourceId { id: self.id.clone() }
    }
}

impl ResourceId {
    /// Build the identity of the resource at this path.
    pub fn from_parts(parts: &[String]) -> (r: Self)
        ensures
            r@ == join_parts(parts.deep_view()),
    {
        let ghost dv = parts.deep_view();
        let n = parts.len();
        if n == 0 {
            return ResourceId { id: String::new() };
        }
        let mut id: String = slice_index_get(parts, 0).clone();
        assert(dv.subrange(0, 1) =~= seq![dv[0]]);
        let mut i: usize = 1;
        while i < n
            invariant
                1 <= i <= n,
                n == dv.len(),
                dv == parts.deep_view(),
                id@ == join_parts(dv.subrange(0, i as int)),
            decreases n - i,
        {
            id.append("/");
            id.append(slice_index_get(parts, i).as_str());
            proof {
                reveal_strlit("/");
                assert("/"@ =~= seq!['/']);
                lemma_join_extend(dv.subrange(0, i as int), dv[i as int]);
                assert(dv.subrange(0, i + 1) =~= dv.subrange(0, i as int).push(dv[i as int]));
            }
            i += 1;
        }
        assert(dv.subrange(0, n as int) =~= dv);
        ResourceId { id }
    }

    /// Wrap an already-joined identity string.
    pub fn from_string(id: String) -> (r: Self)
        ensures
            r@ == id@,
    {
        ResourceId { id }
    }

    /// The canonical string form of this identity.
    pub fn to_string(&self) -> (r: String)
        ensures
            r@ == self@,
    {
        self.id.clone()
    }

    /// The path components of this identity.
    pub fn parts(&self) -> (r: Vec<String>)
        ensures
            r.deep_view() == split_path(self@),
    {
        let s = self.id.as_str();
        let n = s.unicode_len();
        let mut r: Vec<String> = Vec::new();
        let mut start: usize = 0;
        proof {
            assert(self@.subrange(0, n as int) =~= self@);
            assert(r.deep_view() =~= Seq::<Seq<char>>::empty());
            assert(Seq::<Seq<char>>::empty() + split_path(self@) =~= split_path(self@));
        }
        loop
            invariant_except_break
                0 <= start <= n,
                n == self@.len(),
                s@ == self@,
                split_path(self@) == r.deep_view() + split_path(
                    self@.subrange(start as int, n as int),
                ),
            ensures
                r.deep_view() == split_path(self@),
            decreases n - start,
        {
            let mut j = start;
            while j < n && s.get_char(j) != '/'
                invariant
                    start <= j <= n,
                    n == s@.len(),
                    forall|k: int| start <= k < j ==> s@[k] != '/',
                decreases n - j,
            {
                j += 1;
            }
            let comp = s.substring_char(start, j).to_owned();
            let ghost tail = self@.subrange(start as int, n as int);
            proof {
                assert forall|k: int| 0 <= k < j - start implies tail[k] != '/' by {
                    assert(tail[k] == s@[start + k]);
                }
                if j < n {
                    assert(tail[j - start] == s@[j as int]);
                }
                lemma_first_slash_at(tail, j - start);
                assert(comp@ =~= tail.subrange(0, j - start));
            }
            let ghost prev = r.deep_view();
            r.push(comp);
            assert(r.deep_view() =~= prev.push(comp@));
            if j == n {
                proof {
                    assert(split_path(tail) == seq![tail]);
                    assert(comp@ =~= tail);
                    assert(prev + seq![tail] =~= r.deep_view());
                }
                break;
            }
            proof {
                assert(split_path(tail) == seq![tail.subrange(0, j - start)] + split_path(
                    tail.subrange(j - start + 1, tail.len() as int),
                ));
                assert(tail.subrange(j - start + 1, tail.len() as int) =~= self@.subrange(
                    j + 1,
                    n as int,
                ));
                assert(prev + (seq![comp@] + split_path(self@.subrange(j + 1, n as int)))
                    =~= r.deep_view() + split_path(self@.subrange(j + 1, n as int)));
            }
            start = j + 1;
        }
        r
    }
}

/// Ghost model of a [`ResourceMetadata`].
#[verifier::ext_equal]
pub struct ResourceMetadataV {
    pub desc: Seq<char>,
    pub variants: Map<Seq<char>, VariantMetadataV>,
    pub tags: Set<Seq<char>>,
}

/// The set of tags denoted by a tag list.
pub open spec fn tag_set(s: Seq<String>) -> Set<Seq<char>>
    decreases s.len(),
{
    if s.len() == 0 {
        Set::empty()
    } else {
        tag_set(s.drop_last()).insert(s.last()@)
    }
}

/// Tags are pairwise distinct.
pub open spec fn tags_distinct(s: Seq<String>) -> bool {
    forall|i: int, j: int| 0 <= i < j < s.len() ==> s[i]@ != s[j]@
}

/// A tag is in the set exactly when some entry carries it.
pub proof fn lemma_tag_set_contains(s: Seq<String>)
    ensures
        forall|k: Seq<char>|
            #[trigger] tag_set(s).contains(k) <==> exists|i: int| 0 <= i < s.len() && s[i]@ == k,
    decreases s.len(),
{
    if s.len() == 0 {
    } else {
        lemma_tag_set_contains(s.drop_last());
        assert forall|k: Seq<char>| #[trigger]
            tag_set(s).contains(k) implies exists|i: int| 0 <= i < s.len() && s[i]@ == k by {
            if k == s.last()@ {
                assert(s[s.len() - 1]@ == k);
            } else {
                assert(tag_set(s.drop_last()).contains(k));
                let i = choose|i: int| 0 <= i < s.drop_last().len() && s.drop_last()[i]@ == k;
                assert(s[i]@ == k);
            }
        }
        assert forall|k: Seq<char>|
            (exists|i: int| 0 <= i < s.len() && s[i]@ == k) implies #[trigger]
            tag_set(s).contains(k) by {
            let i = choose|i: int| 0 <= i < s.len() && s[i]@ == k;
            if i < s.len() - 1 {
                assert(s.drop_last()[i]@ == k);
                assert(exists|j: int| 0 <= j < s.drop_last().len() && s.drop_last()[j]@ == k);
                assert(tag_set(s.drop_last()).contains(k));
            } else {
                assert(k == s.last()@);
            }
        }
    }
}

/// Removing entry `i` removes its tag from the set.
pub proof fn lemma_tag_set_remove(s: Seq<String>, i: int)
    requires
        tags_distinct(s),
        0 <= i < s.len(),
    ensures
        tag_set(s.remove(i)) =~= tag_set(s).remove(s[i]@),
        tags_distinct(s.remove(i)),
    decreases s.len(),
{
    let t = s.remove(i);
    let k = s[i]@;
    assert(tags_distinct(t)) by {
        assert forall|x: int, y: int| 0 <= x < y < t.len() implies t[x]@ != t[y]@ by {
            let sx: int = if x < i {
                x
            } else {
                x + 1
            };
            let sy: int = if y < i {
                y
            } else {
                y + 1
            };
            assert(t[x]@ == s[sx]@ && t[y]@ == s[sy]@);
        }
    }
    if i == s.len() - 1 {
        assert(t =~= s.drop_last());
        lemma_tag_set_contains(s.drop_last());
        assert(!tag_set(s.drop_last()).contains(k)) by {
            if tag_set(s.drop_last()).contains(k) {
                let j = choose|j: int| 0 <= j < s.drop_last().len() && s.drop_last()[j]@ == k;
                assert(s[j]@ == s[i]@);
            }
        }
    } else {
        lemma_tag_set_remove(s.drop_last(), i);
        assert(t.drop_last() =~= s.drop_last().remove(i));
        assert(s.drop_last()[i] == s[i]);
        assert(t.last() == s.last());
        assert(k != s.last()@);
    }
}

/// Appending a tag inserts it into the set.
pub proof fn lemma_tag_set_push(s: Seq<String>, x: String)
    ensures
        tag_set(s.push(x)) =~= tag_set(s).insert(x@),
{
    assert(s.push(x).drop_last() =~= s);
    assert(s.push(x).last() == x);
}

/// Metadata of one resource: a description, the named variants (the
/// `"default"` variant is attached at creation), and a set of tags.
#[derive(Debug)]
pub struct ResourceMetadata {
    desc: String,
    variants: Vec<(String, VariantMetadata)>,
    tags: Vec<String>,
}

impl View for ResourceMetadata {
    type V = ResourceMetadataV;

    closed spec fn view(&self) -> ResourceMetadataV {
        ResourceMetadataV {
            desc: self.desc@,
            variants: assoc_map(self.variants@),
            tags: tag_set(self.tags@),
        }
    }
}

impl Clone for ResourceMetadata {
    fn clone(&self) -> (r: Self)
        ensures
            r@ == self@,
            r.wf() == self.wf(),
    {
        let mut variants: Vec<(String, VariantMetadata)> = Vec::new();
        let mut i: usize = 0;
        while i < self.variants.len()
            invariant
                0 <= i <= self.variants@.len(),
                variants@.len() == i,
                forall|j: int| 0 <= j < i ==> variants@[j].0@ == self.variants@[j].0@
                    && variants@[j].1@ == self.variants@[j].1@,
            decreases self.variants@.len() - i,
        {
            let pair = &self.variants[i];
            variants.push((pair.0.clone(), pair.1.clone()));
            i += 1;
        }
        let mut tags: Vec<String> = Vec::new();
        let mut i: usize = 0;
        while i < self.tags.len()
            invariant
                0 <= i <= self.tags@.len(),
                tags@.len() == i,
                forall|j: int| 0 <= j < i ==> tags@[j]@ == self.tags@[j]@,
            decreases self.tags@.len() - i,
        {
            tags.push(self.tags[i].clone());
            i += 1;
        }
        let r = ResourceMetadata { desc: self.desc.clone(), variants, tags };
        proof {
            lemma_assoc_view_eq(r.variants@, self.variants@);
            lemma_tag_view_eq(r.tags@, self.tags@);
        }
        r
    }
}

/// Association lists equal entry-wise in view denote the same map.
proof fn lemma_assoc_view_eq(a: Seq<(String, VariantMetadata)>, b: Seq<(String, VariantMetadata)>)
    requires
        a.len() == b.len(),
        forall|j: int| 0 <= j < a.len() ==> a[j].0@ == b[j].0@ && a[j].1@ == b[j].1@,
    ensures
        assoc_map(a) =~= assoc_map(b),
        assoc_distinct(a) == assoc_distinct(b),
    decreases a.len(),
{
    if a.len() > 0 {
        lemma_assoc_view_eq(a.drop_last(), b.drop_last());
        assert(a.last().0@ == b.last().0@ && a.last().1@ == b.last().1@);
    }
    assert(assoc_distinct(a) == assoc_distinct(b)) by {
        if assoc_distinct(a) {
            assert forall|i: int, j: int| 0 <= i < j < b.len() implies b[i].0@ != b[j].0@ by {
                assert(a[i].0@ != a[j].0@);
            }
        }
        if assoc_distinct(b) {
            assert forall|i: int, j: int| 0 <= i < j < a.len() implies a[i].0@ != a[j].0@ by {
                assert(b[i].0@ != b[j].0@);
            }
        }
    }
}

/// Tag lists equal entry-wise in view denote the same set.
proof fn lemma_tag_view_eq(a: Seq<String>, b: Seq<String>)
    requires
        a.len() == b.len(),
        forall|j: int| 0 <= j < a.len() ==> a[j]@ == b[j]@,
    ensures
        tag_set(a) =~= tag_set(b),
        tags_distinct(a) == tags_distinct(b),
    decreases a.len(),
{
    if a.len() > 0 {
        lemma_tag_view_eq(a.drop_last(), b.drop_last());
        assert(a.last()@ == b.last()@);
    }
    assert(tags_distinct(a) == tags_distinct(b)) by {
        if tags_distinct(a) {
            assert forall|i: int, j: int| 0 <= i < j < b.len() implies b[i]@ != b[j]@ by {
                assert(a[i]@ != a[j]@);
            }
        }
        if tags_distinct(b) {
            assert forall|i: int, j: int| 0 <= i < j < a.len() implies a[i]@ != a[j]@ by {
                assert(b[i]@ != b[j]@);
            }
        }
    }
}

impl ResourceMetadata {
    /// Internal key and tag lists hold pairwise distinct entries.
    pub closed spec fn wf(&self) -> bool {
        assoc_distinct(self.variants@) && tags_distinct(self.tags@)
    }

    /// Fresh metadata: the given description, the `"default"` variant, and
    /// the given tags (duplicates collapse).
    pub fn new(desc: &str, default_variant: &VariantMetadata, tags: &Vec<String>) -> (r: Self)
        ensures
            r.wf(),
            r@.desc == desc@,
            r@.variants == Map::<Seq<char>, VariantMetadataV>::empty().insert(
                "default"@,
                default_variant@,
            ),
            r@.tags == tag_set(tags@),
    {
        let mut variants: Vec<(String, VariantMetadata)> = Vec::new();
        variants.push((String::from_str("default"), default_variant.clone()));
        proof {
            assert(variants@.len() == 1);
            assert(variants@.last().0@ == "default"@);
            assert(variants@.last().1@ == default_variant@);
            assert(variants@.drop_last() =~= Seq::<(String, VariantMetadata)>::empty());
            assert(assoc_map(variants@.drop_last()) =~= Map::<Seq<char>, VariantMetadataV>::empty());
            assert(assoc_map(variants@) =~= Map::<Seq<char>, VariantMetadataV>::empty().insert(
                "default"@,
                default_variant@,
            ));
        }
        let mut r = ResourceMetadata { desc: desc.to_owned(), variants, tags: Vec::new() };
        assert(r@.tags =~= Set::<Seq<char>>::empty());
        let n = tags.len();
        let mut i: usize = 0;
        while i < n
            invariant
                0 <= i <= n,
                n == tags@.len(),
                r.wf(),
                r@.tags == tag_set(tags@.subrange(0, i as int)),
                r@.desc == desc@,
                r@.variants == Map::<Seq<char>, VariantMetadataV>::empty().insert(
                    "default"@,
                    default_variant@,
                ),
            decreases n - i,
        {
            r.add_tag(tags[i].as_str());
            proof {
                assert(tags@.subrange(0, i + 1) =~= tags@.subrange(0, i as int).push(tags@[i as int]));
                lemma_tag_set_push(tags@.subrange(0, i as int), tags@[i as int]);
            }
            i += 1;
        }
        proof {
            assert(tags@.subrange(0, n as int) =~= tags@);
        }
        r
    }

    pub fn set_desc(&mut self, desc: &str)
        ensures
            final(self)@ == (ResourceMetadataV { desc: desc@, ..old(self)@ }),
            final(self).wf() == old(self).wf(),
    {
        self.desc = desc.to_owned();
    }

    pub fn desc(&self) -> (r: String)
        ensures
            r@ == self@.desc,
    {
        self.desc.clone()
    }

    /// Index of the variant entry with this name, if any.
    fn find_variant(&self, name: &str) -> (r: Option<usize>)
        ensures
            match r {
                Some(i) => 0 <= i < self.variants@.len() && self.variants@[i as int].0@ == name@,
                None => forall|j: int|
                    0 <= j < self.variants@.len() ==> self.variants@[j].0@ != name@,
            },
    {
        let n = self.variants.len();
        let mut i: usize = 0;
        while i < n
            invariant
                0 <= i <= n,
                n == self.variants@.len(),
                forall|j: int| 0 <= j < i ==> self.variants@[j].0@ != name@,
            decreases n - i,
        {
            if str_eq(self.variants[i].0.as_str(), name) {
                return Some(i);
            }
            i += 1;
        }
        None
    }

    pub fn get_variant(&self, name: &str) -> (r: Option<&VariantMetadata>)
        requires
            self.wf(),
        ensures
            match r {
                Some(v) => self@.variants.contains_key(name@) && v@ == self@.variants[name@],
                None => !self@.variants.contains_key(name@),
            },
    {
        proof {
            lemma_assoc_contains(self.variants@);
        }
        match self.find_variant(name) {
            Some(i) => {
                proof {
                    lemma_assoc_index(self.variants@, i as int);
                }
                Some(&self.variants[i].1)
            },
            None => None,
        }
    }

    pub fn has_variant(&self, name: &str) -> (r: bool)
        requires
            self.wf(),
        ensures
            r == self@.variants.contains_key(name@),
    {
        proof {
            lemma_assoc_contains(self.variants@);
        }
        self.find_variant(name).is_some()
    }

    /// Insert or replace the variant with this name.
    pub fn add_variant(&mut self, name: &str, variant: &VariantMetadata)
        requires
            old(self).wf(),
        ensures
            final(self).wf(),
            final(self)@ == (ResourceMetadataV {
                variants: old(self)@.variants.insert(name@, variant@),
                ..old(self)@
            }),
    {
        match self.find_variant(name) {
            Some(i) => {
                proof {
                    lemma_assoc_remove(self.variants@, i as int);
                    lemma_assoc_contains(self.variants@.remove(i as int));
                }
                self.variants.remove(i);
            },
            None => (),
        }
        let pair = (name.to_owned(), variant.clone());
        proof {
            lemma_assoc_contains(self.variants@);
            lemma_assoc_push(self.variants@, pair);
        }
        self.variants.push(pair);
        proof {
            assert(assoc_map(self.variants@) =~= old(self)@.variants.insert(name@, variant@));
        }
    }

    /// Remove the variant with this name; reports whether it was there.
    pub fn remove_variant(&mut self, name: &str) -> (r: bool)
        requires
            old(self).wf(),
        ensures
            final(self).wf(),
            r == old(self)@.variants.contains_key(name@),
            final(self)@ == (ResourceMetadataV {
                variants: old(self)@.variants.remove(name@),
                ..old(self)@
            }),
    {
        proof {
            lemma_assoc_contains(self.variants@);
        }
        match self.find_variant(name) {
            Some(i) => {
                proof {
                    lemma_assoc_index(self.variants@, i as int);
                    lemma_assoc_remove(self.variants@, i as int);
                }
                self.variants.remove(i);
                true
            },
            None => {
                proof {
                    assert(old(self)@.variants.remove(name@) =~= old(self)@.variants);
                }
                false
            },
        }
    }

    /// Index of this tag, if present.
    fn find_tag(&self, tag: &str) -> (r: Option<usize>)
        ensures
            match r {
                Some(i) => 0 <= i < self.tags@.len() && self.tags@[i as int]@ == tag@,
                None => forall|j: int| 0 <= j < self.tags@.len() ==> self.tags@[j]@ != tag@,
            },
    {
        let n = self.tags.len();
        let mut i: usize = 0;
        while i < n
            invariant
                0 <= i <= n,
                n == self.tags@.len(),
                forall|j: int| 0 <= j < i ==> self.tags@[j]@ != tag@,
            decreases n - i,
        {
            if str_eq(self.tags[i].as_str(), tag) {
                return Some(i);
            }
            i += 1;
        }
        None
    }

    pub fn add_tag(&mut self, tag: &str)
        requires
            old(self).wf(),
        ensures
            final(self).wf(),
            final(self)@ == (ResourceMetadataV {
                tags: old(self)@.tags.insert(tag@),
                ..old(self)@
            }),
    {
        proof {
            lemma_tag_set_contains(self.tags@);
        }
        match self.find_tag(tag) {
            Some(_) => {
                proof {
                    assert(old(self)@.tags.insert(tag@) =~= old(self)@.tags);
                }
            },
            None => {
                let owned = tag.to_owned();
                proof {
                    lemma_tag_set_push(self.tags@, owned);
                }
                self.tags.push(owned);
            },
        }
    }

    pub fn remove_tag(&mut self, tag: &str)
        requires
            old(self).wf(),
        ensures
            final(self).wf(),
            final(self)@ == (ResourceMetadataV {
                tags: old(self)@.tags.remove(tag@),
                ..old(self)@
            }),
    {
        proof {
            lemma_tag_set_contains(self.tags@);
        }
        match self.find_tag(tag) {
            Some(i) => {
                proof {
                    lemma_tag_set_remove(self.tags@, i as int);
                }
                self.tags.remove(i);
            },
            None => {
                proof {
                    assert(old(self)@.tags.remove(tag@) =~= old(self)@.tags);
                }
            },
        }
    }

    pub fn tags(&self) -> (r: &Vec<String>)
        requires
            self.wf(),
        ensures
            tag_set(r@) == self@.tags,
            tags_distinct(r@),
    {
        &self.tags
    }

    pub fn variants(&self) -> (r: &Vec<(String, VariantMetadata)>)
        requires
            self.wf(),
        ensures
            assoc_map(r@) == self@.variants,
            assoc_distinct(r@),
    {
        &self.variants
    }
}

} // verus!
