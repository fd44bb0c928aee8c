//! The resource store: the coordinator between the resource tree and the
//! relational index.
//!
//! The tree holds, per resource, its metadata, its default content and the
//! content of its other variants; the index mirrors it with one resource
//! row per id, the (id, tag) pairs and the full-text rows.  Every mutation
//! moves both, index first for creations, tree first for removals, as the
//! contracts below state; persisting the tree is the embedding program's
//! concern.

use vstd::prelude::*;

use crate::assoc::{assoc_distinct, assoc_map, lemma_assoc_contains, lemma_assoc_index,
    lemma_assoc_push, lemma_assoc_remove};
use crate::indexer::{folded, fts_hit, rid_listed, FtsRowV, IndexV, Indexer, SqliteDbError};
use crate::fts::extract_text;
use crate::fts::extract_succeeds;
use crate::resource::{join_parts, ResourceId, ResourceMetadata, ResourceMetadataV,
    VariantMetadata, VariantMetadataV};
use crate::strutil::str_eq;
use crate::transformers::{run_transformers, thumbnailer_results, TransformerResult,
    TransformerResultV, VariantChange, VariantChangeV, DEFAULT_THUMBNAIL_SIZE};

verus! {

/// Ghost model of a [`StoredResource`].
#[verifier::ext_equal]
pub struct StoredResourceV {
    pub meta: ResourceMetadataV,
    pub default_content: Seq<u8>,
    pub variants: Map<Seq<char>, Seq<u8>>,
}

/// One resource of the tree: its metadata, the content of its default
/// variant, and the content of every other variant, by name.
pub struct StoredResource {
    meta: ResourceMetadata,
    default_content: Vec<u8>,
    variants: Vec<(String, Vec<u8>)>,
}

impl View for StoredResource {
    type V = StoredResourceV;

    closed spec fn view(&self) -> StoredResourceV {
        StoredResourceV {
            meta: self.meta@,
            default_content: self.default_content@,
            variants: assoc_map(self.variants@),
        }
    }
}

impl StoredResource {
    /// The metadata always carries the `"default"` variant, and the stored
    /// variant contents are exactly the non-default variants of the
    /// metadata.
    pub open spec fn inv(self) -> bool {
        &&& self.meta_wf()
        &&& self@.meta.variants.contains_key("default"@)
        &&& self@.variants.dom() == self@.meta.variants.dom().remove("default"@)
    }

    /// The internal lists of the metadata and the content map hold
    /// pairwise distinct keys.
    pub closed spec fn meta_wf(self) -> bool {
        self.meta.wf() && assoc_distinct(self.variants@)
    }

    /// Insert or replace one non-default variant: its metadata entry and
    /// its content.
    fn set_variant(&mut self, name: &str, vm: &VariantMetadata, content: Vec<u8>)
        requires
            old(self).meta_wf(),
        ensures
            final(self).meta_wf(),
            final(self)@ == (StoredResourceV {
                meta: ResourceMetadataV {
                    variants: old(self)@.meta.variants.insert(name@, vm@),
                    ..old(self)@.meta
                },
                variants: old(self)@.variants.insert(name@, content@),
                default_content: old(self)@.default_content,
            }),
    {
        self.meta.add_variant(name, vm);
        match find_content(&self.variants, name) {
            Some(k) => {
                proof {
                    lemma_assoc_remove(self.variants@, k as int);
                    lemma_assoc_contains(self.variants@.remove(k as int));
                }
                self.variants.remove(k);
            },
            None => (),
        }
        let pair = (name.to_owned(), content);
        proof {
            lemma_assoc_contains(self.variants@);
            lemma_assoc_push(self.variants@, pair);
        }
        self.variants.push(pair);
        proof {
            assert(final(self)@.variants =~= old(self)@.variants.insert(name@, pair.1@));
            assert(final(self)@ =~~= (StoredResourceV {
                meta: ResourceMetadataV {
                    variants: old(self)@.meta.variants.insert(name@, vm@),
                    ..old(self)@.meta
                },
                variants: old(self)@.variants.insert(name@, pair.1@),
                default_content: old(self)@.default_content,
            }));
        }
    }

    /// Drop one variant: its metadata entry and its content.
    fn drop_variant(&mut self, name: &str)
        requires
            old(self).meta_wf(),
        ensures
            final(self).meta_wf(),
            final(self)@ == (StoredResourceV {
                meta: ResourceMetadataV {
                    variants: old(self)@.meta.variants.remove(name@),
                    ..old(self)@.meta
                },
                variants: old(self)@.variants.remove(name@),
                default_content: old(self)@.default_content,
            }),
    {
        self.meta.remove_variant(name);
        match find_content(&self.variants, name) {
            Some(k) => {
                proof {
                    lemma_assoc_remove(self.variants@, k as int);
                }
                self.variants.remove(k);
            },
            None => {
                proof {
                    lemma_assoc_contains(self.variants@);
                    assert(old(self)@.variants.remove(name@) =~= old(self)@.variants);
                }
            },
        }
        proof {
            assert(final(self)@ =~~= (StoredResourceV {
                meta: ResourceMetadataV {
                    variants: old(self)@.meta.variants.remove(name@),
                    ..old(self)@.meta
                },
                variants: old(self)@.variants.remove(name@),
                default_content: old(self)@.default_content,
            }));
        }
    }
}

/// Ghost model of the whole store.
#[verifier::ext_equal]
pub struct StoreV {
    pub tree: Map<Seq<char>, StoredResourceV>,
    pub index: IndexV,
    pub dirty: bool,
}

/// Store failures.
#[derive(Debug)]
pub enum StoreError {
    /// No resource lives at this path.
    NoSuchResource(Vec<String>),
    /// The operation is forbidden on the `"default"` variant.
    InvalidVariant(String),
    /// The resource has no variant of this name.
    NoSuchVariant(String, Vec<String>),
    /// The resource carries no metadata.
    NoResourceMetadata(Vec<String>),
    /// The index failed.
    Sqlite(SqliteDbError),
}

/// The id a path denotes.
pub open spec fn path_id(path: Seq<Seq<char>>) -> Seq<char> {
    join_parts(path)
}

/// The full-text row carrying a resource's description.
pub open spec fn desc_row(id: Seq<char>, desc: Seq<char>) -> FtsRowV {
    FtsRowV { id, variant: "default"@, content: folded(desc) }
}

/// The full-text rows left after dropping every row of one id.
pub open spec fn fts_without_id(fts: Set<FtsRowV>, id: Seq<char>) -> Set<FtsRowV> {
    Set::new(|row: FtsRowV| fts.contains(row) && row.id != id)
}

/// The full-text rows left after dropping one (id, variant)'s rows.
pub open spec fn fts_without_variant(fts: Set<FtsRowV>, id: Seq<char>, name: Seq<char>) -> Set<
    FtsRowV,
> {
    Set::new(|row: FtsRowV| fts.contains(row) && !(row.id == id && row.variant == name))
}

/// The full-text rows after inserting what this variant's content
/// extracts to, if anything.
pub open spec fn fts_with_extract(
    fts: Set<FtsRowV>,
    id: Seq<char>,
    name: Seq<char>,
    mime: Seq<char>,
    content: Seq<u8>,
) -> Set<FtsRowV> {
    match extract_text(mime, content) {
        Some(t) => fts.insert(FtsRowV { id, variant: name, content: folded(t) }),
        None => fts,
    }
}

/// The tag rows after inserting one (id, tag) pair per tag of the set.
pub open spec fn tags_with_all(
    tags: Set<(Seq<char>, Seq<char>)>,
    id: Seq<char>,
    added: Set<Seq<char>>,
) -> Set<(Seq<char>, Seq<char>)> {
    Set::new(|p: (Seq<char>, Seq<char>)| tags.contains(p) || (p.0 == id && added.contains(p.1)))
}

/// The tag rows left after dropping every row of one id.
pub open spec fn tags_without_id(tags: Set<(Seq<char>, Seq<char>)>, id: Seq<char>) -> Set<
    (Seq<char>, Seq<char>),
> {
    Set::new(|p: (Seq<char>, Seq<char>)| tags.contains(p) && p.0 != id)
}

/// The state after the creation phase of `create_resource`: the fresh
/// resource in the tree; its row, tag rows, description row and extracted
/// row in the index.  Transformers run on top of this state.
pub open spec fn spec_create_resource(
    s: StoreV,
    id: Seq<char>,
    desc: Seq<char>,
    vm: VariantMetadataV,
    tags: Set<Seq<char>>,
    content: Seq<u8>,
) -> StoreV {
    let meta = ResourceMetadataV {
        desc,
        variants: Map::<Seq<char>, VariantMetadataV>::empty().insert("default"@, vm),
        tags,
    };
    let res = StoredResourceV {
        meta,
        default_content: content,
        variants: Map::<Seq<char>, Seq<u8>>::empty(),
    };
    StoreV {
        tree: s.tree.insert(id, res),
        index: IndexV {
            resources: s.index.resources.insert(id),
            tags: tags_with_all(s.index.tags, id, tags),
            fts: fts_with_extract(
                s.index.fts.insert(desc_row(id, desc)),
                id,
                "default"@,
                vm.mime_type,
                content,
            ),
        },
        dirty: true,
    }
}

/// The state after `add_variant`: the variant in the resource's metadata
/// and contents, and its extracted text in the index.
pub open spec fn spec_add_variant(
    s: StoreV,
    id: Seq<char>,
    name: Seq<char>,
    vm: VariantMetadataV,
    content: Seq<u8>,
) -> StoreV {
    let r0 = s.tree[id];
    let r1 = StoredResourceV {
        meta: ResourceMetadataV { variants: r0.meta.variants.insert(name, vm), ..r0.meta },
        variants: r0.variants.insert(name, content),
        ..r0
    };
    StoreV {
        tree: s.tree.insert(id, r1),
        index: IndexV {
            fts: fts_with_extract(s.index.fts, id, name, vm.mime_type, content),
            ..s.index
        },
        dirty: s.dirty || extract_text(vm.mime_type, content) is Some,
    }
}

/// The state after `update_variant`: for `"default"`, the main content is
/// replaced; otherwise the variant's metadata and content are replaced.
/// Either way the variant's old full-text rows give way to the new
/// extraction.
pub open spec fn spec_update_variant(
    s: StoreV,
    id: Seq<char>,
    name: Seq<char>,
    vm: VariantMetadataV,
    content: Seq<u8>,
) -> StoreV {
    let r0 = s.tree[id];
    let r1 = if name == "default"@ {
        StoredResourceV { default_content: content, ..r0 }
    } else {
        StoredResourceV {
            meta: ResourceMetadataV { variants: r0.meta.variants.insert(name, vm), ..r0.meta },
            variants: r0.variants.insert(name, content),
            ..r0
        }
    };
    StoreV {
        tree: s.tree.insert(id, r1),
        index: IndexV {
            fts: fts_with_extract(
                fts_without_variant(s.index.fts, id, name),
                id,
                name,
                vm.mime_type,
                content,
            ),
            ..s.index
        },
        dirty: true,
    }
}

/// The state after `delete_variant`: the variant gone from the resource's
/// metadata and contents, its full-text rows gone from the index.
pub open spec fn spec_delete_variant(s: StoreV, id: Seq<char>, name: Seq<char>) -> StoreV {
    let r0 = s.tree[id];
    let r1 = StoredResourceV {
        meta: ResourceMetadataV { variants: r0.meta.variants.remove(name), ..r0.meta },
        variants: r0.variants.remove(name),
        ..r0
    };
    StoreV {
        tree: s.tree.insert(id, r1),
        index: IndexV { fts: fts_without_variant(s.index.fts, id, name), ..s.index },
        dirty: true,
    }
}

/// The state after `delete_resource`: the resource gone from the tree,
/// all its rows gone from the index.
pub open spec fn spec_delete_resource(s: StoreV, id: Seq<char>) -> StoreV {
    StoreV {
        tree: s.tree.remove(id),
        index: IndexV {
            resources: s.index.resources.remove(id),
            tags: tags_without_id(s.index.tags, id),
            fts: fts_without_id(s.index.fts, id),
        },
        dirty: true,
    }
}

/// The state after `add_tag`.
pub open spec fn spec_add_tag(s: StoreV, id: Seq<char>, tag: Seq<char>) -> StoreV {
    let r0 = s.tree[id];
    let r1 = StoredResourceV {
        meta: ResourceMetadataV { tags: r0.meta.tags.insert(tag), ..r0.meta },
        ..r0
    };
    StoreV {
        tree: s.tree.insert(id, r1),
        index: IndexV { tags: s.index.tags.insert((id, tag)), ..s.index },
        dirty: true,
    }
}

/// The state after `remove_tag`.
pub open spec fn spec_remove_tag(s: StoreV, id: Seq<char>, tag: Seq<char>) -> StoreV {
    let r0 = s.tree[id];
    let r1 = StoredResourceV {
        meta: ResourceMetadataV { tags: r0.meta.tags.remove(tag), ..r0.meta },
        ..r0
    };
    StoreV {
        tree: s.tree.insert(id, r1),
        index: IndexV { tags: s.index.tags.remove((id, tag)), ..s.index },
        dirty: true,
    }
}

/// One transformer instruction applied to the state; instructions naming
/// the `"default"` variant are dropped, as the coordinator filters them.
pub open spec fn spec_apply_one(s: StoreV, id: Seq<char>, t: TransformerResultV) -> StoreV {
    match t {
        TransformerResultV::Delete(name) => if name != "default"@ && s.tree.contains_key(id)
            && s.tree[id].meta.variants.contains_key(name) {
            spec_delete_variant(s, id, name)
        } else {
            s
        },
        TransformerResultV::Create(tv) => if tv.name != "default"@ && s.tree.contains_key(id) {
            spec_add_variant(s, id, tv.name, tv.meta, tv.content)
        } else {
            s
        },
        TransformerResultV::Update(tv) => if tv.name != "default"@ && s.tree.contains_key(id) {
            spec_update_variant(s, id, tv.name, tv.meta, tv.content)
        } else {
            s
        },
    }
}

/// A list of transformer instructions applied in order.
pub open spec fn spec_apply_results(s: StoreV, id: Seq<char>, ts: Seq<TransformerResultV>) -> StoreV
    decreases ts.len(),
{
    if ts.len() == 0 {
        s
    } else {
        spec_apply_results(spec_apply_one(s, id, ts.first()), id, ts.drop_first())
    }
}

/// Applying instructions one more at the end composes.
pub proof fn lemma_apply_snoc(
    s: StoreV,
    id: Seq<char>,
    ts: Seq<TransformerResultV>,
    t: TransformerResultV,
)
    ensures
        spec_apply_results(s, id, ts.push(t)) == spec_apply_one(
            spec_apply_results(s, id, ts),
            id,
            t,
        ),
    decreases ts.len(),
{
    if ts.len() == 0 {
        let inner = ts.push(t).drop_first();
        assert(inner =~= Seq::<TransformerResultV>::empty());
        assert(ts.push(t).first() == t);
        assert(spec_apply_results(s, id, ts.push(t)) == spec_apply_results(
            spec_apply_one(s, id, t),
            id,
            inner,
        ));
        assert(spec_apply_results(spec_apply_one(s, id, t), id, inner) == spec_apply_one(
            s,
            id,
            t,
        ));
        assert(spec_apply_results(s, id, ts) == s);
    } else {
        let s1 = spec_apply_one(s, id, ts.first());
        assert(ts.push(t).first() == ts.first());
        assert(ts.push(t).drop_first() =~= ts.drop_first().push(t));
        lemma_apply_snoc(s1, id, ts.drop_first(), t);
        assert(spec_apply_results(s, id, ts.push(t)) == spec_apply_results(
            s1,
            id,
            ts.drop_first().push(t),
        ));
        assert(spec_apply_results(s, id, ts) == spec_apply_results(s1, id, ts.drop_first()));
    }
}

/// Some pair of the list carries this id.
pub open spec fn hit_listed(pairs: Seq<(ResourceId, ResourceMetadata)>, id: Seq<char>) -> bool {
    exists|i: int| 0 <= i < pairs.len() && pairs[i].0@ == id
}

/// The MIME type guessed from a path's extension.
pub uninterp spec fn mime_of_path(path: Seq<char>) -> Seq<char>;

/// Relies on mime_guess::from_path(..).first_or_octet_stream(): the guess
/// depends on the path alone, falling back to a generic type.
#[verifier::external_body]
fn guess_mime(path: &str) -> (r: String)
    ensures
        r@ == mime_of_path(path@),
{
    mime_guess::from_path(path).first_or_octet_stream().as_ref().to_owned()
}

/// The resource store.  The tree lives in memory; the index lives in the
/// SQLite database the store was opened on.
pub struct ResourceStore {
    resources: Vec<(String, StoredResource)>,
    indexer: Indexer,
}

impl ResourceStore {
    /// The whole observable state.
    pub closed spec fn st(&self) -> StoreV {
        StoreV {
            tree: assoc_map(self.resources@),
            index: self.indexer.contents(),
            dirty: self.indexer.dirty(),
        }
    }

    /// Keys are pairwise distinct and every resource satisfies its own
    /// invariant.
    pub closed spec fn wf(&self) -> bool {
        &&& assoc_distinct(self.resources@)
        &&& forall|i: int| 0 <= i < self.resources@.len() ==> (#[trigger] self.resources@[i]).1.inv()
    }

    /// Every tree entry satisfies the per-resource invariant.
    pub open spec fn tree_inv(s: StoreV) -> bool {
        forall|id: Seq<char>|
            #[trigger] s.tree.contains_key(id) ==> s.tree[id].meta.variants.contains_key(
                "default"@,
            ) && s.tree[id].variants.dom() == s.tree[id].meta.variants.dom().remove("default"@)
    }

    /// A well-formed store's tree satisfies the tree invariant.
    pub proof fn lemma_wf_tree_inv(&self)
        requires
            self.wf(),
        ensures
            Self::tree_inv(self.st()),
    {
        lemma_assoc_contains(self.resources@);
        assert forall|id: Seq<char>| #[trigger]
            self.st().tree.contains_key(id) implies self.st().tree[id].meta.variants.contains_key(
            "default"@,
        ) && self.st().tree[id].variants.dom() == self.st().tree[id].meta.variants.dom().remove(
            "default"@,
        ) by {
            let i = choose|i: int| 0 <= i < self.resources@.len() && self.resources@[i].0@ == id;
            lemma_assoc_index(self.resources@, i);
            assert(self.resources@[i].1.inv());
        }
    }

    /// Open a store over the index database at this path, with an empty
    /// tree.
    pub fn new(db_path: &str) -> (r: Result<ResourceStore, StoreError>)
        ensures
            r is Ok ==> r.unwrap().wf() && r.unwrap().st().tree == Map::<
                Seq<char>,
                StoredResourceV,
            >::empty() && !r.unwrap().st().dirty,
    {
        let indexer = match Indexer::new(db_path) {
            Ok(ix) => ix,
            Err(e) => {
                return Err(StoreError::Sqlite(e));
            },
        };
        let store = ResourceStore { resources: Vec::new(), indexer };
        proof {
            assert(store.st().tree =~= Map::<Seq<char>, StoredResourceV>::empty());
        }
        Ok(store)
    }

    /// Index of the resource with this id, if any.
    fn find_res(&self, id: &str) -> (r: Option<usize>)
        ensures
            match r {
                Some(i) => 0 <= i < self.resources@.len() && self.resources@[i as int].0@ == id@,
                None => forall|j: int|
                    0 <= j < self.resources@.len() ==> self.resources@[j].0@ != id@,
            },
    {
        let n = self.resources.len();
        let mut i: usize = 0;
        while i < n
            invariant
                0 <= i <= n,
                n == self.resources@.len(),
                forall|j: int| 0 <= j < i ==> self.resources@[j].0@ != id@,
            decreases n - i,
        {
            if str_eq(self.resources[i].0.as_str(), id) {
                return Some(i);
            }
            i += 1;
        }
        None
    }

    /// Whether the index owes a snapshot of its database.
    pub fn should_update(&self) -> (r: bool)
        ensures
            r == self.st().dirty,
    {
        self.indexer.should_update()
    }

    /// Note that the index database has been snapshot.
    pub fn set_updated(&mut self)
        ensures
            final(self).st() == (StoreV { dirty: false, ..old(self).st() }),
            final(self).wf() == old(self).wf(),
    {
        self.indexer.set_updated();
        proof {
            assert(final(self).st() =~= (StoreV { dirty: false, ..old(self).st() }));
        }
    }

    /// The metadata of the resource at this path.
    pub fn get_metadata(&self, path: &[String]) -> (r: Result<ResourceMetadata, StoreError>)
        requires
            self.wf(),
        ensures
            r is Ok <==> self.st().tree.contains_key(path_id(path.deep_view())),
            r is Ok ==> r.unwrap()@ == self.st().tree[path_id(path.deep_view())].meta
                && r.unwrap().wf(),
            r is Err ==> r.unwrap_err() is NoSuchResource,
    {
        let id = ResourceId::from_parts(path);
        let id_str = id.to_string();
        proof {
            lemma_assoc_contains(self.resources@);
        }
        match self.find_res(id_str.as_str()) {
            Some(i) => {
                proof {
                    lemma_assoc_index(self.resources@, i as int);
                    assert(self.resources@[i as int].1.inv());
                }
                Ok(self.resources[i].1.meta.clone())
            },
            None => Err(StoreError::NoSuchResource(clone_path(path))),
        }
    }

    /// The content of the named variant of the resource at this path.
    pub fn get_variant_vec(&self, variant_name: &str, path: &[String]) -> (r: Result<
        Vec<u8>,
        StoreError,
    >)
        requires
            self.wf(),
        ensures
            ({
                let id = path_id(path.deep_view());
                &&& !self.st().tree.contains_key(id) <==> r is Err && r.unwrap_err()
                    is NoSuchResource
                &&& self.st().tree.contains_key(id) && variant_name@ == "default"@ ==> r is Ok
                    && r.unwrap()@ == self.st().tree[id].default_content
                &&& self.st().tree.contains_key(id) && variant_name@ != "default"@
                    && !self.st().tree[id].meta.variants.contains_key(variant_name@) <==> r is Err
                    && r.unwrap_err() is NoSuchVariant
                &&& self.st().tree.contains_key(id) && variant_name@ != "default"@
                    && self.st().tree[id].meta.variants.contains_key(variant_name@) ==> r is Ok
                    && r.unwrap()@ == self.st().tree[id].variants[variant_name@]
            }),
    {
        let id = ResourceId::from_parts(path);
        let id_str = id.to_string();
        proof {
            lemma_assoc_contains(self.resources@);
        }
        let i = match self.find_res(id_str.as_str()) {
            Some(i) => i,
            None => {
                return Err(StoreError::NoSuchResource(clone_path(path)));
            },
        };
        proof {
            lemma_assoc_index(self.resources@, i as int);
            assert(self.resources@[i as int].1.inv());
        }
        let res = &self.resources[i].1;
        if str_eq(variant_name, "default") {
            return Ok(clone_bytes(&res.default_content));
        }
        if !res.meta.has_variant(variant_name) {
            return Err(
                StoreError::NoSuchVariant(variant_name.to_owned(), clone_path(path)),
            );
        }
        proof {
            lemma_assoc_contains(res.variants@);
            assert(res@.variants.contains_key(variant_name@));
        }
        match find_content(&res.variants, variant_name) {
            Some(k) => {
                proof {
                    lemma_assoc_index(res.variants@, k as int);
                }
                Ok(clone_bytes(&self.resources[i].1.variants[k].1))
            },
            None => {
                proof {
                    lemma_assoc_contains(res.variants@);
                    assert(false);
                }
                Err(StoreError::NoSuchVariant(variant_name.to_owned(), clone_path(path)))
            },
        }
    }

    /// The content of the named variant, resolved the same way; chunked
    /// delivery is the embedding program's concern.
    pub fn get_variant(&self, variant_name: &str, path: &[String]) -> (r: Result<
        Vec<u8>,
        StoreError,
    >)
        requires
            self.wf(),
        ensures
            ({
                let id = path_id(path.deep_view());
                &&& !self.st().tree.contains_key(id) <==> r is Err && r.unwrap_err()
                    is NoSuchResource
                &&& self.st().tree.contains_key(id) && variant_name@ == "default"@ ==> r is Ok
                    && r.unwrap()@ == self.st().tree[id].default_content
                &&& self.st().tree.contains_key(id) && variant_name@ != "default"@
                    && !self.st().tree[id].meta.variants.contains_key(variant_name@) <==> r is Err
                    && r.unwrap_err() is NoSuchVariant
                &&& self.st().tree.contains_key(id) && variant_name@ != "default"@
                    && self.st().tree[id].meta.variants.contains_key(variant_name@) ==> r is Ok
                    && r.unwrap()@ == self.st().tree[id].variants[variant_name@]
            }),
    {
        self.get_variant_vec(variant_name, path)
    }

    /// What holds of the store right after an entry was taken out.
    closed spec fn after_take(
        pre: ResourceStore,
        post: ResourceStore,
        entry: (String, StoredResource),
    ) -> bool {
        &&& assoc_distinct(post.resources@)
        &&& forall|j: int| 0 <= j < post.resources@.len() ==> (#[trigger] post.resources@[j]).1.inv()
        &&& forall|j: int|
            0 <= j < post.resources@.len() ==> (#[trigger] post.resources@[j]).0@ != entry.0@
        &&& assoc_map(post.resources@) == assoc_map(pre.resources@).remove(entry.0@)
        &&& post.indexer == pre.indexer
    }

    /// Take the resource at `i` out of the tree for mutation.
    fn take_entry(&mut self, i: usize) -> (entry: (String, StoredResource))
        requires
            old(self).wf(),
            0 <= i < old(self).resources@.len(),
        ensures
            entry == old(self).resources@[i as int],
            entry.1.inv(),
            Self::after_take(*old(self), *final(self), entry),
    {
        proof {
            lemma_assoc_index(self.resources@, i as int);
            lemma_assoc_remove(self.resources@, i as int);
            assert(self.resources@[i as int].1.inv());
        }
        let entry = self.resources.remove(i);
        proof {
            lemma_assoc_contains(self.resources@);
            assert(!assoc_map(self.resources@).contains_key(entry.0@));
            assert forall|j: int|
                0 <= j < self.resources@.len() implies (#[trigger] self.resources@[j]).0@
                != entry.0@ by {
                if self.resources@[j].0@ == entry.0@ {
                    assert(exists|k: int|
                        0 <= k < self.resources@.len() && self.resources@[k].0@ == entry.0@);
                    assert(assoc_map(self.resources@).contains_key(entry.0@));
                }
            }
            assert forall|j: int|
                0 <= j < self.resources@.len() implies (#[trigger] self.resources@[j]).1.inv() by {
                let sj: int = if j < i {
                    j
                } else {
                    j + 1
                };
                assert(old(self).resources@[sj].1.inv());
                assert(self.resources@[j] == old(self).resources@[sj]);
            }
        }
        entry
    }

    /// Put a (possibly mutated) entry back into the tree.
    fn put_entry(&mut self, entry: (String, StoredResource))
        requires
            assoc_distinct(old(self).resources@),
            forall|j: int|
                0 <= j < old(self).resources@.len() ==> (#[trigger] old(self).resources@[j]).1.inv(),
            forall|j: int|
                0 <= j < old(self).resources@.len() ==> (#[trigger] old(self).resources@[j]).0@
                    != entry.0@,
            entry.1.inv(),
        ensures
            final(self).wf(),
            final(self).st() == (StoreV {
                tree: old(self).st().tree.insert(entry.0@, entry.1@),
                ..old(self).st()
            }),
    {
        proof {
            lemma_assoc_push(self.resources@, entry);
        }
        self.resources.push(entry);
        proof {
            assert forall|j: int|
                0 <= j < self.resources@.len() implies (#[trigger] self.resources@[j]).1.inv() by {
                if j < self.resources@.len() - 1 {
                    assert(old(self).resources@[j].1.inv());
                }
            }
            assert(final(self).st() =~~= (StoreV {
                tree: old(self).st().tree.insert(entry.0@, entry.1@),
                ..old(self).st()
            }));
        }
    }

    /// Attach a tag to the resource at this path, tree first, index
    /// second.
    pub fn add_tag(&mut self, path: &[String], tag: &str) -> (r: Result<(), StoreError>)
        requires
            old(self).wf(),
        ensures
            final(self).wf(),
            ({
                let id = path_id(path.deep_view());
                &&& (!old(self).st().tree.contains_key(id) <==> r is Err && r.unwrap_err()
                    is NoResourceMetadata)
                &&& !old(self).st().tree.contains_key(id) ==> final(self).st() == old(self).st()
                &&& r is Ok ==> old(self).st().tree.contains_key(id) && final(self).st()
                    == spec_add_tag(old(self).st(), id, tag@)
                &&& r is Err && r.unwrap_err() is Sqlite ==> final(self).st() == (StoreV {
                    tree: spec_add_tag(old(self).st(), id, tag@).tree,
                    ..old(self).st()
                })
            }),
    {
        let rid = ResourceId::from_parts(path);
        let id_str = rid.to_string();
        proof {
            lemma_assoc_contains(self.resources@);
        }
        let i = match self.find_res(id_str.as_str()) {
            Some(i) => i,
            None => {
                return Err(StoreError::NoResourceMetadata(clone_path(path)));
            },
        };
        let ghost s0 = self.st();
        let ghost id = rid@;
        proof {
            lemma_assoc_index(self.resources@, i as int);
        }
        let mut entry = self.take_entry(i);
        entry.1.meta.add_tag(tag);
        self.put_entry(entry);
        proof {
            assert(self.st().tree =~~= spec_add_tag(s0, id, tag@).tree);
        }
        match self.indexer.add_tag(&rid, tag) {
            Ok(()) => {
                proof {
                    assert(final(self).st() =~~= spec_add_tag(s0, id, tag@));
                }
                Ok(())
            },
            Err(e) => {
                proof {
                    assert(final(self).st() =~~= (StoreV {
                        tree: spec_add_tag(s0, id, tag@).tree,
                        ..s0
                    }));
                }
                Err(StoreError::Sqlite(e))
            },
        }
    }

    /// Drop a tag from the resource at this path, tree first, index
    /// second.
    pub fn remove_tag(&mut self, path: &[String], tag: &str) -> (r: Result<(), StoreError>)
        requires
            old(self).wf(),
        ensures
            final(self).wf(),
            ({
                let id = path_id(path.deep_view());
                &&& (!old(self).st().tree.contains_key(id) <==> r is Err && r.unwrap_err()
                    is NoResourceMetadata)
                &&& !old(self).st().tree.contains_key(id) ==> final(self).st() == old(self).st()
                &&& r is Ok ==> old(self).st().tree.contains_key(id) && final(self).st()
                    == spec_remove_tag(old(self).st(), id, tag@)
                &&& r is Err && r.unwrap_err() is Sqlite ==> final(self).st() == (StoreV {
                    tree: spec_remove_tag(old(self).st(), id, tag@).tree,
                    ..old(self).st()
                })
            }),
    {
        let rid = ResourceId::from_parts(path);
        let id_str = rid.to_string();
        proof {
            lemma_assoc_contains(self.resources@);
        }
        let i = match self.find_res(id_str.as_str()) {
            Some(i) => i,
            None => {
                return Err(StoreError::NoResourceMetadata(clone_path(path)));
            },
        };
        let ghost s0 = self.st();
        let ghost id = rid@;
        proof {
            lemma_assoc_index(self.resources@, i as int);
        }
        let mut entry = self.take_entry(i);
        entry.1.meta.remove_tag(tag);
        self.put_entry(entry);
        proof {
            assert(self.st().tree =~~= spec_remove_tag(s0, id, tag@).tree);
        }
        match self.indexer.remove_tag(&rid, tag) {
            Ok(()) => {
                proof {
                    assert(final(self).st() =~~= spec_remove_tag(s0, id, tag@));
                }
                Ok(())
            },
            Err(e) => {
                proof {
                    assert(final(self).st() =~~= (StoreV {
                        tree: spec_remove_tag(s0, id, tag@).tree,
                        ..s0
                    }));
                }
                Err(StoreError::Sqlite(e))
            },
        }
    }

    /// Add a variant to an existing resource: index first, tree second.
    pub fn add_variant(
        &mut self,
        path: &[String],
        variant_name: &str,
        variant: &VariantMetadata,
        content: &[u8],
    ) -> (r: Result<(), StoreError>)
        requires
            old(self).wf(),
        ensures
            final(self).wf(),
            ({
                let id = path_id(path.deep_view());
                &&& (variant_name@ == "default"@ <==> r is Err && r.unwrap_err()
                    is InvalidVariant)
                &&& ((variant_name@ != "default"@ && !old(self).st().tree.contains_key(id)) <==> r
                    is Err && r.unwrap_err() is NoResourceMetadata)
                &&& (variant_name@ != "default"@ && old(self).st().tree.contains_key(id)
                    && !extract_succeeds(variant@.mime_type, content@) ==> r is Err
                    && r.unwrap_err() is Sqlite)
                &&& r is Ok ==> variant_name@ != "default"@ && old(self).st().tree.contains_key(id)
                    && extract_succeeds(variant@.mime_type, content@) && final(self).st()
                    == spec_add_variant(old(self).st(), id, variant_name@, variant@, content@)
                &&& (variant_name@ != "default"@ && old(self).st().tree.contains_key(id)
                    && extract_succeeds(variant@.mime_type, content@) && extract_text(
                    variant@.mime_type,
                    content@,
                ) is None ==> r is Ok)
                &&& r is Err ==> final(self).st() == old(self).st()
            }),
    {
        if str_eq(variant_name, "default") {
            return Err(StoreError::InvalidVariant(variant_name.to_owned()));
        }
        let rid = ResourceId::from_parts(path);
        let id_str = rid.to_string();
        proof {
            lemma_assoc_contains(self.resources@);
        }
        let i = match self.find_res(id_str.as_str()) {
            Some(i) => i,
            None => {
                return Err(StoreError::NoResourceMetadata(clone_path(path)));
            },
        };
        let ghost s0 = self.st();
        let ghost id = rid@;
        proof {
            lemma_assoc_index(self.resources@, i as int);
        }
        match self.indexer.add_variant(&rid, variant_name, variant, content) {
            Ok(()) => (),
            Err(e) => {
                proof {
                    assert(final(self).st() =~~= s0);
                }
                return Err(StoreError::Sqlite(e));
            },
        }
        let mut entry = self.take_entry(i);
        let ghost r0 = entry.1@;
        entry.1.set_variant(variant_name, variant, vstd::slice::slice_to_vec(content));
        proof {
            assert(entry.1.inv()) by {
                assert(entry.1@.meta.variants.contains_key("default"@));
                assert(entry.1@.variants.dom() =~= entry.1@.meta.variants.dom().remove(
                    "default"@,
                ));
            }
        }
        self.put_entry(entry);
        proof {
            assert(final(self).st() =~~= spec_add_variant(s0, id, variant_name@, variant@, content@));
        }
        Ok(())
    }

    /// Update a variant of an existing resource: for `"default"` the main
    /// content is replaced, otherwise the variant's metadata and content
    /// are; index first, tree second.
    pub fn update_variant(
        &mut self,
        path: &[String],
        variant_name: &str,
        variant: &VariantMetadata,
        content: &[u8],
    ) -> (r: Result<(), StoreError>)
        requires
            old(self).wf(),
        ensures
            final(self).wf(),
            ({
                let id = path_id(path.deep_view());
                &&& (!old(self).st().tree.contains_key(id) <==> r is Err && r.unwrap_err()
                    is NoResourceMetadata)
                &&& !old(self).st().tree.contains_key(id) ==> final(self).st() == old(self).st()
                &&& r is Ok ==> old(self).st().tree.contains_key(id) && extract_succeeds(
                    variant@.mime_type,
                    content@,
                ) && final(self).st() == spec_update_variant(
                    old(self).st(),
                    id,
                    variant_name@,
                    variant@,
                    content@,
                )
                &&& r is Err && r.unwrap_err() is Sqlite ==> final(self).st().tree == old(self).st().tree && final(self).st().index.resources == old(self).st().index.resources
                    && final(self).st().index.tags == old(self).st().index.tags && (final(self).st().index.fts == old(self).st().index.fts || final(self).st().index.fts
                    == fts_without_variant(old(self).st().index.fts, id, variant_name@))
            }),
    {
        let rid = ResourceId::from_parts(path);
        let id_str = rid.to_string();
        proof {
            lemma_assoc_contains(self.resources@);
        }
        let i = match self.find_res(id_str.as_str()) {
            Some(i) => i,
            None => {
                return Err(StoreError::NoResourceMetadata(clone_path(path)));
            },
        };
        let ghost s0 = self.st();
        let ghost id = rid@;
        proof {
            lemma_assoc_index(self.resources@, i as int);
        }
        match self.indexer.update_variant(&rid, variant_name, variant, content) {
            Ok(()) => (),
            Err(e) => {
                return Err(StoreError::Sqlite(e));
            },
        }
        let mut entry = self.take_entry(i);
        if str_eq(variant_name, "default") {
            entry.1.default_content = vstd::slice::slice_to_vec(content);
            proof {
                assert(entry.1.inv());
            }
        } else {
            entry.1.set_variant(variant_name, variant, vstd::slice::slice_to_vec(content));
            proof {
                assert(entry.1.inv()) by {
                    assert(entry.1@.meta.variants.contains_key("default"@));
                    assert(entry.1@.variants.dom() =~= entry.1@.meta.variants.dom().remove(
                        "default"@,
                    ));
                }
            }
        }
        self.put_entry(entry);
        proof {
            assert(final(self).st() =~~= spec_update_variant(
                s0,
                id,
                variant_name@,
                variant@,
                content@,
            ));
        }
        Ok(())
    }

    /// Delete a non-default variant: tree first, index second.
    pub fn delete_variant(&mut self, path: &[String], variant_name: &str) -> (r: Result<
        (),
        StoreError,
    >)
        requires
            old(self).wf(),
        ensures
            final(self).wf(),
            ({
                let id = path_id(path.deep_view());
                &&& (variant_name@ == "default"@ <==> r is Err && r.unwrap_err()
                    is InvalidVariant)
                &&& ((variant_name@ != "default"@ && !old(self).st().tree.contains_key(id)) <==> r
                    is Err && r.unwrap_err() is NoResourceMetadata)
                &&& ((variant_name@ != "default"@ && old(self).st().tree.contains_key(id) && !old(self).st().tree[id].meta.variants.contains_key(variant_name@)) <==> r is Err
                    && r.unwrap_err() is NoSuchVariant)
                &&& (r is Err && !(r.unwrap_err() is Sqlite) ==> final(self).st() == old(self).st())
                &&& r is Ok ==> variant_name@ != "default"@ && old(self).st().tree.contains_key(id)
                    && old(self).st().tree[id].meta.variants.contains_key(variant_name@) && final(self).st() == spec_delete_variant(old(self).st(), id, variant_name@)
                &&& r is Err && r.unwrap_err() is Sqlite ==> final(self).st() == (StoreV {
                    tree: spec_delete_variant(old(self).st(), id, variant_name@).tree,
                    ..old(self).st()
                })
            }),
    {
        if str_eq(variant_name, "default") {
            return Err(StoreError::InvalidVariant(variant_name.to_owned()));
        }
        let rid = ResourceId::from_parts(path);
        let id_str = rid.to_string();
        proof {
            lemma_assoc_contains(self.resources@);
        }
        let i = match self.find_res(id_str.as_str()) {
            Some(i) => i,
            None => {
                return Err(StoreError::NoResourceMetadata(clone_path(path)));
            },
        };
        let ghost s0 = self.st();
        let ghost id = rid@;
        proof {
            lemma_assoc_index(self.resources@, i as int);
            assert(self.resources@[i as int].1.inv());
        }
        if !self.resources[i].1.meta.has_variant(variant_name) {
            return Err(StoreError::NoSuchVariant(variant_name.to_owned(), clone_path(path)));
        }
        let mut entry = self.take_entry(i);
        entry.1.drop_variant(variant_name);
        proof {
            assert(entry.1.inv()) by {
                assert(entry.1@.meta.variants.contains_key("default"@));
                assert(entry.1@.variants.dom() =~= entry.1@.meta.variants.dom().remove(
                    "default"@,
                ));
            }
        }
        self.put_entry(entry);
        proof {
            assert(self.st().tree =~~= spec_delete_variant(s0, id, variant_name@).tree);
        }
        match self.indexer.delete_variant(&rid, variant_name) {
            Ok(()) => {
                proof {
                    assert(final(self).st() =~~= spec_delete_variant(s0, id, variant_name@));
                }
                Ok(())
            },
            Err(e) => {
                proof {
                    assert(final(self).st() =~~= (StoreV {
                        tree: spec_delete_variant(s0, id, variant_name@).tree,
                        ..s0
                    }));
                }
                Err(StoreError::Sqlite(e))
            },
        }
    }

    /// Remove a resource and all its rows: tree first, index second.
    pub fn delete_resource(&mut self, path: &[String]) -> (r: Result<(), StoreError>)
        requires
            old(self).wf(),
        ensures
            final(self).wf(),
            ({
                let id = path_id(path.deep_view());
                &&& (!old(self).st().tree.contains_key(id) <==> r is Err && r.unwrap_err()
                    is NoSuchResource)
                &&& !old(self).st().tree.contains_key(id) ==> final(self).st() == old(self).st()
                &&& r is Ok ==> old(self).st().tree.contains_key(id) && final(self).st()
                    == spec_delete_resource(old(self).st(), id)
                &&& r is Err && r.unwrap_err() is Sqlite ==> final(self).st().tree == old(self).st().tree.remove(id) && final(self).st().index.tags == old(self).st().index.tags && final(self).st().dirty == old(self).st().dirty && (final(self).st().index.resources == old(self).st().index.resources || final(self).st().index.resources == old(self).st().index.resources.remove(id)) && (final(self).st().index.fts == old(self).st().index.fts || final(self).st().index.fts
                    == fts_without_id(old(self).st().index.fts, id))
            }),
    {
        let rid = ResourceId::from_parts(path);
        let id_str = rid.to_string();
        proof {
            lemma_assoc_contains(self.resources@);
        }
        let i = match self.find_res(id_str.as_str()) {
            Some(i) => i,
            None => {
                return Err(StoreError::NoSuchResource(clone_path(path)));
            },
        };
        let ghost s0 = self.st();
        let ghost id = rid@;
        proof {
            lemma_assoc_index(self.resources@, i as int);
        }
        let _entry = self.take_entry(i);
        proof {
            assert(self.wf());
            assert(self.st().tree =~~= s0.tree.remove(id));
        }
        match self.indexer.delete_resource(&rid) {
            Ok(()) => {
                proof {
                    assert(final(self).st() =~~= spec_delete_resource(s0, id));
                }
                Ok(())
            },
            Err(e) => Err(StoreError::Sqlite(e)),
        }
    }

    /// Apply the instructions of the variant transformers for this
    /// resource, in order, skipping those that name the `"default"`
    /// variant.
    pub fn apply_variant_transforms(
        &mut self,
        path: &[String],
        transforms: Vec<TransformerResult>,
    ) -> (r: Result<(), StoreError>)
        requires
            old(self).wf(),
        ensures
            final(self).wf(),
            r is Ok ==> final(self).st() == spec_apply_results(
                old(self).st(),
                path_id(path.deep_view()),
                transforms.deep_view(),
            ),
    {
        let ghost id = path_id(path.deep_view());
        let ghost dv = transforms.deep_view();
        let ghost s0 = self.st();
        let n = transforms.len();
        let mut i: usize = 0;
        proof {
            assert(dv.subrange(0, 0) =~= Seq::<TransformerResultV>::empty());
        }
        while i < n
            invariant
                0 <= i <= n,
                n == transforms@.len(),
                dv == transforms.deep_view(),
                id == path_id(path.deep_view()),
                s0 == old(self).st(),
                self.wf(),
                self.st() == spec_apply_results(s0, id, dv.subrange(0, i as int)),
            decreases n - i,
        {
            let ghost pre = self.st();
            proof {
                assert(dv[i as int] == transforms@[i as int]@);
            }
            match &transforms[i] {
                TransformerResult::Delete(name) => {
                    match self.delete_variant(path, name.as_str()) {
                        Ok(()) => (),
                        Err(e) => {
                            return Err(e);
                        },
                    }
                },
                TransformerResult::Create(v) => {
                    if !str_eq(v.name().as_str(), "default") {
                        match self.add_variant(
                            path,
                            v.name().as_str(),
                            v.meta(),
                            v.content().data().as_slice(),
                        ) {
                            Ok(()) => (),
                            Err(e) => {
                                return Err(e);
                            },
                        }
                    }
                },
                TransformerResult::Update(v) => {
                    if !str_eq(v.name().as_str(), "default") {
                        match self.update_variant(
                            path,
                            v.name().as_str(),
                            v.meta(),
                            v.content().data().as_slice(),
                        ) {
                            Ok(()) => (),
                            Err(e) => {
                                return Err(e);
                            },
                        }
                    }
                },
            }
            proof {
                assert(self.st() == spec_apply_one(pre, id, dv[i as int]));
                lemma_apply_snoc(s0, id, dv.subrange(0, i as int), dv[i as int]);
                assert(dv.subrange(0, i + 1) =~= dv.subrange(0, i as int).push(dv[i as int]));
            }
            i += 1;
        }
        proof {
            assert(dv.subrange(0, n as int) =~= dv);
        }
        Ok(())
    }

    /// Create a resource: its index rows first, then the resource in the
    /// tree, then whatever the transformers derive from its content.
    pub fn create_resource(
        &mut self,
        path: &[String],
        desc: &str,
        default_variant: &VariantMetadata,
        tags: &Vec<String>,
        content: &[u8],
    ) -> (r: Result<(), StoreError>)
        requires
            old(self).wf(),
        ensures
            final(self).wf(),
            r is Ok ==> !old(self).st().index.resources.contains(path_id(path.deep_view()))
                && extract_succeeds(default_variant@.mime_type, content@) && final(self).st()
                == spec_apply_results(
                spec_create_resource(
                    old(self).st(),
                    path_id(path.deep_view()),
                    desc@,
                    default_variant@,
                    crate::resource::tag_set(tags@),
                    content@,
                ),
                path_id(path.deep_view()),
                thumbnailer_results(
                    VariantChangeV::Created(default_variant@),
                    content@,
                    DEFAULT_THUMBNAIL_SIZE,
                ),
            ),
    {
        let rid = ResourceId::from_parts(path);
        let id_str = rid.to_string();
        let ghost id = rid@;
        let ghost s0 = self.st();
        let meta = ResourceMetadata::new(desc, default_variant, tags);
        match self.indexer.add_resource(&rid) {
            Ok(()) => (),
            Err(e) => {
                return Err(StoreError::Sqlite(e));
            },
        }
        let n = tags.len();
        let mut k: usize = 0;
        proof {
            assert(crate::resource::tag_set(tags@.subrange(0, 0)) =~= Set::<Seq<char>>::empty());
            assert(self.st().index.tags =~= tags_with_all(
                s0.index.tags,
                id,
                crate::resource::tag_set(tags@.subrange(0, 0)),
            ));
        }
        while k < n
            invariant
                0 <= k <= n,
                n == tags@.len(),
                id == rid@,
                self.wf(),
                self.st().tree == s0.tree,
                self.st().index.resources == s0.index.resources.insert(id),
                self.st().index.fts == s0.index.fts,
                self.st().dirty,
                self.st().index.tags == tags_with_all(
                    s0.index.tags,
                    id,
                    crate::resource::tag_set(tags@.subrange(0, k as int)),
                ),
            decreases n - k,
        {
            let ghost pre_tags = self.st().index.tags;
            match self.indexer.add_tag(&rid, tags[k].as_str()) {
                Ok(()) => (),
                Err(e) => {
                    return Err(StoreError::Sqlite(e));
                },
            }
            proof {
                crate::resource::lemma_tag_set_push(tags@.subrange(0, k as int), tags@[k as int]);
                assert(tags@.subrange(0, k + 1) =~= tags@.subrange(0, k as int).push(
                    tags@[k as int],
                ));
                assert(self.st().index.tags =~= tags_with_all(
                    s0.index.tags,
                    id,
                    crate::resource::tag_set(tags@.subrange(0, k + 1)),
                ));
            }
            k += 1;
        }
        proof {
            assert(tags@.subrange(0, n as int) =~= tags@);
        }
        match self.indexer.add_text(&rid, "default", desc) {
            Ok(()) => (),
            Err(e) => {
                return Err(StoreError::Sqlite(e));
            },
        }
        match self.indexer.add_variant(&rid, "default", default_variant, content) {
            Ok(()) => (),
            Err(e) => {
                return Err(StoreError::Sqlite(e));
            },
        }
        let change = VariantChange::Created(default_variant.clone());
        let results = run_transformers(&change, content);
        let res = StoredResource {
            meta,
            default_content: vstd::slice::slice_to_vec(content),
            variants: Vec::new(),
        };
        proof {
            assert(res.inv()) by {
                assert(res@.variants =~= Map::<Seq<char>, Seq<u8>>::empty());
                assert(res@.variants.dom() =~= res@.meta.variants.dom().remove("default"@));
            }
            lemma_assoc_contains(self.resources@);
        }
        match self.find_res(id_str.as_str()) {
            Some(i) => {
                let _stale = self.take_entry(i);
            },
            None => (),
        }
        self.put_entry((id_str, res));
        proof {
            assert(self.st() =~~= spec_create_resource(
                s0,
                id,
                desc@,
                default_variant@,
                crate::resource::tag_set(tags@),
                content@,
            ));
        }
        let ghost created = self.st();
        match self.apply_variant_transforms(path, results) {
            Ok(()) => {
                proof {
                    assert(final(self).st() == spec_apply_results(
                        created,
                        path_id(path.deep_view()),
                        thumbnailer_results(
                            VariantChangeV::Created(default_variant@),
                            content@,
                            DEFAULT_THUMBNAIL_SIZE,
                        ),
                    ));
                }
                Ok(())
            },
            Err(e) => Err(e),
        }
    }

    /// Import a local file's bytes: the resource is filed under the leaf
    /// name of the path, described by the whole path, its MIME type
    /// guessed from the path.
    pub fn import_file(&mut self, local_path: &str, content: &[u8]) -> (r: Result<
        (),
        StoreError,
    >)
        requires
            old(self).wf(),
        ensures
            final(self).wf(),
            r is Ok ==> ({
                let base = crate::strutil::after_last_slash(local_path@);
                let vm = VariantMetadataV {
                    size: content@.len() as u64,
                    mime_type: mime_of_path(local_path@),
                };
                &&& !old(self).st().index.resources.contains(base)
                &&& extract_succeeds(vm.mime_type, content@)
                &&& final(self).st() == spec_apply_results(
                    spec_create_resource(
                        old(self).st(),
                        base,
                        local_path@,
                        vm,
                        Set::<Seq<char>>::empty(),
                        content@,
                    ),
                    base,
                    thumbnailer_results(
                        VariantChangeV::Created(vm),
                        content@,
                        DEFAULT_THUMBNAIL_SIZE,
                    ),
                )
            }),
    {
        let file_name = crate::strutil::basename_of(local_path);
        let mime = guess_mime(local_path);
        let size = content.len() as u64;
        let variant = VariantMetadata::new(size, mime.as_str());
        let mut path_vec: Vec<String> = Vec::new();
        path_vec.push(file_name);
        let empty_tags: Vec<String> = Vec::new();
        let path_slice = path_vec.as_slice();
        proof {
            assert(path_slice.deep_view() =~= seq![
                crate::strutil::after_last_slash(local_path@),
            ]);
            assert(path_id(path_slice.deep_view()) == crate::strutil::after_last_slash(
                local_path@,
            ));
            assert(crate::resource::tag_set(empty_tags@) =~= Set::<Seq<char>>::empty());
        }
        self.create_resource(path_slice, local_path, &variant, &empty_tags, content)
    }

    /// Ids whose indexed text contains the normalized query, each with
    /// its metadata.
    pub fn search(&self, text: &str) -> (r: Result<
        Vec<(ResourceId, ResourceMetadata)>,
        StoreError,
    >)
        requires
            self.wf(),
        ensures
            r is Ok ==> ({
                &&& forall|i: int|
                    0 <= i < r.unwrap()@.len() ==> fts_hit(
                        self.st().index.fts,
                        (#[trigger] r.unwrap()@[i]).0@,
                        folded(text@),
                    ) && self.st().tree.contains_key(r.unwrap()@[i].0@) && r.unwrap()@[i].1@
                        == self.st().tree[r.unwrap()@[i].0@].meta
                &&& forall|id: Seq<char>|
                    fts_hit(self.st().index.fts, id, folded(text@)) ==> #[trigger] hit_listed(
                        r.unwrap()@,
                        id,
                    )
                &&& forall|i: int, j: int|
                    0 <= i < j < r.unwrap()@.len() ==> r.unwrap()@[i].0@ != r.unwrap()@[j].0@
            }),
            r is Err && r.unwrap_err() is NoSuchResource ==> exists|id: Seq<char>|
                fts_hit(self.st().index.fts, id, folded(text@)) && !self.st().tree.contains_key(
                    id,
                ),
    {
        let ids = match self.indexer.search(text) {
            Ok(ids) => ids,
            Err(e) => {
                return Err(StoreError::Sqlite(e));
            },
        };
        let mut out: Vec<(ResourceId, ResourceMetadata)> = Vec::new();
        let n = ids.len();
        let mut i: usize = 0;
        while i < n
            invariant
                0 <= i <= n,
                n == ids@.len(),
                self.wf(),
                forall|a: int, b: int| 0 <= a < b < n ==> ids@[a]@ != ids@[b]@,
                forall|id: Seq<char>|
                    #[trigger] rid_listed(ids@, id) <==> fts_hit(
                        self.st().index.fts,
                        id,
                        folded(text@),
                    ),
                out@.len() == i,
                forall|j: int|
                    0 <= j < i ==> (#[trigger] out@[j]).0@ == ids@[j]@
                        && self.st().tree.contains_key(out@[j].0@) && out@[j].1@ == self.st()
                        .tree[out@[j].0@].meta,
            decreases n - i,
        {
            let rid = ids[i].clone();
            let id_str = rid.to_string();
            proof {
                lemma_assoc_contains(self.resources@);
            }
            match self.find_res(id_str.as_str()) {
                Some(k) => {
                    proof {
                        lemma_assoc_index(self.resources@, k as int);
                        assert(self.resources@[k as int].1.inv());
                    }
                    out.push((rid, self.resources[k].1.meta.clone()));
                },
                None => {
                    proof {
                        let ghost bad = ids@[i as int]@;
                        assert(rid_listed(ids@, bad));
                        assert(fts_hit(self.st().index.fts, bad, folded(text@)));
                        assert(!self.st().tree.contains_key(bad)) by {
                            if self.st().tree.contains_key(bad) {
                                let j = choose|j: int|
                                    0 <= j < self.resources@.len() && self.resources@[j].0@
                                        == bad;
                                assert(self.resources@[j].0@ != bad);
                            }
                        }
                    }
                    return Err(StoreError::NoSuchResource(rid.parts()));
                },
            }
            i += 1;
        }
        proof {
            assert forall|id: Seq<char>|
                fts_hit(self.st().index.fts, id, folded(text@)) implies #[trigger] hit_listed(
                out@,
                id,
            ) by {
                assert(rid_listed(ids@, id));
                let j = choose|j: int| 0 <= j < ids@.len() && ids@[j]@ == id;
                assert(out@[j].0@ == id);
            }
            assert forall|i2: int|
                0 <= i2 < out@.len() implies fts_hit(
                self.st().index.fts,
                (#[trigger] out@[i2]).0@,
                folded(text@),
            ) by {
                assert(ids@[i2]@ == out@[i2].0@);
                assert(rid_listed(ids@, out@[i2].0@));
            }
            assert forall|a: int, b: int|
                0 <= a < b < out@.len() implies out@[a].0@ != out@[b].0@ by {
                assert(out@[a].0@ == ids@[a]@ && out@[b].0@ == ids@[b]@);
            }
        }
        Ok(out)
    }

    /// Every resource of the tree, with its metadata.
    pub fn ls(&self) -> (r: Result<Vec<(String, ResourceMetadata)>, StoreError>)
        requires
            self.wf(),
        ensures
            r is Ok,
            r.unwrap()@.len() == self.st().tree.dom().len(),
            forall|i: int|
                0 <= i < r.unwrap()@.len() ==> self.st().tree.contains_key(
                    (#[trigger] r.unwrap()@[i]).0@,
                ) && r.unwrap()@[i].1@ == self.st().tree[r.unwrap()@[i].0@].meta,
            forall|id: Seq<char>|
                #[trigger] self.st().tree.contains_key(id) ==> exists|i: int|
                    0 <= i < r.unwrap()@.len() && (#[trigger] r.unwrap()@[i]).0@ == id,
            forall|i: int, j: int|
                0 <= i < j < r.unwrap()@.len() ==> (#[trigger] r.unwrap()@[i]).0@ != (
                #[trigger] r.unwrap()@[j]).0@,
    {
        let n = self.resources.len();
        let mut out: Vec<(String, ResourceMetadata)> = Vec::new();
        let mut i: usize = 0;
        while i < n
            invariant
                0 <= i <= n,
                n == self.resources@.len(),
                self.wf(),
                out@.len() == i,
                forall|j: int|
                    0 <= j < i ==> (#[trigger] out@[j]).0@ == self.resources@[j].0@ && out@[j].1@
                        == self.resources@[j].1@.meta,
            decreases n - i,
        {
            let pair = &self.resources[i];
            proof {
                lemma_assoc_index(self.resources@, i as int);
                assert(self.resources@[i as int].1.inv());
            }
            out.push((pair.0.clone(), pair.1.meta.clone()));
            i += 1;
        }
        proof {
            lemma_assoc_contains(self.resources@);
            assert forall|j: int|
                0 <= j < out@.len() implies self.st().tree.contains_key((#[trigger] out@[j]).0@)
                && out@[j].1@ == self.st().tree[out@[j].0@].meta by {
                assert(self.resources@[j].0@ == out@[j].0@);
                lemma_assoc_index(self.resources@, j);
            }
            assert forall|id: Seq<char>| #[trigger]
                self.st().tree.contains_key(id) implies exists|i2: int|
                0 <= i2 < out@.len() && (#[trigger] out@[i2]).0@ == id by {
                let j = choose|j: int|
                    0 <= j < self.resources@.len() && self.resources@[j].0@ == id;
                assert(out@[j].0@ == id);
            }
            lemma_tree_len(self.resources@);
        }
        Ok(out)
    }
}

/// The tree map of a distinct association list has one key per entry.
proof fn lemma_tree_len(s: Seq<(String, StoredResource)>)
    requires
        assoc_distinct(s),
    ensures
        assoc_map(s).dom().len() == s.len(),
        assoc_map(s).dom().finite(),
    decreases s.len(),
{
    if s.len() == 0 {
        assert(assoc_map(s).dom() =~= Set::<Seq<char>>::empty());
    } else {
        lemma_tree_len(s.drop_last());
        lemma_assoc_contains::<StoredResource>(s.drop_last());
        assert(!assoc_map(s.drop_last()).contains_key(s.last().0@)) by {
            if assoc_map(s.drop_last()).contains_key(s.last().0@) {
                let j = choose|j: int|
                    0 <= j < s.drop_last().len() && s.drop_last()[j].0@ == s.last().0@;
                assert(s[j].0@ == s[s.len() - 1].0@);
            }
        }
        assert(assoc_map(s).dom() =~= assoc_map(s.drop_last()).dom().insert(s.last().0@));
        vstd::set::axiom_set_insert_len(assoc_map(s.drop_last()).dom(), s.last().0@);
    }
}

/// Clone a path for an error value.
fn clone_path(path: &[String]) -> (r: Vec<String>)
{
    let n = path.len();
    let mut out: Vec<String> = Vec::new();
    let mut i: usize = 0;
    while i < n
        invariant
            0 <= i <= n,
            n == path@.len(),
        decreases n - i,
    {
        out.push(vstd::slice::slice_index_get(path, i).clone());
        i += 1;
    }
    out
}

/// Clone a content buffer.
fn clone_bytes(bytes: &Vec<u8>) -> (r: Vec<u8>)
    ensures
        r@ == bytes@,
{
    let n = bytes.len();
    let mut out: Vec<u8> = Vec::new();
    let mut i: usize = 0;
    while i < n
        invariant
            0 <= i <= n,
            n == bytes@.len(),
            out@ == bytes@.subrange(0, i as int),
        decreases n - i,
    {
        out.push(bytes[i]);
        proof {
            assert(out@ =~= bytes@.subrange(0, i + 1));
        }
        i += 1;
    }
    proof {
        assert(bytes@.subrange(0, n as int) =~= bytes@);
    }
    out
}

/// Index of the named content entry, if any.
fn find_content(variants: &Vec<(String, Vec<u8>)>, name: &str) -> (r: Option<usize>)
    ensures
        match r {
            Some(i) => 0 <= i < variants@.len() && variants@[i as int].0@ == name@,
            None => forall|j: int| 0 <= j < variants@.len() ==> variants@[j].0@ != name@,
        },
{
    let n = variants.len();
    let mut i: usize = 0;
    while i < n
        invariant
            0 <= i <= n,
            n == variants@.len(),
            forall|j: int| 0 <= j < i ==> variants@[j].0@ != name@,
        decreases n - i,
    {
        if str_eq(variants[i].0.as_str(), name) {
            return Some(i);
        }
        i += 1;
    }
    None
}

} // verus!
