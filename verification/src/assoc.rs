//! Association lists keyed by strings, with their map view.
//!
//! Several containers of this crate hold `(String, V)` pairs with pairwise
//! distinct keys and are specified through the finite map they denote.

use vstd::prelude::*;

verus! {

/// The map denoted by an association list; later entries would win,
/// but the lists of this crate keep their keys pairwise distinct.
pub open spec fn assoc_map<V: View>(s: Seq<(String, V)>) -> Map<Seq<char>, V::V>
    decreases s.len(),
{
    if s.len() == 0 {
        Map::empty()
    } else {
        assoc_map(s.drop_last()).insert(s.last().0@, s.last().1@)
    }
}

/// Keys are pairwise distinct.
pub open spec fn assoc_distinct<V: View>(s: Seq<(String, V)>) -> bool {
    forall|i: int, j: int| 0 <= i < j < s.len() ==> s[i].0@ != s[j].0@
}

/// A key is in the map exactly when some entry carries it.
pub proof fn lemma_assoc_contains<V: View>(s: Seq<(String, V)>)
    ensures
        forall|k: Seq<char>|
            #[trigger] assoc_map(s).contains_key(k) <==> exists|i: int|
                0 <= i < s.len() && s[i].0@ == k,
    decreases s.len(),
{
    if s.len() == 0 {
    } else {
        lemma_assoc_contains(s.drop_last());
        assert forall|k: Seq<char>| #[trigger]
            assoc_map(s).contains_key(k) implies exists|i: int|
            0 <= i < s.len() && s[i].0@ == k by {
            if k == s.last().0@ {
                assert(s[s.len() - 1].0@ == k);
            } else {
                assert(assoc_map(s.drop_last()).contains_key(k));
                let i = choose|i: int| 0 <= i < s.drop_last().len() && s.drop_last()[i].0@ == k;
                assert(s.drop_last()[i] == s[i]);
                assert(s[i].0@ == k);
            }
        }
        assert forall|k: Seq<char>|
            (exists|i: int| 0 <= i < s.len() && s[i].0@ == k) implies #[trigger]
            assoc_map(s).contains_key(k) by {
            let i = choose|i: int| 0 <= i < s.len() && s[i].0@ == k;
            if i < s.len() - 1 {
                assert(s.drop_last()[i].0@ == k);
                assert(exists|j: int| 0 <= j < s.drop_last().len() && s.drop_last()[j].0@ == k);
                assert(assoc_map(s.drop_last()).contains_key(k));
            } else {
                assert(k == s.last().0@);
            }
        }
    }
}

/// Under distinct keys, the map sends each entry's key to its value.
pub proof fn lemma_assoc_index<V: View>(s: Seq<(String, V)>, i: int)
    requires
        assoc_distinct(s),
        0 <= i < s.len(),
    ensures
        assoc_map(s).contains_key(s[i].0@),
        assoc_map(s)[s[i].0@] == s[i].1@,
    decreases s.len(),
{
    if i == s.len() - 1 {
    } else {
        lemma_assoc_index(s.drop_last(), i);
        assert(s.drop_last()[i] == s[i]);
        assert(s[i].0@ != s.last().0@);
    }
}

/// Replacing the value of entry `i` is an insert on the map.
pub proof fn lemma_assoc_update<V: View>(s: Seq<(String, V)>, i: int, v: V)
    requires
        assoc_distinct(s),
        0 <= i < s.len(),
    ensures
        assoc_map(s.update(i, (s[i].0, v))) =~= assoc_map(s).insert(s[i].0@, v@),
        assoc_distinct(s.update(i, (s[i].0, v))),
    decreases s.len(),
{
    let t = s.update(i, (s[i].0, v));
    assert(assoc_distinct(t)) by {
        assert forall|x: int, y: int| 0 <= x < y < t.len() implies t[x].0@ != t[y].0@ by {
            assert(t[x].0@ == s[x].0@ && t[y].0@ == s[y].0@);
        }
    }
    if i == s.len() - 1 {
        assert(t.drop_last() =~= s.drop_last());
    } else {
        lemma_assoc_update(s.drop_last(), i, v);
        assert(t.drop_last() =~= s.drop_last().update(i, (s[i].0, v)));
        assert(s.drop_last()[i] == s[i]);
        assert(s[i].0@ != s.last().0@);
    }
}

/// Removing entry `i` is a remove on the map.
pub proof fn lemma_assoc_remove<V: View>(s: Seq<(String, V)>, i: int)
    requires
        assoc_distinct(s),
        0 <= i < s.len(),
    ensures
        assoc_map(s.remove(i)) =~= assoc_map(s).remove(s[i].0@),
        assoc_distinct(s.remove(i)),
    decreases s.len(),
{
    let t = s.remove(i);
    let k = s[i].0@;
    assert(assoc_distinct(t)) by {
        assert forall|x: int, y: int| 0 <= x < y < t.len() implies t[x].0@ != t[y].0@ by {
            let sx: int = if x < i {
                x
            } else {
                x + 1
            };
            let sy: int = if y < i {
                y
            } else {
                y + 1
            };
            assert(t[x].0@ == s[sx].0@ && t[y].0@ == s[sy].0@);
        }
    }
    if i == s.len() - 1 {
        assert(t =~= s.drop_last());
        lemma_assoc_contains::<V>(s.drop_last());
        assert(!assoc_map(s.drop_last()).contains_key(k)) by {
            if assoc_map(s.drop_last()).contains_key(k) {
                let j = choose|j: int|
                    0 <= j < s.drop_last().len() && s.drop_last()[j].0@ == k;
                assert(s[j].0@ == s[i].0@);
            }
        }
    } else {
        lemma_assoc_remove(s.drop_last(), i);
        assert(t.drop_last() =~= s.drop_last().remove(i));
        assert(s.drop_last()[i] == s[i]);
        assert(t.last() == s.last());
        assert(k != s.last().0@);
    }
}

/// Appending a fresh key is an insert on the map.
pub proof fn lemma_assoc_push<V: View>(s: Seq<(String, V)>, p: (String, V))
    requires
        assoc_distinct(s),
        forall|i: int| 0 <= i < s.len() ==> s[i].0@ != p.0@,
    ensures
        assoc_map(s.push(p)) =~= assoc_map(s).insert(p.0@, p.1@),
        assoc_distinct(s.push(p)),
{
    assert(s.push(p).drop_last() =~= s);
    assert(s.push(p).last() == p);
}

} // verus!
