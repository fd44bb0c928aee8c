//! The store's laws: the index mirrors the tree across every operation,
//! creation round-trips, and search is normalization-insensitive.

use vstd::prelude::*;

use crate::indexer::{folded, fts_hit, FtsRowV, IndexV};
use crate::resource::VariantMetadataV;
use crate::store::{spec_add_tag, spec_add_variant, spec_apply_one, spec_apply_results,
    spec_create_resource, spec_delete_resource, spec_delete_variant, spec_remove_tag,
    spec_update_variant, StoreV};
use crate::transformers::TransformerResultV;

verus! {

/// The index agrees with the tree: the resource rows are exactly the
/// tree's ids; for each live resource, its tag rows are exactly its
/// metadata's tags; and no tag row names a dead resource.
pub open spec fn index_matches_tree(s: StoreV) -> bool {
    &&& s.index.resources == s.tree.dom()
    &&& forall|id: Seq<char>, tag: Seq<char>|
        s.tree.contains_key(id) ==> (#[trigger] s.index.tags.contains((id, tag))
            <==> s.tree[id].meta.tags.contains(tag))
    &&& forall|p: (Seq<char>, Seq<char>)|
        #[trigger] s.index.tags.contains(p) ==> s.tree.contains_key(p.0)
}

/// Creating a fresh resource keeps the index and the tree in agreement.
pub proof fn lemma_create_matches(
    s: StoreV,
    id: Seq<char>,
    desc: Seq<char>,
    vm: VariantMetadataV,
    tags: Set<Seq<char>>,
    content: Seq<u8>,
)
    requires
        index_matches_tree(s),
        !s.tree.contains_key(id),
    ensures
        index_matches_tree(spec_create_resource(s, id, desc, vm, tags, content)),
{
    let s1 = spec_create_resource(s, id, desc, vm, tags, content);
    assert(s1.index.resources =~= s1.tree.dom());
}

/// Adding a variant keeps the index and the tree in agreement.
pub proof fn lemma_add_variant_matches(
    s: StoreV,
    id: Seq<char>,
    name: Seq<char>,
    vm: VariantMetadataV,
    content: Seq<u8>,
)
    requires
        index_matches_tree(s),
        s.tree.contains_key(id),
    ensures
        index_matches_tree(spec_add_variant(s, id, name, vm, content)),
{
    let s1 = spec_add_variant(s, id, name, vm, content);
    assert(s1.index.resources =~= s1.tree.dom());
}

/// Updating a variant keeps the index and the tree in agreement.
pub proof fn lemma_update_variant_matches(
    s: StoreV,
    id: Seq<char>,
    name: Seq<char>,
    vm: VariantMetadataV,
    content: Seq<u8>,
)
    requires
        index_matches_tree(s),
        s.tree.contains_key(id),
    ensures
        index_matches_tree(spec_update_variant(s, id, name, vm, content)),
{
    let s1 = spec_update_variant(s, id, name, vm, content);
    assert(s1.index.resources =~= s1.tree.dom());
}

/// Deleting a variant keeps the index and the tree in agreement.
pub proof fn lemma_delete_variant_matches(s: StoreV, id: Seq<char>, name: Seq<char>)
    requires
        index_matches_tree(s),
        s.tree.contains_key(id),
    ensures
        index_matches_tree(spec_delete_variant(s, id, name)),
{
    let s1 = spec_delete_variant(s, id, name);
    assert(s1.index.resources =~= s1.tree.dom());
}

/// Deleting a resource keeps the index and the tree in agreement.
pub proof fn lemma_delete_resource_matches(s: StoreV, id: Seq<char>)
    requires
        index_matches_tree(s),
    ensures
        index_matches_tree(spec_delete_resource(s, id)),
{
    let s1 = spec_delete_resource(s, id);
    assert(s1.index.resources =~= s1.tree.dom());
}

/// Adding a tag keeps the index and the tree in agreement.
pub proof fn lemma_add_tag_matches(s: StoreV, id: Seq<char>, tag: Seq<char>)
    requires
        index_matches_tree(s),
        s.tree.contains_key(id),
    ensures
        index_matches_tree(spec_add_tag(s, id, tag)),
{
    let s1 = spec_add_tag(s, id, tag);
    assert(s1.index.resources =~= s1.tree.dom());
}

/// Removing a tag keeps the index and the tree in agreement.
pub proof fn lemma_remove_tag_matches(s: StoreV, id: Seq<char>, tag: Seq<char>)
    requires
        index_matches_tree(s),
        s.tree.contains_key(id),
    ensures
        index_matches_tree(spec_remove_tag(s, id, tag)),
{
    let s1 = spec_remove_tag(s, id, tag);
    assert(s1.index.resources =~= s1.tree.dom());
}

/// One transformer instruction keeps the index and the tree in agreement.
pub proof fn lemma_apply_one_matches(s: StoreV, id: Seq<char>, t: TransformerResultV)
    requires
        index_matches_tree(s),
    ensures
        index_matches_tree(spec_apply_one(s, id, t)),
{
    match t {
        TransformerResultV::Delete(name) => {
            if name != "default"@ && s.tree.contains_key(id)
                && s.tree[id].meta.variants.contains_key(name) {
                lemma_delete_variant_matches(s, id, name);
            }
        },
        TransformerResultV::Create(tv) => {
            if tv.name != "default"@ && s.tree.contains_key(id) {
                lemma_add_variant_matches(s, id, tv.name, tv.meta, tv.content);
            }
        },
        TransformerResultV::Update(tv) => {
            if tv.name != "default"@ && s.tree.contains_key(id) {
                lemma_update_variant_matches(s, id, tv.name, tv.meta, tv.content);
            }
        },
    }
}

/// A whole list of transformer instructions keeps the agreement.
pub proof fn lemma_apply_results_matches(s: StoreV, id: Seq<char>, ts: Seq<TransformerResultV>)
    requires
        index_matches_tree(s),
    ensures
        index_matches_tree(spec_apply_results(s, id, ts)),
    decreases ts.len(),
{
    if ts.len() > 0 {
        lemma_apply_one_matches(s, id, ts.first());
        lemma_apply_results_matches(spec_apply_one(s, id, ts.first()), id, ts.drop_first());
    }
}

/// Transformer instructions never touch a resource's default content,
/// nor remove the resource.
pub proof fn lemma_apply_keeps_default(s: StoreV, id: Seq<char>, ts: Seq<TransformerResultV>)
    requires
        s.tree.contains_key(id),
    ensures
        spec_apply_results(s, id, ts).tree.contains_key(id),
        spec_apply_results(s, id, ts).tree[id].default_content == s.tree[id].default_content,
    decreases ts.len(),
{
    if ts.len() > 0 {
        let s1 = spec_apply_one(s, id, ts.first());
        assert(s1.tree.contains_key(id) && s1.tree[id].default_content
            == s.tree[id].default_content) by {
            match ts.first() {
                TransformerResultV::Delete(_) => {},
                TransformerResultV::Create(_) => {},
                TransformerResultV::Update(tv) => {
                    assert(tv.name != "default"@ || s1 == s);
                },
            }
        }
        lemma_apply_keeps_default(s1, id, ts.drop_first());
    }
}

/// Creating a resource and then reading its default variant gives back
/// exactly the bytes that were written, for every byte sequence, the
/// empty one included — whatever variants the transformers derived on
/// top.
pub proof fn lemma_create_round_trip(
    s: StoreV,
    id: Seq<char>,
    desc: Seq<char>,
    vm: VariantMetadataV,
    tags: Set<Seq<char>>,
    content: Seq<u8>,
    ts: Seq<TransformerResultV>,
)
    ensures
        ({
            let s1 = spec_apply_results(spec_create_resource(s, id, desc, vm, tags, content), id, ts);
            s1.tree.contains_key(id) && s1.tree[id].default_content == content
        }),
{
    let s0 = spec_create_resource(s, id, desc, vm, tags, content);
    assert(s0.tree.contains_key(id) && s0.tree[id].default_content == content);
    lemma_apply_keeps_default(s0, id, ts);
}

/// Search sees only the normalized query: two queries that normalize to
/// the same text hit exactly the same ids, whatever the index holds.
pub proof fn lemma_search_normalized(fts: Set<FtsRowV>, q1: Seq<char>, q2: Seq<char>)
    requires
        folded(q1) == folded(q2),
    ensures
        forall|id: Seq<char>|
            #[trigger] fts_hit(fts, id, folded(q1)) <==> fts_hit(fts, id, folded(q2)),
{
}

} // verus!
