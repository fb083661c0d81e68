//! Proofs of the guarantees that span several operations: what a full
//! migration run yields, that re-running it changes nothing, that a run
//! resumes exactly where the watermark says, what cascading deletes remove
//! and what they leave, the uniqueness the final schema enforces, and that
//! the rebuild step preserves every row or nothing at all.

use vstd::prelude::*;

use crate::migrations::{data_unchanged, migrate_ok, migrates_to, versions_after};
use crate::schema::{schema_at, Schema, LATEST_VERSION, REBUILD_VERSION};
use crate::store::{
    document_delete_effect, seq_has_highlight_key, tag_delete_effect, Store,
};

verus! {

/// Running the full sequence on a fresh store succeeds, yields the complete
/// schema — all four tables, with the stable highlight identifier unique —
/// and leaves the watermark at the highest declared version.
pub proof fn full_migration_on_fresh_store(pre: Store, post: Store)
    requires
        pre.version == 0,
        pre.highlights@.len() == 0,
        migrates_to(pre, post),
    ensures
        migrate_ok(pre),
        post.version == LATEST_VERSION,
        post.schema == (Schema {
            has_pdfs: true,
            has_highlights: true,
            has_tags: true,
            has_highlight_tags: true,
            highlight_id_unique: true,
        }),
{
}

/// Applying the sequence twice in succession produces the same schema and
/// data as applying it once: the second run succeeds exactly when the first
/// did, and changes nothing.
pub proof fn migration_idempotent(s0: Store, s1: Store, s2: Store)
    requires
        migrates_to(s0, s1),
        migrates_to(s1, s2),
    ensures
        migrate_ok(s1) == migrate_ok(s0),
        s2.version == s1.version,
        s2.schema == s1.schema,
        data_unchanged(s1, s2),
{
}

/// A store whose watermark stands at 2 receives exactly the steps above the
/// watermark — versions 3, 4 and 5, in order, with 1 and 2 never re-run —
/// and ends at the highest declared version.
pub proof fn resumption_applies_only_remaining_steps(pre: Store, post: Store)
    requires
        pre.version == 2,
        migrate_ok(pre),
        migrates_to(pre, post),
    ensures
        versions_after(pre.version) == seq![3u32, 4u32, 5u32],
        post.version == LATEST_VERSION,
{
    assert(versions_after(pre.version) =~= seq![3u32, 4u32, 5u32]);
}

/// Deleting a document removes all its highlights and, transitively, every
/// association row whose highlight disappeared; every highlight of another
/// document survives, and the tag table is untouched.
pub proof fn document_delete_cascades(pre: Store, post: Store, id: u64)
    requires
        pre.wf(),
        document_delete_effect(pre, post, id),
    ensures
        forall|i: int|
            0 <= i < post.highlights@.len() ==> (#[trigger] post.highlights@[i]).pdf_id != id,
        forall|i: int|
            0 <= i < post.highlight_tags@.len() ==> seq_has_highlight_key(
                post.highlights@,
                (#[trigger] post.highlight_tags@[i]).highlight_id@,
            ),
        forall|i: int|
            0 <= i < pre.highlights@.len() && pre.highlights@[i].pdf_id != id
                ==> post.highlights@.contains(#[trigger] pre.highlights@[i]),
        post.tags@ == pre.tags@,
{
    let hpred = crate::store::highlight_owner_not(id);
    let apred = crate::store::assoc_key_live(post.highlights@);
    assert forall|i: int|
        0 <= i < post.highlights@.len() implies (#[trigger] post.highlights@[i]).pdf_id
        != id by {
        pre.highlights@.lemma_filter_pred(hpred, i);
    }
    assert forall|i: int|
        0 <= i < post.highlight_tags@.len() implies seq_has_highlight_key(
        post.highlights@,
        (#[trigger] post.highlight_tags@[i]).highlight_id@,
    ) by {
        pre.highlight_tags@.lemma_filter_pred(apred, i);
    }
    assert forall|i: int|
        0 <= i < pre.highlights@.len() && pre.highlights@[i].pdf_id != id
        implies post.highlights@.contains(#[trigger] pre.highlights@[i]) by {
        pre.highlights@.lemma_filter_contains(hpred, i);
    }
}

/// Deleting a tag removes only its association rows: every highlight — and
/// every association of another tag — survives, and the document table is
/// untouched.
pub proof fn tag_delete_leaves_highlights(pre: Store, post: Store, id: u64)
    requires
        pre.wf(),
        tag_delete_effect(pre, post, id),
    ensures
        post.highlights@ == pre.highlights@,
        post.pdfs@ == pre.pdfs@,
        forall|i: int|
            0 <= i < post.highlight_tags@.len() ==> (#[trigger] post.highlight_tags@[i]).tag_id
                != id,
        forall|i: int|
            0 <= i < pre.highlight_tags@.len() && pre.highlight_tags@[i].tag_id != id
                ==> post.highlight_tags@.contains(#[trigger] pre.highlight_tags@[i]),
{
    let apred = crate::store::assoc_tag_not(id);
    assert forall|i: int|
        0 <= i < post.highlight_tags@.len() implies (#[trigger] post.highlight_tags@[i]).tag_id
        != id by {
        pre.highlight_tags@.lemma_filter_pred(apred, i);
    }
    assert forall|i: int|
        0 <= i < pre.highlight_tags@.len() && pre.highlight_tags@[i].tag_id != id
        implies post.highlight_tags@.contains(#[trigger] pre.highlight_tags@[i]) by {
        pre.highlight_tags@.lemma_filter_contains(apred, i);
    }
}

/// Once the rebuild step has run, no stable highlight identifier names two
/// rows: two rows that carry the same identifier are the same row.
pub proof fn unique_highlight_key_post_rebuild(s: Store, i: int, j: int)
    requires
        s.wf(),
        s.schema.highlight_id_unique,
        0 <= i < s.highlights@.len(),
        0 <= j < s.highlights@.len(),
        s.highlights@[i].highlight_id@ == s.highlights@[j].highlight_id@,
    ensures
        i == j,
{
    if i < j {
        assert(false);
    } else if j < i {
        assert(false);
    }
}

/// No tag name names two rows: two tag rows that carry the same name are
/// the same row.
pub proof fn unique_tag_names(s: Store, i: int, j: int)
    requires
        s.wf(),
        0 <= i < s.tags@.len(),
        0 <= j < s.tags@.len(),
        s.tags@[i].name@ == s.tags@[j].name@,
    ensures
        i == j,
{
    if i < j {
        assert(false);
    } else if j < i {
        assert(false);
    }
}

/// A successful rebuild preserves the data exactly: every highlight row and
/// every association row of the store at the prior watermark exists
/// unchanged afterwards, with the uniqueness constraint now recorded.
pub proof fn rebuild_preserves_rows(pre: Store, post: Store)
    requires
        pre.wf(),
        pre.version + 1 == REBUILD_VERSION,
        migrate_ok(pre),
        migrates_to(pre, post),
    ensures
        post.highlights@ == pre.highlights@,
        post.highlight_tags@ == pre.highlight_tags@,
        post.pdfs@ == pre.pdfs@,
        post.tags@ == pre.tags@,
        post.version == LATEST_VERSION,
        post.schema.highlight_id_unique,
{
}

/// A failed run is atomic: when the rebuild step cannot succeed, the store
/// keeps all its data, its watermark stays at the last committed version,
/// and its schema still matches that watermark — consistent, but without
/// the uniqueness constraint.
pub proof fn failed_rebuild_is_atomic(pre: Store, post: Store)
    requires
        pre.wf(),
        !migrate_ok(pre),
        migrates_to(pre, post),
    ensures
        post.version + 1 == REBUILD_VERSION,
        data_unchanged(pre, post),
        post.schema == schema_at(post.version),
        !post.schema.highlight_id_unique,
{
}

} // verus!
