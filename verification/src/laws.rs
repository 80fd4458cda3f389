use vstd::prelude::*;

use crate::codec::EntryView;
use crate::raft_log::log_view;
use crate::raft_log::KeyRange;
use crate::raft_log::RaftLog;

verus! {

/// Round-trip: for every entry, a `get` of `insert(e)`'s index after the
/// insert returns exactly `e`. The premise is `insert`'s postcondition on
/// the log's view; the conclusion is what `get`'s postcondition then
/// forces it to return.
pub proof fn lemma_insert_then_get(pre: Map<u64, EntryView>, post: Map<u64, EntryView>, e: EntryView)
    requires
        post == pre.insert(e.index, e),
    ensures
        post.dom().contains(e.index),
        post[e.index] == e,
{
}

/// Overwrite semantics: inserting at an already-occupied index yields the
/// previously stored entry (that is `insert`'s own postcondition, restated
/// here as the premise on `prev`), and a subsequent `get` returns the new
/// entry, not the old one.
pub proof fn lemma_overwrite(
    pre: Map<u64, EntryView>,
    post: Map<u64, EntryView>,
    e: EntryView,
    prev: EntryView,
)
    requires
        pre.dom().contains(e.index),
        prev == pre[e.index],
        post == pre.insert(e.index, e),
    ensures
        post.dom().contains(e.index),
        post[e.index] == e,
        pre[e.index] == prev,
{
}

/// Range-delete completeness: after a successful `range_delete(r)` — whose
/// postcondition says no key of `r` remains stored — any list that
/// `range_keys(r)` returns (keys stored and in `r`) is empty.
pub proof fn lemma_range_delete_completeness(
    post_raw: Map<u64, Seq<u8>>,
    r: KeyRange,
    ks: Seq<u64>,
)
    requires
        forall|k: u64| r.contains_spec(k) ==> !post_raw.dom().contains(k),
        forall|i: int|
            0 <= i < ks.len() ==> post_raw.dom().contains(#[trigger] ks[i]) && r.contains_spec(
                ks[i],
            ),
    ensures
        ks.len() == 0,
{
    if ks.len() > 0 {
        assert(post_raw.dom().contains(ks[0]));
        assert(!post_raw.dom().contains(ks[0]));
    }
}

/// Durability: a log whose operations all returned successfully is
/// `synced`, so the bytes that survive an immediate crash are exactly the
/// bytes a read sees — reopening after the crash yields the same entries.
pub proof fn lemma_durable_view(l: RaftLog)
    requires
        l.synced(),
    ensures
        log_view(l.raw_durable()) == l@,
{
}

} // verus!
