//! A verified metadata log layer: a durable, ordered store for the records
//! of a replicated log, the node that gates writes on leadership, and the
//! service boundary that checks inbound envelopes.

pub mod codec;
pub mod errors;
pub mod laws;
pub mod node;
pub mod raft_log;
pub mod service;
pub mod state_machine;
pub mod store;

use vstd::prelude::*;

verus! {

/// Computes whether `acks` acknowledgements form a majority of a cluster
/// of `cluster_size` members.
pub fn has_quorum(acks: u64, cluster_size: u64) -> (r: bool)
    requires
        cluster_size < 0x8000_0000_0000_0000,
        acks <= cluster_size,
    ensures
        r == (2 * acks > cluster_size),
{
    2 * acks > cluster_size
}

} // verus!
