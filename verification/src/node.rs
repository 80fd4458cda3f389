use vstd::prelude::*;

use crate::codec::Entry;
use crate::codec::EntryView;
use crate::codec::LogEntry;
use crate::errors::MetaError;
use crate::raft_log::RaftLog;
use crate::state_machine::StateMachine;

verus! {

/// The roles a node can hold in the consensus protocol. Only a leader may
/// accept new writes.
#[derive(Clone, Copy, Debug, PartialEq, Eq, Structural)]
pub enum NodeRole {
    Follower,
    Candidate,
    Leader,
}

/// The observable events that drive role transitions.
#[derive(Clone, Copy, Debug, PartialEq, Eq, Structural)]
pub enum RaftEvent {
    /// No heartbeat arrived in time: stand for election.
    ElectionTimeout,
    /// A majority of votes arrived while standing.
    WonElection,
    /// A message from a peer carried this (possibly higher) term.
    ObservedTerm(u64),
}

/// The role transition function: what a node becomes when an event
/// arrives. An election timeout makes a candidate of a follower or
/// candidate (raising the term); winning an election makes a leader only
/// of a candidate; seeing a higher term makes a follower of anyone.
pub fn step_role(role: NodeRole, term: u64, ev: RaftEvent) -> (r: (NodeRole, u64))
    ensures
        ev == RaftEvent::ElectionTimeout ==> r.0 == NodeRole::Candidate && r.1 == (
        if term < u64::MAX {
            (term + 1) as u64
        } else {
            term
        }),
        ev == RaftEvent::WonElection ==> r.1 == term && r.0 == (
        if role == NodeRole::Candidate {
            NodeRole::Leader
        } else {
            role
        }),
        ev matches RaftEvent::ObservedTerm(t) ==> r == (
        if t > term {
            (NodeRole::Follower, t)
        } else {
            (role, term)
        }),
{
    match ev {
        RaftEvent::ElectionTimeout => {
            if term < u64::MAX {
                (NodeRole::Candidate, term + 1)
            } else {
                (NodeRole::Candidate, term)
            }
        },
        RaftEvent::WonElection => {
            if role == NodeRole::Candidate {
                (NodeRole::Leader, term)
            } else {
                (role, term)
            }
        },
        RaftEvent::ObservedTerm(t) => {
            if t > term {
                (NodeRole::Follower, t)
            } else {
                (role, term)
            }
        },
    }
}

/// The application state after applying the log's entries at the indexes
/// `lo..=hi`, in increasing index order, to `sm`.
pub open spec fn apply_range(
    sm: Map<Seq<u8>, Seq<u8>>,
    log: Map<u64, EntryView>,
    lo: int,
    hi: int,
) -> Map<Seq<u8>, Seq<u8>>
    decreases hi + 1 - lo,
{
    if lo > hi {
        sm
    } else {
        apply_range(
            sm.insert(log[lo as u64].payload.key, log[lo as u64].payload.value),
            log,
            lo + 1,
            hi,
        )
    }
}

/// Applying one more index extends the applied state by that entry's
/// binding.
pub proof fn lemma_apply_range_snoc(
    sm: Map<Seq<u8>, Seq<u8>>,
    log: Map<u64, EntryView>,
    lo: int,
    hi: int,
)
    requires
        0 <= lo <= hi <= u64::MAX,
    ensures
        apply_range(sm, log, lo, hi) == apply_range(sm, log, lo, hi - 1).insert(
            log[hi as u64].payload.key,
            log[hi as u64].payload.value,
        ),
    decreases hi + 1 - lo,
{
    let sm1 = sm.insert(log[lo as u64].payload.key, log[lo as u64].payload.value);
    if lo < hi {
        lemma_apply_range_snoc(sm1, log, lo + 1, hi);
    } else {
        assert(apply_range(sm, log, lo, hi) == apply_range(sm1, log, lo + 1, hi));
        assert(apply_range(sm1, log, lo + 1, hi) == sm1);
        assert(apply_range(sm, log, lo, hi - 1) == sm);
    }
}

/// The per-process owner of the consensus state this library can see: the
/// durable log, the applied state, the node's role and term, and the
/// commit bookkeeping. The election and replication algorithm itself is an
/// external collaborator; this node carries out its storage-side and
/// gating-side decisions.
pub struct MetaNode {
    pub sid: u64,
    pub cluster_size: u64,
    pub role: NodeRole,
    pub current_term: u64,
    pub last_log_index: u64,
    pub commit_index: u64,
    pub last_applied: u64,
    pub log: RaftLog,
    pub sm: StateMachine,
}

impl MetaNode {
    /// Basic bookkeeping consistency: nothing is applied beyond the commit
    /// index, and the cluster has a sane size.
    pub open spec fn wf(self) -> bool {
        self.last_applied <= self.commit_index && 1 <= self.cluster_size
            < 0x8000_0000_0000_0000
    }

    /// Starts a node as a follower over an existing (possibly empty)
    /// durable log, resuming after the log's greatest index.
    pub fn boot(sid: u64, cluster_size: u64, log: RaftLog) -> (r: Result<MetaNode, MetaError>)
        requires
            1 <= cluster_size < 0x8000_0000_0000_0000,
        ensures
            r matches Ok(n) ==> n.wf() && n.role == NodeRole::Follower && n.current_term == 0
                && n.commit_index == 0 && n.last_applied == 0 && n.sm@ == Map::<
                Seq<u8>,
                Seq<u8>,
            >::empty() && n.log == log && n.sid == sid && n.cluster_size == cluster_size && (
            forall|k: u64| n.log.raw().dom().contains(k) ==> k <= n.last_log_index),
            r matches Err(er) ==> er == MetaError::StorageFailure || er
                == MetaError::SerializationFailure,
    {
        let last: u64 = match log.last() {
            Ok(Some((k, _))) => k,
            Ok(None) => 0,
            Err(er) => {
                return Err(er);
            },
        };
        Ok(
            MetaNode {
                sid,
                cluster_size,
                role: NodeRole::Follower,
                current_term: 0,
                last_log_index: last,
                commit_index: 0,
                last_applied: 0,
                log,
                sm: StateMachine::new(),
            },
        )
    }

    /// Feeds one consensus event into the node's role state. Only the role
    /// and the term change.
    pub fn handle_event(&mut self, ev: RaftEvent)
        ensures
            (final(self).role, final(self).current_term) == crate::node::spec_step(
                old(self).role,
                old(self).current_term,
                ev,
            ),
            final(self).sid == old(self).sid && final(self).cluster_size == old(self).cluster_size && final(self).last_log_index == old(self).last_log_index && final(self).commit_index == old(self).commit_index && final(self).last_applied == old(self).last_applied && final(self).log == old(self).log && final(self).sm == old(self).sm,
    {
        let (role, term) = step_role(self.role, self.current_term, ev);
        self.role = role;
        self.current_term = term;
    }

    /// A write, accepted only on the leader. On a non-leader it fails with
    /// `NotLeader` — and with nothing else — and changes nothing, so the
    /// entry is never persisted there. On the leader it makes the entry
    /// durable at the next index of the local log and returns it, to be
    /// replicated; commit waits for a quorum of acknowledgements.
    pub fn write_to_local_leader(&mut self, cmd: LogEntry) -> (r: Result<Entry, MetaError>)
        requires
            old(self).wf(),
        ensures
            final(self).wf(),
            (r == Err::<Entry, MetaError>(MetaError::NotLeader)) <==> old(self).role
                != NodeRole::Leader,
            old(self).role != NodeRole::Leader ==> *final(self) == *old(self),
            old(self).role == NodeRole::Leader && old(self).last_log_index == u64::MAX ==> r
                == Err::<Entry, MetaError>(MetaError::ConsensusRejected) && *final(self) == *old(self),
            r matches Ok(e) ==> old(self).role == NodeRole::Leader && e.term == old(self).current_term && e.index == old(self).last_log_index + 1 && e@.payload == cmd@
                && final(self).log@ == old(self).log@.insert(e.index, e@) && final(self).log.synced() && final(self).last_log_index == e.index,
            r is Err ==> final(self).role == old(self).role && final(self).current_term == old(self).current_term && final(self).commit_index == old(self).commit_index && final(self).last_applied == old(self).last_applied && final(self).last_log_index == old(self).last_log_index && final(self).sm == old(self).sm && final(self).sid == old(self).sid
                && final(self).cluster_size == old(self).cluster_size,
            r matches Err(er) ==> er == MetaError::NotLeader || er == MetaError::StorageFailure
                || er == MetaError::ConsensusRejected,
            r == Err::<Entry, MetaError>(MetaError::ConsensusRejected) ==> old(self).role
                == NodeRole::Leader && old(self).last_log_index == u64::MAX,
            r == Err::<Entry, MetaError>(MetaError::StorageFailure) ==> old(self).role
                == NodeRole::Leader && old(self).last_log_index < u64::MAX,
            final(self).role == old(self).role && final(self).current_term == old(self).current_term && final(self).commit_index == old(self).commit_index && final(self).last_applied == old(self).last_applied && final(self).sm == old(self).sm,
    {
        if self.role != NodeRole::Leader {
            return Err(MetaError::NotLeader);
        }
        if self.last_log_index == u64::MAX {
            return Err(MetaError::ConsensusRejected);
        }
        let index = self.last_log_index + 1;
        let entry = Entry { term: self.current_term, index, payload: cmd };
        match self.log.insert(&entry) {
            Ok(_) => {
                self.last_log_index = index;
                Ok(entry)
            },
            Err(er) => Err(er),
        }
    }

    /// The storage-side action of an inbound append-entries call on a
    /// follower: makes the entry durable at its own index (overwriting any
    /// stale entry there) and keeps the local last-index bookkeeping.
    pub fn follower_append(&mut self, e: &Entry) -> (r: Result<(), MetaError>)
        requires
            old(self).wf(),
        ensures
            final(self).wf(),
            r is Ok ==> final(self).log@ == old(self).log@.insert(e.index, e@) && final(self).log.synced() && final(self).last_log_index == (
            if e.index > old(self).last_log_index {
                e.index
            } else {
                old(self).last_log_index
            }),
            r matches Err(er) ==> er == MetaError::StorageFailure,
            final(self).role == old(self).role && final(self).current_term == old(self).current_term && final(self).commit_index == old(self).commit_index && final(self).last_applied == old(self).last_applied && final(self).sm == old(self).sm && final(self).sid == old(self).sid && final(self).cluster_size == old(self).cluster_size,
    {
        match self.log.insert(e) {
            Ok(_) => {
                if e.index > self.last_log_index {
                    self.last_log_index = e.index;
                }
                Ok(())
            },
            Err(er) => Err(er),
        }
    }

    /// Advances the commit index to `index`, but only when `acks` members
    /// — a quorum — have durably acknowledged it, it lies within the local
    /// log, and it moves the commit index forward. The commit index never
    /// moves backwards.
    pub fn advance_commit(&mut self, index: u64, acks: u64) -> (r: bool)
        requires
            old(self).wf(),
            acks <= old(self).cluster_size,
        ensures
            final(self).wf(),
            r == (2 * acks > old(self).cluster_size && old(self).commit_index < index && index
                <= old(self).last_log_index),
            r ==> final(self).commit_index == index,
            !r ==> final(self).commit_index == old(self).commit_index,
            final(self).commit_index >= old(self).commit_index,
            final(self).role == old(self).role && final(self).current_term == old(self).current_term && final(self).last_applied == old(self).last_applied && final(self).last_log_index == old(self).last_log_index && final(self).log == old(self).log
                && final(self).sm == old(self).sm && final(self).sid == old(self).sid && final(self).cluster_size == old(self).cluster_size,
    {
        let q = crate::has_quorum(acks, self.cluster_size);
        if q && self.commit_index < index && index <= self.last_log_index {
            self.commit_index = index;
            true
        } else {
            false
        }
    }

    /// Applies the committed but not yet applied entries to the state
    /// machine, strictly in increasing index order. A missing or
    /// undecodable entry stops the application at the last sound point and
    /// is reported; what was applied up to there stays applied.
    pub fn apply_committed(&mut self) -> (r: Result<(), MetaError>)
        requires
            old(self).wf(),
        ensures
            final(self).wf(),
            final(self).role == old(self).role && final(self).current_term == old(self).current_term && final(self).commit_index == old(self).commit_index && final(self).last_log_index == old(self).last_log_index && final(self).log == old(self).log
                && final(self).sid == old(self).sid && final(self).cluster_size == old(self).cluster_size,
            final(self).sm@ == apply_range(
                old(self).sm@,
                old(self).log@,
                old(self).last_applied as int + 1,
                final(self).last_applied as int,
            ),
            final(self).last_applied >= old(self).last_applied,
            old(self).last_applied == old(self).commit_index ==> r is Ok,
            r is Ok ==> final(self).last_applied == old(self).commit_index,
            r matches Err(er) ==> er == MetaError::StorageFailure || er
                == MetaError::SerializationFailure,
    {
        while self.last_applied < self.commit_index
            invariant
                self.wf(),
                self.role == old(self).role,
                self.current_term == old(self).current_term,
                self.commit_index == old(self).commit_index,
                self.last_log_index == old(self).last_log_index,
                self.log == old(self).log,
                self.sid == old(self).sid,
                self.cluster_size == old(self).cluster_size,
                self.last_applied >= old(self).last_applied,
                self.sm@ == apply_range(
                    old(self).sm@,
                    old(self).log@,
                    old(self).last_applied as int + 1,
                    self.last_applied as int,
                ),
            decreases self.commit_index - self.last_applied,
        {
            let next = self.last_applied + 1;
            match self.log.get(next) {
                Ok(Some(e)) => {
                    proof {
                        lemma_apply_range_snoc(
                            old(self).sm@,
                            old(self).log@,
                            old(self).last_applied as int + 1,
                            next as int,
                        );
                    }
                    self.sm.apply_set(e.payload.key, e.payload.value);
                    self.last_applied = next;
                },
                Ok(None) => {
                    return Err(MetaError::StorageFailure);
                },
                Err(er) => {
                    return Err(er);
                },
            }
        }
        Ok(())
    }

    /// Serves a read from the applied state. Absence of the key is a
    /// normal outcome, distinct from a key bound to the empty value.
    pub fn get_file(&self, key: &Vec<u8>) -> (r: Option<Vec<u8>>)
        ensures
            r matches Some(v) ==> self.sm@.dom().contains(key@) && v@ == self.sm@[key@],
            r is None ==> !self.sm@.dom().contains(key@),
    {
        self.sm.get(key)
    }
}

/// What `step_role` computes, as a spec-level function of its inputs.
pub open spec fn spec_step(role: NodeRole, term: u64, ev: RaftEvent) -> (NodeRole, u64) {
    match ev {
        RaftEvent::ElectionTimeout => (
            NodeRole::Candidate,
            if term < u64::MAX {
                (term + 1) as u64
            } else {
                term
            },
        ),
        RaftEvent::WonElection => (
            if role == NodeRole::Candidate {
                NodeRole::Leader
            } else {
                role
            },
            term,
        ),
        RaftEvent::ObservedTerm(t) => if t > term {
            (NodeRole::Follower, t)
        } else {
            (role, term)
        },
    }
}

} // verus!
