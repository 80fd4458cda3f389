use vstd::prelude::*;

verus! {

/// The failures the metadata layer can report.
///
/// `KeyNotFound` is deliberately not here: absence of a key is a normal,
/// successful outcome, reported as `None` or as a reply whose `ok` flag is
/// false, never as an error.
#[derive(Clone, Copy, Debug, PartialEq, Eq, Structural)]
pub enum MetaError {
    /// A write was attempted on a node that is not the current leader.
    /// Recoverable: the caller should redirect to the leader and retry.
    NotLeader,
    /// The durable store failed (I/O error, corruption). Fatal to the
    /// affected operation; repeated occurrences threaten durability.
    StorageFailure,
    /// A payload failed to decode, or a stored value failed to decode
    /// back into an entry. Never silently swallowed.
    SerializationFailure,
    /// The consensus layer rejected the operation (for example, the log
    /// index space is exhausted).
    ConsensusRejected,
}

impl MetaError {
    /// The short human-readable cause of each failure, for transport
    /// status messages.
    pub open spec fn message_spec(&self) -> Seq<char> {
        match self {
            MetaError::NotLeader => "not leader"@,
            MetaError::StorageFailure => "storage failure"@,
            MetaError::SerializationFailure => "serialization failure"@,
            MetaError::ConsensusRejected => "consensus rejected"@,
        }
    }

    /// A short human-readable cause, for transport status messages.
    pub fn message(&self) -> (r: &'static str)
        ensures
            r@ == self.message_spec(),
    {
        match self {
            MetaError::NotLeader => "not leader",
            MetaError::StorageFailure => "storage failure",
            MetaError::SerializationFailure => "serialization failure",
            MetaError::ConsensusRejected => "consensus rejected",
        }
    }
}

} // verus!
