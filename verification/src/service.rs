use vstd::prelude::*;

use crate::codec::decode_cmd;
use crate::codec::encode_entry;
use crate::codec::spec_decode_cmd;
use crate::codec::spec_encode_entry;
use crate::codec::EntryView;
use crate::errors::MetaError;
use crate::node::MetaNode;
use crate::node::NodeRole;

verus! {

/// The wire envelope for consensus calls: a serialized payload and an
/// error string (empty on success). Transient, built per call.
#[derive(Debug)]
pub struct RaftMes {
    pub data: Vec<u8>,
    pub error: Vec<u8>,
}

/// An application read request.
pub struct GetReq {
    pub key: Vec<u8>,
}

/// An application read reply. `ok` says whether the key was found; a found
/// key with an empty value is distinct from an absent key, whose reply
/// carries `ok == false` and an empty value.
pub struct GetReply {
    pub ok: bool,
    pub key: Vec<u8>,
    pub value: Vec<u8>,
}

/// Whether the bytes are one well-formed JSON document.
pub uninterp spec fn json_parse_ok(s: Seq<u8>) -> bool;

/// Relies on serde_json::from_slice::<serde_json::Value>: it succeeds
/// exactly on the byte strings that are a well-formed JSON document, a
/// function of the bytes alone.
#[verifier::external_body]
fn json_syntax_ok(data: &Vec<u8>) -> (r: bool)
    ensures
        r == json_parse_ok(data@),
{
    serde_json::from_slice::<serde_json::Value>(data.as_slice()).is_ok()
}

/// The service boundary: adapts inbound wire envelopes to the node,
/// checks embedded payloads, and reports every failure as an error rather
/// than swallowing it. The network transport itself lives outside.
pub struct MetaServiceImpl {
    pub meta_node: MetaNode,
}

impl MetaServiceImpl {
    pub fn create(meta_node: MetaNode) -> (r: Self)
        ensures
            r.meta_node == meta_node,
    {
        Self { meta_node }
    }

    /// Handles a write request. The envelope's data must decode to a
    /// command, and this node must be leader, or an error is returned and
    /// nothing changes. On success the reply carries the appended entry,
    /// encoded, and an empty error.
    pub fn write(&mut self, request: RaftMes) -> (r: Result<RaftMes, MetaError>)
        requires
            old(self).meta_node.wf(),
        ensures
            final(self).meta_node.wf(),
            spec_decode_cmd(request.data@) is None ==> r == Err::<RaftMes, MetaError>(
                MetaError::SerializationFailure,
            ) && *final(self) == *old(self),
            spec_decode_cmd(request.data@) is Some && old(self).meta_node.role
                != NodeRole::Leader ==> r == Err::<RaftMes, MetaError>(MetaError::NotLeader)
                && *final(self) == *old(self),
            r matches Ok(m) ==> old(self).meta_node.role == NodeRole::Leader && (
            spec_decode_cmd(request.data@) matches Some(cmd) && {
                let e = EntryView {
                    term: old(self).meta_node.current_term,
                    index: (old(self).meta_node.last_log_index + 1) as u64,
                    payload: cmd,
                };
                m.data@ == spec_encode_entry(e) && m.error@ == Seq::<u8>::empty() && final(self).meta_node.log@ == old(self).meta_node.log@.insert(e.index, e) && final(self).meta_node.log.synced() && old(self).meta_node.last_log_index < u64::MAX
            }),
            spec_decode_cmd(request.data@) is Some && old(self).meta_node.role
                == NodeRole::Leader && old(self).meta_node.last_log_index == u64::MAX ==> r
                == Err::<RaftMes, MetaError>(MetaError::ConsensusRejected) && *final(self)
                == *old(self),
            r == Err::<RaftMes, MetaError>(MetaError::NotLeader) ==> old(self).meta_node.role
                != NodeRole::Leader,
            r == Err::<RaftMes, MetaError>(MetaError::SerializationFailure) ==> spec_decode_cmd(
                request.data@,
            ) is None,
            r == Err::<RaftMes, MetaError>(MetaError::ConsensusRejected) ==> old(self).meta_node.role == NodeRole::Leader && old(self).meta_node.last_log_index
                == u64::MAX,
            r == Err::<RaftMes, MetaError>(MetaError::StorageFailure) ==> old(self).meta_node.role == NodeRole::Leader && old(self).meta_node.last_log_index
                < u64::MAX,
            r matches Err(er) ==> er == MetaError::SerializationFailure || er
                == MetaError::NotLeader || er == MetaError::StorageFailure || er
                == MetaError::ConsensusRejected,
    {
        let cmd = match decode_cmd(&request.data) {
            Some(c) => c,
            None => {
                return Err(MetaError::SerializationFailure);
            },
        };
        match self.meta_node.write_to_local_leader(cmd) {
            Ok(e) => {
                let data = encode_entry(&e);
                Ok(RaftMes { data, error: Vec::new() })
            },
            Err(er) => Err(er),
        }
    }

    /// Handles a read request. Absence of the key is a normal, successful
    /// outcome: the reply's `ok` flag is false and its value empty, never
    /// an error.
    pub fn get(&self, request: GetReq) -> (r: GetReply)
        ensures
            r.key@ == request.key@,
            r.ok == self.meta_node.sm@.dom().contains(request.key@),
            r.ok ==> r.value@ == self.meta_node.sm@[request.key@],
            !r.ok ==> r.value@ == Seq::<u8>::empty(),
    {
        match self.meta_node.get_file(&request.key) {
            Some(v) => GetReply { ok: true, key: request.key, value: v },
            None => GetReply { ok: false, key: request.key, value: Vec::new() },
        }
    }

    /// Checks the embedded serialized consensus payload of an inbound
    /// envelope: a payload that does not decode is reported as a
    /// serialization failure — never silently swallowed — and nothing is
    /// forwarded or applied. A well-formed payload is forwarded verbatim
    /// to the consensus engine by the surrounding transport.
    pub fn check_raft_payload(&self, request: &RaftMes) -> (r: Result<(), MetaError>)
        ensures
            r is Ok <==> json_parse_ok(request.data@),
            r matches Err(er) ==> er == MetaError::SerializationFailure,
    {
        if json_syntax_ok(&request.data) {
            Ok(())
        } else {
            Err(MetaError::SerializationFailure)
        }
    }

    /// Validates an inbound append-entries envelope before the engine sees
    /// it. An undecodable payload yields an error and no entry is applied:
    /// this method touches no state.
    pub fn append_entries(&self, request: &RaftMes) -> (r: Result<(), MetaError>)
        ensures
            r is Ok <==> json_parse_ok(request.data@),
            r matches Err(er) ==> er == MetaError::SerializationFailure,
    {
        self.check_raft_payload(request)
    }

    /// Validates an inbound install-snapshot envelope; as `append_entries`.
    pub fn install_snapshot(&self, request: &RaftMes) -> (r: Result<(), MetaError>)
        ensures
            r is Ok <==> json_parse_ok(request.data@),
            r matches Err(er) ==> er == MetaError::SerializationFailure,
    {
        self.check_raft_payload(request)
    }

    /// Validates an inbound vote envelope; as `append_entries`.
    pub fn vote(&self, request: &RaftMes) -> (r: Result<(), MetaError>)
        ensures
            r is Ok <==> json_parse_ok(request.data@),
            r matches Err(er) ==> er == MetaError::SerializationFailure,
    {
        self.check_raft_payload(request)
    }
}

/// Builds the success envelope around an engine response payload: the
/// payload as data, an empty error.
pub fn raft_reply(data: Vec<u8>) -> (r: RaftMes)
    ensures
        r.data@ == data@,
        r.error@ == Seq::<u8>::empty(),
{
    RaftMes { data, error: Vec::new() }
}

} // verus!
