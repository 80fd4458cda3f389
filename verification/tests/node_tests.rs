use metalog::codec::encode_cmd;
use metalog::codec::LogEntry;
use metalog::errors::MetaError;
use metalog::has_quorum;
use metalog::node::MetaNode;
use metalog::node::NodeRole;
use metalog::node::RaftEvent;
use metalog::node::step_role;
use metalog::raft_log::RaftLog;
use metalog::service::GetReq;
use metalog::service::MetaServiceImpl;
use metalog::service::RaftMes;

fn temp_node(sid: u64, cluster_size: u64) -> MetaNode {
    let db = sled::Config::new().temporary(true).open().expect("open temporary store");
    let log = RaftLog::open(&db).unwrap();
    MetaNode::boot(sid, cluster_size, log).unwrap()
}

fn cmd(key: &[u8], value: &[u8]) -> LogEntry {
    LogEntry { key: key.to_vec(), value: value.to_vec() }
}

fn make_leader(n: &mut MetaNode) {
    n.handle_event(RaftEvent::ElectionTimeout);
    n.handle_event(RaftEvent::WonElection);
    assert_eq!(n.role, NodeRole::Leader);
}

#[test]
fn quorum_thresholds() {
    assert!(!has_quorum(0, 3));
    assert!(!has_quorum(1, 3));
    assert!(has_quorum(2, 3));
    assert!(has_quorum(3, 3));
    assert!(!has_quorum(2, 4));
    assert!(has_quorum(3, 4));
    assert!(has_quorum(1, 1));
}

#[test]
fn role_transitions() {
    assert_eq!(step_role(NodeRole::Follower, 0, RaftEvent::ElectionTimeout), (NodeRole::Candidate, 1));
    assert_eq!(step_role(NodeRole::Candidate, 1, RaftEvent::WonElection), (NodeRole::Leader, 1));
    assert_eq!(step_role(NodeRole::Follower, 1, RaftEvent::WonElection), (NodeRole::Follower, 1));
    assert_eq!(step_role(NodeRole::Leader, 1, RaftEvent::ObservedTerm(5)), (NodeRole::Follower, 5));
    assert_eq!(step_role(NodeRole::Leader, 5, RaftEvent::ObservedTerm(4)), (NodeRole::Leader, 5));
}

#[test]
fn leader_gating_rejects_and_persists_nothing() {
    let mut n = temp_node(1, 3);
    assert_eq!(n.role, NodeRole::Follower);
    let r = n.write_to_local_leader(cmd(b"k", b"v"));
    assert_eq!(r.unwrap_err(), MetaError::NotLeader);
    // nothing was persisted
    assert!(n.log.get(1).unwrap().is_none());
    assert!(n.log.last().unwrap().is_none());
    assert_eq!(n.last_log_index, 0);

    // a candidate is not a leader either
    n.handle_event(RaftEvent::ElectionTimeout);
    assert_eq!(n.role, NodeRole::Candidate);
    let r = n.write_to_local_leader(cmd(b"k", b"v"));
    assert_eq!(r.unwrap_err(), MetaError::NotLeader);
    assert!(n.log.last().unwrap().is_none());
}

#[test]
fn leader_write_appends_durably() {
    let mut n = temp_node(1, 3);
    make_leader(&mut n);
    let e = n.write_to_local_leader(cmd(b"k", b"v")).unwrap();
    assert_eq!(e.index, 1);
    assert_eq!(e.term, n.current_term);
    let got = n.log.get(1).unwrap().expect("present");
    assert_eq!(got.payload.key, b"k".to_vec());
    assert_eq!(got.payload.value, b"v".to_vec());
}

#[test]
fn exhausted_index_space_is_rejected() {
    let mut n = temp_node(1, 3);
    make_leader(&mut n);
    n.last_log_index = u64::MAX;
    let r = n.write_to_local_leader(cmd(b"k", b"v"));
    assert_eq!(r.unwrap_err(), MetaError::ConsensusRejected);
}

#[test]
fn end_to_end_three_nodes() {
    let mut a = temp_node(1, 3);
    let mut b = temp_node(2, 3);
    let mut c = temp_node(3, 3);

    // node A becomes leader
    make_leader(&mut a);

    // the client writes X on A; A appends durably
    let x = a.write_to_local_leader(cmd(b"file", b"contents")).unwrap();
    assert_eq!(x.index, 1);

    // the engine replicates X to B and C, which append durably
    b.follower_append(&x).unwrap();
    c.follower_append(&x).unwrap();
    assert!(b.log.contains_key(1).unwrap());
    assert!(c.log.contains_key(1).unwrap());

    // 3 of 3 acknowledged (2 of 3 would already be a quorum): the commit
    // index advances on all three, and each applies the entry
    for n in [&mut a, &mut b, &mut c] {
        assert!(n.advance_commit(1, 3));
        n.apply_committed().unwrap();
        assert_eq!(n.last_applied, 1);
        // a read of the key X wrote returns X's value on any node
        assert_eq!(n.get_file(&b"file".to_vec()), Some(b"contents".to_vec()));
    }
}

#[test]
fn partitioned_leader_cannot_commit() {
    let mut a = temp_node(1, 3);
    make_leader(&mut a);

    // A accepts the write locally, but is isolated from B and C:
    // only its own acknowledgement arrives
    let x = a.write_to_local_leader(cmd(b"file", b"contents")).unwrap();
    assert_eq!(x.index, 1);
    assert!(!a.advance_commit(1, 1));
    assert_eq!(a.commit_index, 0);
    a.apply_committed().unwrap();
    // nothing is committed or applied, so reads do not see the write
    assert_eq!(a.get_file(&b"file".to_vec()), None);

    // connectivity restored: a quorum acknowledges, the write commits
    assert!(a.advance_commit(1, 3));
    a.apply_committed().unwrap();
    assert_eq!(a.get_file(&b"file".to_vec()), Some(b"contents".to_vec()));
}

#[test]
fn commit_index_is_monotonic() {
    let mut a = temp_node(1, 3);
    make_leader(&mut a);
    for _ in 0..3 {
        a.write_to_local_leader(cmd(b"k", b"v")).unwrap();
    }
    assert!(a.advance_commit(3, 2));
    assert_eq!(a.commit_index, 3);
    // an older, smaller commit point is refused
    assert!(!a.advance_commit(2, 3));
    assert_eq!(a.commit_index, 3);
    // a commit point beyond the local log is refused
    assert!(!a.advance_commit(9, 3));
    assert_eq!(a.commit_index, 3);
}

#[test]
fn overwrite_applies_latest_binding() {
    let mut a = temp_node(1, 1);
    make_leader(&mut a);
    a.write_to_local_leader(cmd(b"k", b"first")).unwrap();
    a.write_to_local_leader(cmd(b"k", b"second")).unwrap();
    assert!(a.advance_commit(2, 1));
    a.apply_committed().unwrap();
    assert_eq!(a.get_file(&b"k".to_vec()), Some(b"second".to_vec()));
}

#[test]
fn service_write_and_get() {
    let mut n = temp_node(1, 1);
    make_leader(&mut n);
    let mut svc = MetaServiceImpl::create(n);

    let req = RaftMes { data: encode_cmd(&cmd(b"file", b"payload")), error: Vec::new() };
    let reply = svc.write(req).unwrap();
    assert!(reply.error.is_empty());
    assert!(!reply.data.is_empty());

    // commit and apply, then read through the service
    assert!(svc.meta_node.advance_commit(1, 1));
    svc.meta_node.apply_committed().unwrap();
    let got = svc.get(GetReq { key: b"file".to_vec() });
    assert!(got.ok);
    assert_eq!(got.key, b"file".to_vec());
    assert_eq!(got.value, b"payload".to_vec());
}

#[test]
fn not_found_is_distinct_from_empty_value() {
    let mut n = temp_node(1, 1);
    make_leader(&mut n);
    let mut svc = MetaServiceImpl::create(n);

    // bind a key to the empty value
    let req = RaftMes { data: encode_cmd(&cmd(b"empty", b"")), error: Vec::new() };
    svc.write(req).unwrap();
    assert!(svc.meta_node.advance_commit(1, 1));
    svc.meta_node.apply_committed().unwrap();

    let found = svc.get(GetReq { key: b"empty".to_vec() });
    assert!(found.ok);
    assert!(found.value.is_empty());

    let absent = svc.get(GetReq { key: b"missing".to_vec() });
    assert!(!absent.ok);
    assert!(absent.value.is_empty());
}

#[test]
fn write_on_non_leader_through_service() {
    let n = temp_node(1, 3);
    let mut svc = MetaServiceImpl::create(n);
    let req = RaftMes { data: encode_cmd(&cmd(b"k", b"v")), error: Vec::new() };
    assert_eq!(svc.write(req).unwrap_err(), MetaError::NotLeader);
    assert!(svc.meta_node.log.last().unwrap().is_none());
}

#[test]
fn undecodable_write_payload_is_rejected() {
    let mut n = temp_node(1, 1);
    make_leader(&mut n);
    let mut svc = MetaServiceImpl::create(n);
    let req = RaftMes { data: b"xyz".to_vec(), error: Vec::new() };
    assert_eq!(svc.write(req).unwrap_err(), MetaError::SerializationFailure);
    assert!(svc.meta_node.log.last().unwrap().is_none());
}

#[test]
fn malformed_raft_payload_is_a_transport_error() {
    let n = temp_node(1, 3);
    let svc = MetaServiceImpl::create(n);

    let bad = RaftMes { data: b"not json".to_vec(), error: Vec::new() };
    assert_eq!(svc.append_entries(&bad).unwrap_err(), MetaError::SerializationFailure);
    assert_eq!(svc.vote(&bad).unwrap_err(), MetaError::SerializationFailure);
    assert_eq!(svc.install_snapshot(&bad).unwrap_err(), MetaError::SerializationFailure);
    // and no entry was applied
    assert!(svc.meta_node.log.last().unwrap().is_none());
    assert_eq!(svc.meta_node.last_applied, 0);

    let good = RaftMes { data: b"{\"term\": 1, \"entries\": []}".to_vec(), error: Vec::new() };
    assert!(svc.append_entries(&good).is_ok());
    assert!(svc.vote(&good).is_ok());
    assert!(svc.install_snapshot(&good).is_ok());
}
