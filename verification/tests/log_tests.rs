use metalog::codec::decode_cmd;
use metalog::codec::decode_entry;
use metalog::codec::encode_cmd;
use metalog::codec::encode_entry;
use metalog::codec::Entry;
use metalog::codec::LogEntry;
use metalog::errors::MetaError;
use metalog::raft_log::KeyBound;
use metalog::raft_log::KeyRange;
use metalog::raft_log::RaftLog;

fn temp_db() -> sled::Db {
    sled::Config::new().temporary(true).open().expect("open temporary store")
}

fn entry(term: u64, index: u64, key: &[u8], value: &[u8]) -> Entry {
    Entry { term, index, payload: LogEntry { key: key.to_vec(), value: value.to_vec() } }
}

fn assert_entry_eq(a: &Entry, b: &Entry) {
    assert_eq!(a.term, b.term);
    assert_eq!(a.index, b.index);
    assert_eq!(a.payload.key, b.payload.key);
    assert_eq!(a.payload.value, b.payload.value);
}

#[test]
fn encode_entry_exact_bytes() {
    let e = entry(1, 2, b"a", b"b");
    let bytes = encode_entry(&e);
    let expected: Vec<u8> = vec![
        0, 0, 0, 0, 0, 0, 0, 1, // term
        0, 0, 0, 0, 0, 0, 0, 2, // index
        0, 0, 0, 0, 0, 0, 0, 1, // key length
        0x61, // key
        0x62, // value
    ];
    assert_eq!(bytes, expected);
}

#[test]
fn decode_rejects_malformed() {
    assert!(decode_entry(&vec![0u8; 10]).is_none());
    assert!(decode_cmd(&vec![0u8; 3]).is_none());
    // key length claims more bytes than are present
    let mut bad: Vec<u8> = vec![0, 0, 0, 0, 0, 0, 0, 9];
    bad.push(0x61);
    assert!(decode_cmd(&bad).is_none());
}

#[test]
fn codec_round_trip_through_bytes() {
    let e = entry(7, 9, b"some key", b"");
    let bytes = encode_entry(&e);
    let back = decode_entry(&bytes).expect("decodes");
    assert_entry_eq(&e, &back);
    let c = LogEntry { key: b"k".to_vec(), value: b"v".to_vec() };
    let cb = encode_cmd(&c);
    let cback = decode_cmd(&cb).expect("decodes");
    assert_eq!(cback.key, c.key);
    assert_eq!(cback.value, c.value);
}

#[test]
fn insert_get_round_trip() {
    let db = temp_db();
    let mut log = RaftLog::open(&db).unwrap();
    let e = entry(1, 5, b"k5", b"v5");
    let prev = log.insert(&e).unwrap();
    assert!(prev.is_none());
    let got = log.get(5).unwrap().expect("present");
    assert_entry_eq(&e, &got);
    assert!(log.get(4).unwrap().is_none());
}

#[test]
fn overwrite_returns_previous() {
    let db = temp_db();
    let mut log = RaftLog::open(&db).unwrap();
    let first = entry(1, 3, b"k", b"old");
    let second = entry(2, 3, b"k", b"new");
    assert!(log.insert(&first).unwrap().is_none());
    let prev = log.insert(&second).unwrap().expect("previous entry");
    assert_entry_eq(&prev, &first);
    let got = log.get(3).unwrap().expect("present");
    assert_entry_eq(&got, &second);
}

#[test]
fn contains_key_reports_presence() {
    let db = temp_db();
    let mut log = RaftLog::open(&db).unwrap();
    assert!(!log.contains_key(1).unwrap());
    log.insert(&entry(1, 1, b"k", b"v")).unwrap();
    assert!(log.contains_key(1).unwrap());
    assert!(!log.contains_key(2).unwrap());
}

#[test]
fn last_returns_greatest_index() {
    let db = temp_db();
    let mut log = RaftLog::open(&db).unwrap();
    assert!(log.last().unwrap().is_none());
    log.insert(&entry(1, 2, b"b", b"2")).unwrap();
    log.insert(&entry(1, 9, b"c", b"9")).unwrap();
    log.insert(&entry(1, 4, b"d", b"4")).unwrap();
    let (k, e) = log.last().unwrap().expect("nonempty");
    assert_eq!(k, 9);
    assert_eq!(e.index, 9);
    assert_eq!(e.payload.key, b"c".to_vec());
}

#[test]
fn append_bulk_and_read_back() {
    let db = temp_db();
    let mut log = RaftLog::open(&db).unwrap();
    let batch = vec![entry(1, 1, b"a", b"1"), entry(1, 2, b"b", b"2"), entry(1, 3, b"c", b"3")];
    log.append(&batch).unwrap();
    for e in &batch {
        let got = log.get(e.index).unwrap().expect("present");
        assert_entry_eq(e, &got);
    }
    let (k, _) = log.last().unwrap().expect("nonempty");
    assert_eq!(k, 3);
}

#[test]
fn range_keys_and_range_get_ordered() {
    let db = temp_db();
    let mut log = RaftLog::open(&db).unwrap();
    for i in [10u64, 20, 30, 40] {
        log.insert(&entry(1, i, b"k", b"v")).unwrap();
    }
    let r = KeyRange { lo: KeyBound::Included(15), hi: KeyBound::Excluded(40) };
    let keys = log.range_keys(&r).unwrap();
    assert_eq!(keys, vec![20, 30]);
    let entries = log.range_get(&r).unwrap();
    assert_eq!(entries.len(), 2);
    assert_eq!(entries[0].index, 20);
    assert_eq!(entries[1].index, 30);

    let unbounded = KeyRange { lo: KeyBound::Unbounded, hi: KeyBound::Unbounded };
    assert_eq!(log.range_keys(&unbounded).unwrap(), vec![10, 20, 30, 40]);

    let empty = KeyRange { lo: KeyBound::Excluded(30), hi: KeyBound::Included(25) };
    assert_eq!(log.range_keys(&empty).unwrap(), Vec::<u64>::new());
}

#[test]
fn range_delete_completeness() {
    let db = temp_db();
    let mut log = RaftLog::open(&db).unwrap();
    for i in 1u64..=6 {
        log.insert(&entry(1, i, b"k", b"v")).unwrap();
    }
    let r = KeyRange { lo: KeyBound::Included(2), hi: KeyBound::Included(4) };
    log.range_delete(&r).unwrap();
    // nothing of the range remains
    assert_eq!(log.range_keys(&r).unwrap(), Vec::<u64>::new());
    for i in 2u64..=4 {
        assert!(log.get(i).unwrap().is_none());
        assert!(!log.contains_key(i).unwrap());
    }
    // entries outside the range are unaffected
    for i in [1u64, 5, 6] {
        let got = log.get(i).unwrap().expect("present");
        assert_eq!(got.index, i);
    }
}

#[test]
fn durable_entries_survive_reopening() {
    let db = temp_db();
    {
        let mut log = RaftLog::open(&db).unwrap();
        log.insert(&entry(3, 1, b"k1", b"v1")).unwrap();
        log.append(&vec![entry(3, 2, b"k2", b"v2")]).unwrap();
    }
    // a second handle to the same partition sees exactly what was written
    let log2 = RaftLog::open(&db).unwrap();
    let a = log2.get(1).unwrap().expect("present");
    assert_eq!(a.payload.value, b"v1".to_vec());
    let b = log2.get(2).unwrap().expect("present");
    assert_eq!(b.payload.value, b"v2".to_vec());
    assert!(log2.get(3).unwrap().is_none());
}

#[test]
fn storage_error_values_are_distinct() {
    assert_ne!(MetaError::NotLeader, MetaError::StorageFailure);
    assert_ne!(MetaError::SerializationFailure, MetaError::ConsensusRejected);
    assert_eq!(MetaError::NotLeader.message(), "not leader");
    assert_eq!(MetaError::StorageFailure.message(), "storage failure");
}

#[test]
fn to_key_is_the_index() {
    let e = entry(4, 17, b"k", b"v");
    assert_eq!(e.to_key(), 17);
}

#[test]
fn append_last_writer_wins_on_same_index() {
    let db = temp_db();
    let mut log = RaftLog::open(&db).unwrap();
    let batch = vec![entry(1, 1, b"k", b"first"), entry(2, 1, b"k", b"second")];
    log.append(&batch).unwrap();
    let got = log.get(1).unwrap().expect("present");
    assert_eq!(got.term, 2);
    assert_eq!(got.payload.value, b"second".to_vec());
}
