use vstd::prelude::*;

use crate::codec::decode_entry;
use crate::codec::encode_entry;
use crate::codec::lemma_entry_round_trip;
use crate::codec::spec_decode_entry;
use crate::codec::spec_encode_entry;
use crate::codec::Entry;
use crate::codec::EntryView;
use crate::errors::MetaError;
use crate::store::tree_durable;
use crate::store::tree_map;
use crate::store::StoreTree;

verus! {

/// One end of a key range: closed, open, or absent.
#[derive(Clone, Copy, Debug, PartialEq, Eq, Structural)]
pub enum KeyBound {
    Included(u64),
    Excluded(u64),
    Unbounded,
}

/// A range of log indexes, open, closed or unbounded on either side.
#[derive(Clone, Copy, Debug, PartialEq, Eq, Structural)]
pub struct KeyRange {
    pub lo: KeyBound,
    pub hi: KeyBound,
}

impl KeyRange {
    /// Whether `k` falls in this range.
    pub open spec fn contains_spec(self, k: u64) -> bool {
        (match self.lo {
            KeyBound::Included(x) => k >= x,
            KeyBound::Excluded(x) => k > x,
            KeyBound::Unbounded => true,
        }) && (match self.hi {
            KeyBound::Included(x) => k <= x,
            KeyBound::Excluded(x) => k < x,
            KeyBound::Unbounded => true,
        })
    }

    /// The range as a closed interval of keys, or `None` when it is empty.
    pub fn normalize(&self) -> (r: Option<(u64, u64)>)
        ensures
            r matches Some(p) ==> p.0 <= p.1 && forall|k: u64|
                self.contains_spec(k) == (p.0 <= k <= p.1),
            r is None ==> forall|k: u64| !self.contains_spec(k),
    {
        let lo: u64 = match self.lo {
            KeyBound::Included(x) => x,
            KeyBound::Excluded(x) => {
                if x == u64::MAX {
                    return None;
                }
                x + 1
            },
            KeyBound::Unbounded => 0,
        };
        let hi: u64 = match self.hi {
            KeyBound::Included(x) => x,
            KeyBound::Excluded(x) => {
                if x == 0 {
                    return None;
                }
                x - 1
            },
            KeyBound::Unbounded => u64::MAX,
        };
        if lo > hi {
            None
        } else {
            Some((lo, hi))
        }
    }
}

/// Whether the stored bytes at key `k` decode to an entry whose own index
/// is `k` (key/value consistency).
pub open spec fn valid_slot(m: Map<u64, Seq<u8>>, k: u64) -> bool {
    m.dom().contains(k) && (spec_decode_entry(m[k]) matches Some(e) && e.index == k)
}

/// The entries a raw byte map holds: the keys whose bytes decode to an
/// entry carrying that same index, each mapped to that entry.
pub open spec fn log_view(m: Map<u64, Seq<u8>>) -> Map<u64, EntryView> {
    Map::new(|k: u64| valid_slot(m, k), |k: u64| spec_decode_entry(m[k])->Some_0)
}

/// The map after inserting the entries of `s`, each at its own index, in
/// order: a later entry at the same index wins.
pub open spec fn insert_seq(m: Map<u64, EntryView>, s: Seq<EntryView>) -> Map<u64, EntryView>
    decreases s.len(),
{
    if s.len() == 0 {
        m
    } else {
        insert_seq(m, s.drop_last()).insert(s.last().index, s.last())
    }
}

/// Writing a well-formed encoded entry at its own index inserts exactly
/// that entry into the decoded view.
pub proof fn lemma_view_insert(m: Map<u64, Seq<u8>>, e: EntryView)
    requires
        e.payload.key.len() <= u64::MAX,
    ensures
        log_view(m.insert(e.index, spec_encode_entry(e))) == log_view(m).insert(e.index, e),
{
    lemma_entry_round_trip(e);
    assert(log_view(m.insert(e.index, spec_encode_entry(e))) =~= log_view(m).insert(
        e.index,
        e,
    ));
}

/// What a successful range read returns: entries of the view, in range,
/// in ascending index order, one for every stored key in the range.
pub open spec fn range_snapshot_ok(log: RaftLog, range: KeyRange, es: Seq<Entry>) -> bool {
    (forall|i: int|
        0 <= i < es.len() ==> log@.dom().contains(#[trigger] es[i].index) && es[i]@
            == log@[es[i].index] && range.contains_spec(es[i].index)) && (forall|i: int, j: int|
        0 <= i < j < es.len() ==> es[i].index < es[j].index) && (forall|k: u64|
        log.raw().dom().contains(k) && range.contains_spec(k) ==> exists|i: int|
            0 <= i < es.len() && #[trigger] es[i].index == k)
}

/// The durable, ordered store of the replicated log: one entry per log
/// index, keyed by the entry's own index.
///
/// It performs no consecutiveness and no override checking: those are
/// consensus-protocol invariants owned by the consensus engine. Its
/// contract is purely durability and ordered access. The log is meant to
/// be written by a single logical writer.
pub struct RaftLog {
    pub store: StoreTree,
}

impl View for RaftLog {
    type V = Map<u64, EntryView>;

    open spec fn view(&self) -> Map<u64, EntryView> {
        log_view(self.raw())
    }
}

impl RaftLog {
    /// The raw byte contents of the log's partition.
    pub open spec fn raw(self) -> Map<u64, Seq<u8>> {
        tree_map(self.store)
    }

    /// The raw bytes that survive an immediate crash.
    pub open spec fn raw_durable(self) -> Map<u64, Seq<u8>> {
        tree_durable(self.store)
    }

    /// Everything acknowledged so far is durable.
    pub open spec fn synced(self) -> bool {
        self.raw_durable() == self.raw()
    }

    /// Opens the log's partition of the store and flushes it, so that
    /// everything the partition already held is durable when the handle is
    /// handed out. The contracts assume this handle is its partition's only
    /// writer (the single-writer discipline of the surrounding
    /// architecture): a second open of the same partition aliases the same
    /// tree.
    pub fn open(db: &sled::Db) -> (r: Result<RaftLog, MetaError>)
        ensures
            r matches Ok(l) ==> l.synced(),
            r matches Err(er) ==> er == MetaError::StorageFailure,
    {
        let store = match StoreTree::open(db, "raft_log") {
            Ok(store) => store,
            Err(er) => {
                return Err(er);
            },
        };
        let mut log = RaftLog { store };
        match log.store.flush() {
            Ok(()) => Ok(log),
            Err(er) => Err(er),
        }
    }

    /// Whether the store holds bytes at this index.
    pub fn contains_key(&self, key: u64) -> (r: Result<bool, MetaError>)
        ensures
            r matches Ok(b) ==> b == self.raw().dom().contains(key),
            r matches Err(er) ==> er == MetaError::StorageFailure,
    {
        self.store.contains_key(key)
    }

    /// Point lookup: the entry at `key`, or `None` when absent. Absence is
    /// never reported as an error.
    pub fn get(&self, key: u64) -> (r: Result<Option<Entry>, MetaError>)
        ensures
            r matches Ok(Some(e)) ==> self@.dom().contains(key) && e@ == self@[key],
            r matches Ok(None) ==> !self@.dom().contains(key),
            r matches Err(er) ==> er == MetaError::StorageFailure || er
                == MetaError::SerializationFailure,
    {
        match self.store.get(key) {
            Ok(Some(bytes)) => match decode_entry(&bytes) {
                Some(e) => {
                    if e.index == key {
                        Ok(Some(e))
                    } else {
                        Err(MetaError::SerializationFailure)
                    }
                },
                None => Err(MetaError::SerializationFailure),
            },
            Ok(None) => {
                proof {
                    assert(!log_view(self.raw()).dom().contains(key));
                }
                Ok(None)
            },
            Err(er) => Err(er),
        }
    }

    /// The entry with the greatest index, or `None` when the log is empty;
    /// used on startup to find where to resume.
    pub fn last(&self) -> (r: Result<Option<(u64, Entry)>, MetaError>)
        ensures
            r matches Ok(None) ==> self.raw().dom() == Set::<u64>::empty() && self@
                == Map::<u64, EntryView>::empty(),
            r matches Ok(Some(p)) ==> self@.dom().contains(p.0) && p.1@ == self@[p.0]
                && p.1.index == p.0 && forall|k2: u64|
                self.raw().dom().contains(k2) ==> k2 <= p.0,
            r matches Err(er) ==> er == MetaError::StorageFailure || er
                == MetaError::SerializationFailure,
    {
        match self.store.last() {
            Ok(Some((k, bytes))) => match decode_entry(&bytes) {
                Some(e) => {
                    if e.index == k {
                        Ok(Some((k, e)))
                    } else {
                        Err(MetaError::SerializationFailure)
                    }
                },
                None => Err(MetaError::SerializationFailure),
            },
            Ok(None) => {
                proof {
                    assert(log_view(self.raw()) =~= Map::<u64, EntryView>::empty());
                }
                Ok(None)
            },
            Err(er) => Err(er),
        }
    }

    /// Durable single insert: writes the entry at its own index, flushes,
    /// and returns the entry previously stored at that index, if a valid
    /// one was there (so callers can detect overwrite of stale entries).
    /// Overwriting is deliberate: a newer leader's entry may legitimately
    /// replace a stale one at the same index.
    pub fn insert(&mut self, log: &Entry) -> (r: Result<Option<Entry>, MetaError>)
        ensures
            r is Ok ==> final(self)@ == old(self)@.insert(log.index, log@) && final(self).synced(),
            r matches Ok(Some(p)) ==> old(self)@.dom().contains(log.index) && p@ == old(self)@[log.index],
            r matches Ok(None) ==> !old(self)@.dom().contains(log.index),
            r matches Err(er) ==> er == MetaError::StorageFailure,
    {
        let bytes = encode_entry(log);
        let klen: usize = log.payload.key.len();
        proof {
            lemma_view_insert(tree_map(self.store), log@);
        }
        let prev = match self.store.insert(log.index, &bytes) {
            Ok(p) => p,
            Err(er) => return Err(er),
        };
        match self.store.flush() {
            Ok(()) => (),
            Err(er) => return Err(er),
        }
        match prev {
            None => Ok(None),
            Some(pb) => match decode_entry(&pb) {
                Some(pe) => {
                    if pe.index == log.index {
                        Ok(Some(pe))
                    } else {
                        Ok(None)
                    }
                },
                None => Ok(None),
            },
        }
    }

    /// Bulk, durable append in one barrier. No consecutiveness check and
    /// no overriding check: writing to an existing index overwrites it,
    /// last writer wins by call order.
    pub fn append(&mut self, logs: &Vec<Entry>) -> (r: Result<(), MetaError>)
        ensures
            r is Ok ==> final(self)@ == insert_seq(
                old(self)@,
                logs@.map_values(|e: Entry| e@),
            ) && final(self).synced(),
            r matches Err(er) ==> er == MetaError::StorageFailure,
    {
        let ghost entries = logs@.map_values(|e: Entry| e@);
        let mut i: usize = 0;
        while i < logs.len()
            invariant
                i <= logs@.len(),
                entries == logs@.map_values(|e: Entry| e@),
                log_view(tree_map(self.store)) == insert_seq(
                    log_view(tree_map(old(self).store)),
                    entries.take(i as int),
                ),
            decreases logs@.len() - i,
        {
            let e = &logs[i];
            let klen: usize = e.payload.key.len();
            let bytes = encode_entry(e);
            proof {
                assert(e@.payload.key.len() == klen);
                lemma_view_insert(tree_map(self.store), e@);
            }
            match self.store.insert(e.index, &bytes) {
                Ok(_) => (),
                Err(er) => return Err(er),
            }
            i = i + 1;
            proof {
                assert(entries.take(i as int).drop_last() =~= entries.take(i as int - 1));
            }
        }
        match self.store.flush() {
            Ok(()) => (),
            Err(er) => return Err(er),
        }
        proof {
            assert(entries.take(logs@.len() as int) =~= entries);
        }
        Ok(())
    }

    /// The keys present in the store whose index falls in `range`, in
    /// ascending order.
    pub fn range_keys(&self, range: &KeyRange) -> (r: Result<Vec<u64>, MetaError>)
        ensures
            r matches Ok(ks) ==> (forall|i: int|
                0 <= i < ks@.len() ==> self.raw().dom().contains(#[trigger] ks@[i])
                    && range.contains_spec(ks@[i])) && (forall|i: int, j: int|
                0 <= i < j < ks@.len() ==> ks@[i] < ks@[j]) && (forall|k: u64|
                self.raw().dom().contains(k) && range.contains_spec(k) ==> ks@.contains(k)),
            (forall|k: u64| !range.contains_spec(k)) ==> r is Ok,
            r matches Err(er) ==> er == MetaError::StorageFailure,
    {
        match range.normalize() {
            None => Ok(Vec::new()),
            Some((lo, hi)) => {
                proof {
                    assert(range.contains_spec(lo));
                }
                self.store.range_keys_incl(lo, hi)
            },
        }
    }

    /// The entries whose index falls in `range`, in ascending index order,
    /// used for catch-up replication and compaction bookkeeping.
    #[verifier::rlimit(50)]
    pub fn range_get(&self, range: &KeyRange) -> (r: Result<Vec<Entry>, MetaError>)
        ensures
            r matches Ok(es) ==> range_snapshot_ok(*self, *range, es@),
            (forall|k: u64| !range.contains_spec(k)) ==> r is Ok,
            r matches Err(er) ==> er == MetaError::StorageFailure || er
                == MetaError::SerializationFailure,
    {
        let (lo, hi) = match range.normalize() {
            None => {
                let es: Vec<Entry> = Vec::new();
                proof {
                    assert(range_snapshot_ok(*self, *range, es@));
                }
                return Ok(es);
            },
            Some(p) => p,
        };
        proof {
            assert(range.contains_spec(lo));
        }
        let kvs = match self.store.range_get_incl(lo, hi) {
            Ok(kvs) => kvs,
            Err(er) => return Err(er),
        };
        let mut es: Vec<Entry> = Vec::new();
        let mut i: usize = 0;
        while i < kvs.len()
            invariant
                range.contains_spec(lo),
                i <= kvs@.len(),
                es@.len() == i as int,
                forall|j: int| 0 <= j < i ==> #[trigger] es@[j].index == kvs@[j].0,
                forall|j: int|
                    0 <= j < i ==> self@.dom().contains(#[trigger] es@[j].index) && es@[j]@
                        == self@[es@[j].index],
                forall|j: int|
                    0 <= j < kvs@.len() ==> self.raw().dom().contains(#[trigger] kvs@[j].0)
                        && kvs@[j].1@ == self.raw()[kvs@[j].0],
            decreases kvs@.len() - i,
        {
            let kv = &kvs[i];
            match decode_entry(&kv.1) {
                Some(e) => {
                    if e.index != kv.0 {
                        return Err(MetaError::SerializationFailure);
                    }
                    es.push(e);
                },
                None => {
                    return Err(MetaError::SerializationFailure);
                },
            }
            i = i + 1;
        }
        proof {
            assert forall|k: u64|
                self.raw().dom().contains(k) && range.contains_spec(k) implies exists|j: int|
                0 <= j < es@.len() && #[trigger] es@[j].index == k by {
                let j = choose|j: int| 0 <= j < kvs@.len() && #[trigger] kvs@[j].0 == k;
                assert(es@[j].index == k);
            }
            assert forall|j: int, l: int| 0 <= j < l < es@.len() implies es@[j].index
                < es@[l].index by {
                assert(kvs@[j].0 < kvs@[l].0);
            }
            assert(range_snapshot_ok(*self, *range, es@));
        }
        Ok(es)
    }

    /// Deletes all entries whose index falls in `range`; returns only
    /// after the deletions are durable. On abnormal termination mid-way a
    /// subset may remain, but a successful return never leaves an entry of
    /// the range readable.
    pub fn range_delete(&mut self, range: &KeyRange) -> (r: Result<(), MetaError>)
        ensures
            r is Ok ==> (forall|k: u64|
                range.contains_spec(k) ==> !final(self).raw().dom().contains(k)) && (
            forall|k: u64|
                !range.contains_spec(k) ==> final(self).raw().dom().contains(k) == old(
                    self,
                ).raw().dom().contains(k)) && (forall|k: u64|
                final(self).raw().dom().contains(k) ==> final(self).raw()[k] == old(
                    self,
                ).raw()[k]) && final(self).synced(),
            r matches Err(er) ==> er == MetaError::StorageFailure,
    {
        let keys = match range.normalize() {
            None => {
                match self.store.flush() {
                    Ok(()) => (),
                    Err(er) => return Err(er),
                }
                return Ok(());
            },
            Some((lo, hi)) => match self.store.range_keys_incl(lo, hi) {
                Ok(ks) => ks,
                Err(er) => return Err(er),
            },
        };
        let ghost raw0 = self.raw();
        let mut i: usize = 0;
        while i < keys.len()
            invariant
                i <= keys@.len(),
                forall|j: int, l: int| 0 <= j < l < keys@.len() ==> keys@[j] < keys@[l],
                forall|k: u64|
                    raw0.dom().contains(k) && range.contains_spec(k) ==> keys@.contains(k),
                forall|j: int|
                    0 <= j < keys@.len() ==> raw0.dom().contains(#[trigger] keys@[j])
                        && range.contains_spec(keys@[j]),
                forall|k: u64|
                    #[trigger] tree_map(self.store).dom().contains(k) ==> raw0.dom().contains(k)
                        && tree_map(self.store)[k] == raw0[k],
                forall|j: int| 0 <= j < i ==> !tree_map(self.store).dom().contains(keys@[j]),
                forall|k: u64|
                    raw0.dom().contains(k) && !keys@.subrange(0, i as int).contains(k)
                        ==> tree_map(self.store).dom().contains(k),
            decreases keys@.len() - i,
        {
            let k = keys[i];
            match self.store.remove(k) {
                Ok(_) => (),
                Err(er) => return Err(er),
            }
            i = i + 1;
            proof {
                assert forall|k2: u64|
                    raw0.dom().contains(k2) && !keys@.subrange(0, i as int).contains(
                        k2,
                    ) implies tree_map(self.store).dom().contains(k2) by {
                    assert(keys@.subrange(0, i as int)[i - 1] == keys@[i - 1]);
                    assert(k2 != keys@[i - 1]);
                    assert(!keys@.subrange(0, i as int - 1).contains(k2)) by {
                        if keys@.subrange(0, i as int - 1).contains(k2) {
                            let j = choose|j: int|
                                0 <= j < i - 1 && #[trigger] keys@.subrange(0, i as int - 1)[j] == k2;
                            assert(keys@.subrange(0, i as int)[j] == k2);
                        }
                    }
                }
            }
        }
        match self.store.flush() {
            Ok(()) => (),
            Err(er) => return Err(er),
        }
        proof {
            assert forall|k: u64|
                range.contains_spec(k) implies !tree_map(self.store).dom().contains(k) by {
                if tree_map(self.store).dom().contains(k) {
                    assert(raw0.dom().contains(k));
                    assert(keys@.contains(k));
                    let j = choose|j: int| 0 <= j < keys@.len() && #[trigger] keys@[j] == k;
                    assert(!tree_map(self.store).dom().contains(keys@[j]));
                }
            }
            assert forall|k: u64|
                !range.contains_spec(k) && raw0.dom().contains(
                    k,
                ) implies tree_map(self.store).dom().contains(k) by {
                assert(!keys@.subrange(0, keys@.len() as int).contains(k)) by {
                    if keys@.subrange(0, keys@.len() as int).contains(k) {
                        let j = choose|j: int|
                            0 <= j < keys@.len() && #[trigger] keys@.subrange(0, keys@.len() as int)[j] == k;
                        assert(range.contains_spec(keys@[j]));
                    }
                }
            }
        }
        Ok(())
    }

    /// Access to the log's partition, for callers that need the raw store.
    pub fn logs(&self) -> (r: &StoreTree)
        ensures
            tree_map(*r) == self.raw(),
    {
        &self.store
    }
}

} // verus!
