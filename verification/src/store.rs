use vstd::prelude::*;

use crate::errors::MetaError;

verus! {

#[verifier::external_type_specification]
#[verifier::external_body]
pub struct ExDb(sled::Db);

/// One named partition of the embedded ordered store, holding one logical
/// map. Keys are integers, laid out on disk as eight big-endian bytes so
/// that the engine's byte order is the integers' order.
///
/// The struct hides the engine's tree handle; everything the library knows
/// about it is said by the contracts below, over `tree_map` and
/// `tree_durable`. The contracts assume the single-writer discipline the
/// surrounding architecture imposes on each partition: two opens of one
/// name alias the same underlying tree, and a write through another handle
/// is not reflected here.
#[verifier::external_body]
pub struct StoreTree {
    tree: sled::Tree,
}

/// The contents of the partition: what a point read of each present key
/// returns right now.
pub uninterp spec fn tree_map(t: StoreTree) -> Map<u64, Seq<u8>>;

/// The durable contents of the partition: what survives an immediate
/// crash. Catches up with `tree_map` when a flush returns.
pub uninterp spec fn tree_durable(t: StoreTree) -> Map<u64, Seq<u8>>;

impl StoreTree {
    /// Relies on sled::Db::open_tree: opens or creates the named keyspace.
    /// Nothing is claimed about the returned tree's contents or their
    /// durability: opening an already-open name hands back the same shared
    /// tree, pending writes and all. Callers that need a durability fact
    /// flush first.
    #[verifier::external_body]
    pub fn open(db: &sled::Db, name: &str) -> (r: Result<StoreTree, MetaError>)
        ensures
            r matches Err(er) ==> er == MetaError::StorageFailure,
    {
        match db.open_tree(name) {
            Ok(tree) => Ok(StoreTree { tree }),
            Err(_) => Err(MetaError::StorageFailure),
        }
    }

    /// Relies on sled::Tree::get: the value of the key, or `None` when the
    /// key is absent.
    #[verifier::external_body]
    pub fn get(&self, key: u64) -> (r: Result<Option<Vec<u8>>, MetaError>)
        ensures
            r matches Ok(Some(v)) ==> tree_map(*self).dom().contains(key)
                && v@ == tree_map(*self)[key],
            r matches Ok(None) ==> !tree_map(*self).dom().contains(key),
            r matches Err(er) ==> er == MetaError::StorageFailure,
    {
        match self.tree.get(key.to_be_bytes()) {
            Ok(Some(iv)) => Ok(Some(iv.as_ref().to_vec())),
            Ok(None) => Ok(None),
            Err(_) => Err(MetaError::StorageFailure),
        }
    }

    /// Relies on sled::Tree::contains_key: whether the tree holds a value
    /// for the key.
    #[verifier::external_body]
    pub fn contains_key(&self, key: u64) -> (r: Result<bool, MetaError>)
        ensures
            r matches Ok(b) ==> b == tree_map(*self).dom().contains(key),
            r matches Err(er) ==> er == MetaError::StorageFailure,
    {
        match self.tree.contains_key(key.to_be_bytes()) {
            Ok(b) => Ok(b),
            Err(_) => Err(MetaError::StorageFailure),
        }
    }

    /// Relies on sled::Tree::insert: sets the key to the value and returns
    /// the previous value at that key, if one was set. Does not flush.
    #[verifier::external_body]
    pub fn insert(&mut self, key: u64, value: &Vec<u8>) -> (r: Result<
        Option<Vec<u8>>,
        MetaError,
    >)
        ensures
            r is Ok ==> tree_map(*final(self)) == tree_map(*old(self)).insert(key, value@),
            r matches Ok(Some(p)) ==> tree_map(*old(self)).dom().contains(key)
                && p@ == tree_map(*old(self))[key],
            r matches Ok(None) ==> !tree_map(*old(self)).dom().contains(key),
            r matches Err(er) ==> er == MetaError::StorageFailure,
    {
        match self.tree.insert(key.to_be_bytes(), value.as_slice()) {
            Ok(Some(iv)) => Ok(Some(iv.as_ref().to_vec())),
            Ok(None) => Ok(None),
            Err(_) => Err(MetaError::StorageFailure),
        }
    }

    /// Relies on sled::Tree::remove: deletes the key and returns the value
    /// it had, if one was set. Does not flush.
    #[verifier::external_body]
    pub fn remove(&mut self, key: u64) -> (r: Result<Option<Vec<u8>>, MetaError>)
        ensures
            r is Ok ==> tree_map(*final(self)) == tree_map(*old(self)).remove(key),
            r matches Ok(Some(p)) ==> tree_map(*old(self)).dom().contains(key)
                && p@ == tree_map(*old(self))[key],
            r matches Ok(None) ==> !tree_map(*old(self)).dom().contains(key),
            r matches Err(er) ==> er == MetaError::StorageFailure,
    {
        match self.tree.remove(key.to_be_bytes()) {
            Ok(Some(iv)) => Ok(Some(iv.as_ref().to_vec())),
            Ok(None) => Ok(None),
            Err(_) => Err(MetaError::StorageFailure),
        }
    }

    /// Relies on sled::Tree::flush: fsyncs; once it returns, all previous
    /// writes are recovered if the system crashes. The contents do not
    /// change; the durable contents catch up with them.
    #[verifier::external_body]
    pub fn flush(&mut self) -> (r: Result<(), MetaError>)
        ensures
            r is Ok ==> tree_map(*final(self)) == tree_map(*old(self))
                && tree_durable(*final(self)) == tree_map(*final(self)),
            r matches Err(er) ==> er == MetaError::StorageFailure,
    {
        match self.tree.flush() {
            Ok(_) => Ok(()),
            Err(_) => Err(MetaError::StorageFailure),
        }
    }

    /// Relies on sled::Tree::last: the greatest key together with its
    /// value, or `None` when the tree is empty. Eight-byte big-endian keys
    /// order as their integers do, so the greatest byte key is the greatest
    /// integer key.
    #[verifier::external_body]
    pub fn last(&self) -> (r: Result<Option<(u64, Vec<u8>)>, MetaError>)
        ensures
            r matches Ok(None) ==> tree_map(*self).dom() == Set::<u64>::empty(),
            r matches Ok(Some(kv)) ==> tree_map(*self).dom().contains(kv.0)
                && kv.1@ == tree_map(*self)[kv.0]
                && forall|k2: u64| tree_map(*self).dom().contains(k2) ==> k2 <= kv.0,
            r matches Err(er) ==> er == MetaError::StorageFailure,
    {
        match self.tree.last() {
            Ok(Some((k, v))) => {
                let arr: [u8; 8] = match k.as_ref().try_into() {
                    Ok(a) => a,
                    Err(_) => return Err(MetaError::StorageFailure),
                };
                Ok(Some((u64::from_be_bytes(arr), v.as_ref().to_vec())))
            },
            Ok(None) => Ok(None),
            Err(_) => Err(MetaError::StorageFailure),
        }
    }

    /// Relies on sled::Tree::range: iterates the keys in `lo..=hi` in
    /// ascending byte order, which for eight-byte big-endian keys is
    /// ascending integer order.
    #[verifier::external_body]
    pub fn range_keys_incl(&self, lo: u64, hi: u64) -> (r: Result<Vec<u64>, MetaError>)
        requires
            lo <= hi,
        ensures
            r matches Ok(ks) ==> (forall|i: int|
                0 <= i < ks@.len() ==> tree_map(*self).dom().contains(ks@[i]) && lo <= ks@[i]
                    <= hi) && (forall|i: int, j: int|
                0 <= i < j < ks@.len() ==> ks@[i] < ks@[j]) && (forall|k: u64|
                tree_map(*self).dom().contains(k) && lo <= k <= hi ==> ks@.contains(k)),
            r matches Err(er) ==> er == MetaError::StorageFailure,
    {
        let mut out: Vec<u64> = Vec::new();
        for item in self.tree.range(lo.to_be_bytes()..=hi.to_be_bytes()) {
            let (k, _) = item.map_err(|_| MetaError::StorageFailure)?;
            let arr: [u8; 8] = k.as_ref().try_into().map_err(|_| MetaError::StorageFailure)?;
            out.push(u64::from_be_bytes(arr));
        }
        Ok(out)
    }

    /// Relies on sled::Tree::range: iterates the keys in `lo..=hi` with
    /// their values, in ascending key order.
    #[verifier::external_body]
    pub fn range_get_incl(&self, lo: u64, hi: u64) -> (r: Result<
        Vec<(u64, Vec<u8>)>,
        MetaError,
    >)
        requires
            lo <= hi,
        ensures
            r matches Ok(kvs) ==> (forall|i: int|
                0 <= i < kvs@.len() ==> tree_map(*self).dom().contains(kvs@[i].0) && lo
                    <= kvs@[i].0 <= hi && kvs@[i].1@ == tree_map(*self)[kvs@[i].0]) && (
            forall|i: int, j: int|
                0 <= i < j < kvs@.len() ==> kvs@[i].0 < kvs@[j].0) && (forall|k: u64|
                tree_map(*self).dom().contains(k) && lo <= k <= hi ==> exists|i: int|
                    0 <= i < kvs@.len() && kvs@[i].0 == k),
            r matches Err(er) ==> er == MetaError::StorageFailure,
    {
        let mut out: Vec<(u64, Vec<u8>)> = Vec::new();
        for item in self.tree.range(lo.to_be_bytes()..=hi.to_be_bytes()) {
            let (k, v) = item.map_err(|_| MetaError::StorageFailure)?;
            let arr: [u8; 8] = k.as_ref().try_into().map_err(|_| MetaError::StorageFailure)?;
            out.push((u64::from_be_bytes(arr), v.as_ref().to_vec()));
        }
        Ok(out)
    }
}

} // verus!
