use vstd::prelude::*;

use crate::codec::bytes_eq;
use crate::codec::copy_bytes;

verus! {

/// The binding of keys to values that a sequence of set commands leaves
/// behind: a later binding of the same key wins.
pub open spec fn bindings_map(s: Seq<(Vec<u8>, Vec<u8>)>) -> Map<Seq<u8>, Seq<u8>>
    decreases s.len(),
{
    if s.len() == 0 {
        Map::empty()
    } else {
        bindings_map(s.drop_last()).insert(s.last().0@, s.last().1@)
    }
}

/// The applied application state: the key/value bindings produced by the
/// committed log entries, kept as the sequence of applied set commands.
/// Its view is the resulting map; the latest binding of a key wins.
pub struct StateMachine {
    bindings: Vec<(Vec<u8>, Vec<u8>)>,
}

impl View for StateMachine {
    type V = Map<Seq<u8>, Seq<u8>>;

    closed spec fn view(&self) -> Map<Seq<u8>, Seq<u8>> {
        bindings_map(self.bindings@)
    }
}

impl StateMachine {
    /// An empty state: no key is bound.
    pub fn new() -> (r: StateMachine)
        ensures
            r@ == Map::<Seq<u8>, Seq<u8>>::empty(),
    {
        StateMachine { bindings: Vec::new() }
    }

    /// Applies one committed set command: binds `key` to `value`,
    /// overwriting any earlier binding.
    pub fn apply_set(&mut self, key: Vec<u8>, value: Vec<u8>)
        ensures
            final(self)@ == old(self)@.insert(key@, value@),
    {
        let ghost b0 = self.bindings@;
        self.bindings.push((key, value));
        proof {
            assert(self.bindings@.drop_last() =~= b0);
        }
    }

    /// The value bound to `key`, or `None` when the key is absent. A key
    /// bound to the empty value is present, not absent.
    pub fn get(&self, key: &Vec<u8>) -> (r: Option<Vec<u8>>)
        ensures
            r matches Some(v) ==> self@.dom().contains(key@) && v@ == self@[key@],
            r is None ==> !self@.dom().contains(key@),
    {
        let ghost whole = bindings_map(self.bindings@);
        let mut i: usize = self.bindings.len();
        proof {
            assert(self.bindings@.subrange(0, i as int) =~= self.bindings@);
        }
        while i > 0
            invariant
                i <= self.bindings@.len(),
                whole == bindings_map(self.bindings@),
                whole.dom().contains(key@) == bindings_map(
                    self.bindings@.subrange(0, i as int),
                ).dom().contains(key@),
                whole.dom().contains(key@) ==> bindings_map(
                    self.bindings@.subrange(0, i as int),
                )[key@] == whole[key@],
            decreases i,
        {
            let ghost pre = self.bindings@.subrange(0, i as int);
            i = i - 1;
            let kv = &self.bindings[i];
            proof {
                assert(pre.drop_last() =~= self.bindings@.subrange(0, i as int));
                assert(pre.last() == self.bindings@[i as int]);
                assert(bindings_map(pre) == bindings_map(pre.drop_last()).insert(
                    pre.last().0@,
                    pre.last().1@,
                ));
            }
            if bytes_eq(&kv.0, key) {
                let v = copy_bytes(&kv.1);
                return Some(v);
            }
        }
        proof {
            assert(self.bindings@.subrange(0, 0) =~= Seq::<(Vec<u8>, Vec<u8>)>::empty());
        }
        None
    }
}

} // verus!
