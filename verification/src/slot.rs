//! One shard of the store: a key table of its own, touched independently of
//! every other shard.

use vstd::prelude::*;

use crate::key::Key;
use crate::keymap::{empty_map_view, map_view, KeyMap};
use crate::value::Value;

verus! {

/// One bucket of the sharded store.
pub struct Slot {
    inner: KeyMap,
}

impl Slot {
    /// The entries of this shard, keyed by the key's bytes.
    pub closed spec fn view(&self) -> Map<Seq<u8>, Value> {
        map_view(self.inner)
    }

    /// An empty shard.
    pub fn new() -> (r: Slot)
        ensures
            r@ == empty_map_view(),
    {
        Slot { inner: KeyMap::new() }
    }

    /// The value stored under `key`, if any.
    pub fn get(&self, key: &Key) -> (r: Option<&Value>)
        ensures
            match r {
                Some(v) => self@.contains_key(key@) && *v == self@[key@],
                None => !self@.contains_key(key@),
            },
    {
        self.inner.get(key)
    }

    /// Store `value` under `key`, replacing any previous entry.
    pub fn insert(&mut self, key: Key, value: Value)
        ensures
            final(self)@ == old(self)@.insert(key@, value),
    {
        self.inner.insert(key, value)
    }

    /// Take the entry under `key` out of the shard.
    pub fn remove(&mut self, key: &Key) -> (r: Option<Value>)
        ensures
            match r {
                Some(v) => old(self)@.contains_key(key@) && v == old(self)@[key@] && final(self)@
                    == old(self)@.remove(key@),
                None => !old(self)@.contains_key(key@) && final(self)@ == old(self)@,
            },
    {
        self.inner.remove(key)
    }
}

} // verus!
