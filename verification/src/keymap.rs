//! One shard's key table: a hash map from keys to typed values, seen by the
//! proofs as a mathematical map from byte strings to values.

use vstd::prelude::*;

use crate::key::Key;
use crate::value::Value;

verus! {

/// The mapping from keys to typed values inside one shard.
#[verifier::external_body]
pub struct KeyMap {
    inner: hashbrown::HashMap<Key, Value>,
}

/// The entries held by a [`KeyMap`], keyed by the key's bytes.
pub uninterp spec fn map_view(m: KeyMap) -> Map<Seq<u8>, Value>;

/// The content of a map with no entries.
pub open spec fn empty_map_view() -> Map<Seq<u8>, Value> {
    Map::empty()
}

impl KeyMap {
    /// Relies on hashbrown::HashMap::new: an empty map.
    #[verifier::external_body]
    pub fn new() -> (r: KeyMap)
        ensures
            map_view(r) == empty_map_view(),
    {
        KeyMap { inner: hashbrown::HashMap::new() }
    }

    /// Relies on hashbrown::HashMap::get: the value stored under the key,
    /// if any.
    #[verifier::external_body]
    pub fn get(&self, key: &Key) -> (r: Option<&Value>)
        ensures
            match r {
                Some(v) => map_view(*self).contains_key(key@) && *v == map_view(*self)[key@],
                None => !map_view(*self).contains_key(key@),
            },
    {
        self.inner.get(key)
    }

    /// Relies on hashbrown::HashMap::insert: stores the value under the
    /// key, replacing any previous entry.
    #[verifier::external_body]
    pub fn insert(&mut self, key: Key, value: Value)
        ensures
            map_view(*final(self)) == map_view(*old(self)).insert(key@, value),
    {
        self.inner.insert(key, value);
    }

    /// Relies on hashbrown::HashMap::remove: takes the entry under the key
    /// out of the map and hands its value back.
    #[verifier::external_body]
    pub fn remove(&mut self, key: &Key) -> (r: Option<Value>)
        ensures
            match r {
                Some(v) => map_view(*old(self)).contains_key(key@) && v == map_view(*old(self))[key@]
                    && map_view(*final(self)) == map_view(*old(self)).remove(key@),
                None => !map_view(*old(self)).contains_key(key@) && map_view(*final(self))
                    == map_view(*old(self)),
            },
    {
        self.inner.remove(key)
    }
}

} // verus!
