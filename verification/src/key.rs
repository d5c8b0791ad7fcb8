//! A key of the store: an immutable byte string, hashable and comparable.

use vstd::prelude::*;

verus! {

/// A key under which one typed value lives.
#[derive(PartialEq, Eq, Hash)]
pub struct Key {
    inner: Vec<u8>,
}

impl Key {
    /// The key's bytes.
    pub closed spec fn view(&self) -> Seq<u8> {
        self.inner@
    }

    /// A key made of the given bytes.
    pub fn new(bytes: Vec<u8>) -> (r: Key)
        ensures
            r@ == bytes@,
    {
        Key { inner: bytes }
    }

    /// The key's bytes, borrowed.
    pub fn as_bytes(&self) -> (r: &[u8])
        ensures
            r@ == self@,
    {
        self.inner.as_slice()
    }
}

/// Keys made of the given byte strings, in order.
pub fn keys_of(bytes: &Vec<Vec<u8>>) -> (r: Vec<Key>)
    ensures
        r@.map_values(|k: Key| k@) == bytes@.map_values(|v: Vec<u8>| v@),
{
    let ghost bs = bytes@.map_values(|v: Vec<u8>| v@);
    let mut r: Vec<Key> = Vec::new();
    let mut i: usize = 0;
    while i < bytes.len()
        invariant
            i <= bs.len(),
            bs == bytes@.map_values(|v: Vec<u8>| v@),
            r@.len() == i,
            forall|j: int| 0 <= j < i ==> (#[trigger] r@[j])@ == bs[j],
        decreases bs.len() - i,
    {
        r.push(Key::new(crate::util::copy_bytes(&bytes[i])));
        i = i + 1;
    }
    proof {
        assert(r@.map_values(|k: Key| k@) =~= bs);
    }
    r
}

} // verus!
