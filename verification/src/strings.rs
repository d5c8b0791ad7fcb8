//! The string container: one byte string, replaced wholesale on write.

use vstd::prelude::*;

use crate::util::copy_bytes;

verus! {

/// A single byte string value.
pub struct Strings {
    inner: Vec<u8>,
}

impl Strings {
    /// The stored bytes.
    pub closed spec fn view(&self) -> Seq<u8> {
        self.inner@
    }

    /// A cell holding `value`.
    pub fn set(value: Vec<u8>) -> (r: Strings)
        ensures
            r@ == value@,
    {
        Strings { inner: value }
    }

    /// A copy of the stored bytes.
    pub fn get(&self) -> (r: Vec<u8>)
        ensures
            r@ == self@,
    {
        copy_bytes(&self.inner)
    }
}

} // verus!
