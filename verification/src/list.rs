//! The ordered list container: a deque of byte strings with push and pop at
//! both ends and Redis-style range scans.

use std::collections::VecDeque;
use vstd::prelude::*;

use crate::util::copy_bytes;

verus! {

/// Rewrite a possibly negative index against a sequence of length `n`.
pub open spec fn spec_rebase(i: int, n: int) -> int {
    if i < 0 {
        i + n
    } else {
        i
    }
}

/// The inclusive index range `[lo, hi]` that LRANGE scans after
/// normalization, as an exclusive upper bound pair `(lo, hi + 1)`;
/// an empty selection is `(0, 0)`.
pub open spec fn spec_range(n: int, start: int, stop: int) -> (int, int) {
    let s = spec_rebase(start, n);
    let e = spec_rebase(stop, n);
    if s >= n || e < 0 || e < s {
        (0, 0)
    } else {
        let lo = if s < 0 {
            0
        } else {
            s
        };
        let hi = if e >= n {
            n - 1
        } else {
            e
        };
        (lo, hi + 1)
    }
}

/// The elements LRANGE returns from a list `s`.
pub open spec fn spec_lrange(s: Seq<Seq<u8>>, start: int, stop: int) -> Seq<Seq<u8>> {
    let (lo, hi) = spec_range(s.len() as int, start, stop);
    s.subrange(lo, hi)
}

/// An ordered sequence of byte strings.
pub struct List {
    inner: VecDeque<Vec<u8>>,
}

impl List {
    /// The list as a sequence of byte strings, head first.
    pub closed spec fn view(&self) -> Seq<Seq<u8>> {
        self.inner@.map_values(|v: Vec<u8>| v@)
    }

    /// The empty list.
    pub fn new() -> (r: List)
        ensures
            r@ == Seq::<Seq<u8>>::empty(),
    {
        let r = List { inner: VecDeque::new() };
        proof {
            assert(r@ =~= Seq::<Seq<u8>>::empty());
        }
        r
    }

    /// Number of elements.
    pub fn llen(&self) -> (r: usize)
        ensures
            r == self@.len(),
    {
        self.inner.len()
    }

    /// Prepend each value in order: the last value given ends up at the head.
    /// Returns the new length.
    pub fn lpush(&mut self, values: Vec<Vec<u8>>) -> (r: usize)
        ensures
            final(self)@ == values@.map_values(|v: Vec<u8>| v@).reverse() + old(self)@,
            r == final(self)@.len(),
    {
        let ghost vs = values@.map_values(|v: Vec<u8>| v@);
        let mut values = values;
        let ghost n = vs.len() as int;
        let mut i: usize = 0;
        while i < values.len()
            invariant
                i <= vs.len(),
                values@.map_values(|v: Vec<u8>| v@) == vs,
                self@ == vs.take(i as int).reverse() + old(self)@,
            decreases vs.len() - i,
        {
            let ghost before = self@;
            let v = copy_bytes(&values[i]);
            self.inner.push_front(v);
            proof {
                assert(self@ =~= seq![vs[i as int]] + before);
                assert(vs.take(i + 1).drop_last() =~= vs.take(i as int));
                assert(vs.take(i + 1).reverse() =~= seq![vs[i as int]] + vs.take(
                    i as int,
                ).reverse());
                assert(self@ =~= vs.take(i + 1).reverse() + old(self)@);
            }
            i = i + 1;
        }
        proof {
            assert(vs.take(n) =~= vs);
        }
        self.inner.len()
    }

    /// Append each value in order. Returns the new length.
    pub fn rpush(&mut self, values: Vec<Vec<u8>>) -> (r: usize)
        ensures
            final(self)@ == old(self)@ + values@.map_values(|v: Vec<u8>| v@),
            r == final(self)@.len(),
    {
        let ghost vs = values@.map_values(|v: Vec<u8>| v@);
        let mut values = values;
        let ghost n = vs.len() as int;
        let mut i: usize = 0;
        while i < values.len()
            invariant
                i <= vs.len(),
                values@.map_values(|v: Vec<u8>| v@) == vs,
                self@ == old(self)@ + vs.take(i as int),
            decreases vs.len() - i,
        {
            let ghost before = self@;
            let v = copy_bytes(&values[i]);
            self.inner.push_back(v);
            proof {
                assert(self@ =~= before.push(vs[i as int]));
                assert(self@ =~= old(self)@ + vs.take(i + 1));
            }
            i = i + 1;
        }
        proof {
            assert(vs.take(n) =~= vs);
        }
        self.inner.len()
    }

    /// Remove and return the head element; `None` when empty.
    pub fn lpop(&mut self) -> (r: Option<Vec<u8>>)
        ensures
            match r {
                Some(v) => old(self)@.len() > 0 && v@ == old(self)@[0] && final(self)@ == old(
                    self,
                )@.skip(1),
                None => old(self)@.len() == 0 && final(self)@ == old(self)@,
            },
    {
        let r = self.inner.pop_front();
        proof {
            if old(self)@.len() > 0 {
                assert(self@ =~= old(self)@.skip(1));
            }
        }
        r
    }

    /// Remove and return the tail element; `None` when empty.
    pub fn rpop(&mut self) -> (r: Option<Vec<u8>>)
        ensures
            match r {
                Some(v) => old(self)@.len() > 0 && v@ == old(self)@.last() && final(self)@ == old(
                    self,
                )@.drop_last(),
                None => old(self)@.len() == 0 && final(self)@ == old(self)@,
            },
    {
        let r = self.inner.pop_back();
        proof {
            if old(self)@.len() > 0 {
                assert(self@ =~= old(self)@.drop_last());
            }
        }
        r
    }

    /// The normalized scan bounds for a list of length `len`, as an
    /// exclusive `(lo, hi)` pair.
    fn range(len: usize, start: i64, stop: i64) -> (r: (usize, usize))
        ensures
            (r.0 as int, r.1 as int) == spec_range(len as int, start as int, stop as int),
            r.0 <= r.1 <= len,
    {
        let n = len as i128;
        let mut s = start as i128;
        let mut e = stop as i128;
        if s < 0 {
            s = s + n;
        }
        if e < 0 {
            e = e + n;
        }
        if s >= n || e < 0 || e < s {
            return (0, 0);
        }
        if s < 0 {
            s = 0;
        }
        if e >= n {
            e = n - 1;
        }
        (s as usize, (e + 1) as usize)
    }

    /// The elements at indices `[start, stop]` after Redis LRANGE
    /// normalization, head first.
    pub fn lrange(&self, start: i64, stop: i64) -> (r: Vec<Vec<u8>>)
        ensures
            r@.map_values(|v: Vec<u8>| v@) == spec_lrange(self@, start as int, stop as int),
    {
        let (lo, hi) = Self::range(self.inner.len(), start, stop);
        let mut r: Vec<Vec<u8>> = Vec::new();
        let mut i: usize = lo;
        while i < hi
            invariant
                lo <= i <= hi <= self@.len(),
                r@.map_values(|v: Vec<u8>| v@) == self@.subrange(lo as int, i as int),
            decreases hi - i,
        {
            let ghost before = r@.map_values(|v: Vec<u8>| v@);
            let v = copy_bytes(&self.inner[i]);
            r.push(v);
            proof {
                assert(r@.map_values(|v: Vec<u8>| v@) =~= before.push(self@[i as int]));
                assert(r@.map_values(|v: Vec<u8>| v@) =~= self@.subrange(lo as int, i + 1));
            }
            i = i + 1;
        }
        proof {
            assert(r@.map_values(|v: Vec<u8>| v@) =~= spec_lrange(
                self@,
                start as int,
                stop as int,
            ));
        }
        r
    }
}

} // verus!
