//! The set container: unique byte strings with insertion, membership count
//! and enumeration in unspecified order, backed by a hash set.

use vstd::prelude::*;

verus! {

/// An unordered collection of unique byte strings.
#[verifier::external_body]
pub struct SetMembers {
    inner: hashbrown::HashSet<Vec<u8>>,
}

/// The members held by a [`SetMembers`].
pub uninterp spec fn set_view(s: SetMembers) -> Set<Seq<u8>>;

/// Members added one by one: the resulting member set, and how many of the
/// given values were not already present.
pub open spec fn spec_sadd(s: Set<Seq<u8>>, ms: Seq<Seq<u8>>) -> (Set<Seq<u8>>, nat)
    decreases ms.len(),
{
    if ms.len() == 0 {
        (s, 0)
    } else {
        let fresh: nat = if s.contains(ms[0]) {
            0
        } else {
            1
        };
        let rest = spec_sadd(s.insert(ms[0]), ms.skip(1));
        (rest.0, fresh + rest.1)
    }
}

impl SetMembers {
    /// Relies on hashbrown::HashSet::new: an empty set.
    #[verifier::external_body]
    pub fn new() -> (r: SetMembers)
        ensures
            set_view(r) == Set::<Seq<u8>>::empty(),
    {
        SetMembers { inner: hashbrown::HashSet::new() }
    }

    /// Relies on hashbrown::HashSet::insert: adds one value and reports
    /// whether it was absent before.
    #[verifier::external_body]
    fn insert(&mut self, value: Vec<u8>) -> (r: bool)
        ensures
            set_view(*final(self)) == set_view(*old(self)).insert(value@),
            r == !set_view(*old(self)).contains(value@),
    {
        self.inner.insert(value)
    }

    /// Relies on hashbrown::HashSet::len: the number of members.
    #[verifier::external_body]
    pub fn scard(&self) -> (r: usize)
        ensures
            r == set_view(*self).len(),
    {
        self.inner.len()
    }

    /// Relies on hashbrown::HashSet::iter: every member exactly once, in
    /// unspecified order.
    #[verifier::external_body]
    pub fn smembers(&self) -> (r: Vec<Vec<u8>>)
        ensures
            r@.map_values(|v: Vec<u8>| v@).to_set() == set_view(*self),
            r@.map_values(|v: Vec<u8>| v@).no_duplicates(),
            r@.len() == set_view(*self).len(),
    {
        let mut out: Vec<Vec<u8>> = Vec::new();
        for v in self.inner.iter() {
            out.push(v.clone());
        }
        out
    }

    /// Insert each member in order; the result counts those that were new.
    pub fn sadd(&mut self, members: Vec<Vec<u8>>) -> (r: usize)
        ensures
            set_view(*final(self)) == spec_sadd(
                set_view(*old(self)),
                members@.map_values(|v: Vec<u8>| v@),
            ).0,
            r == spec_sadd(set_view(*old(self)), members@.map_values(|v: Vec<u8>| v@)).1,
            set_view(*old(self)).finite() ==> set_view(*final(self)).finite(),
    {
        let ghost ms = members@.map_values(|v: Vec<u8>| v@);
        let mut members = members;
        let mut count: usize = 0;
        let mut i: usize = 0;
        proof {
            assert(ms.skip(0) =~= ms);
        }
        while i < members.len()
            invariant
                i <= ms.len(),
                members@.map_values(|v: Vec<u8>| v@) == ms,
                count <= i,
                spec_sadd(set_view(*old(self)), ms).0 == spec_sadd(
                    set_view(*self),
                    ms.skip(i as int),
                ).0,
                spec_sadd(set_view(*old(self)), ms).1 == count + spec_sadd(
                    set_view(*self),
                    ms.skip(i as int),
                ).1,
                set_view(*old(self)).finite() ==> set_view(*self).finite(),
            decreases ms.len() - i,
        {
            let ghost mid = set_view(*self);
            let v = crate::util::copy_bytes(&members[i]);
            let fresh = self.insert(v);
            proof {
                assert(ms.skip(i as int)[0] == ms[i as int]);
                assert(ms.skip(i as int).skip(1) =~= ms.skip(i + 1));
            }
            if fresh {
                count = count + 1;
            }
            i = i + 1;
        }
        proof {
            assert(ms.skip(ms.len() as int) =~= Seq::<Seq<u8>>::empty());
        }
        count
    }
}

} // verus!
