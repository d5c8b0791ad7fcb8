//! MSET: store several strings at once, each pair written independently.

use vstd::prelude::*;
use vstd::string::{StrSliceExecFns, StringSliceAdditionalSpecFns};

use crate::cmd::field_builder::{BuildError, FieldBuilder};
use crate::database::{store_mset, Database};
use crate::key::Key;
use crate::reply::{reply_is_simple, Reply};

verus! {

/// Consecutive arguments paired up as key and value.
pub open spec fn pair_up(args: Seq<Seq<u8>>) -> Seq<(Seq<u8>, Seq<u8>)>
    decreases args.len(),
{
    if args.len() < 2 {
        Seq::empty()
    } else {
        seq![(args[0], args[1])] + pair_up(args.skip(2))
    }
}

/// The MSET command: one or more key-value pairs.
pub struct MSet {
    pub pairs: Vec<(Vec<u8>, Vec<u8>)>,
}

impl MSet {
    /// Build from the request's arguments: an even, positive number of
    /// them.
    pub fn build(b: &mut FieldBuilder) -> (r: Result<MSet, BuildError>)
        requires
            old(b).wf(),
        ensures
            final(b).wf(),
            match r {
                Ok(c) => old(b)@.len() >= 2 && old(b)@.len() % 2 == 0 && c.pairs@.map_values(
                    |p: (Vec<u8>, Vec<u8>)| (p.0@, p.1@),
                ) == pair_up(old(b)@),
                Err(_) => !(old(b)@.len() >= 2 && old(b)@.len() % 2 == 0),
            },
    {
        let total = b.get_total();
        if total < 2 || total % 2 != 0 {
            return Err(BuildError::Arity);
        }
        let ghost args = b@;
        let mut pairs: Vec<(Vec<u8>, Vec<u8>)> = Vec::new();
        proof {
            assert(pairs@.map_values(|p: (Vec<u8>, Vec<u8>)| (p.0@, p.1@)) =~= Seq::<(
                Seq<u8>,
                Seq<u8>,
            )>::empty());
            assert(Seq::<(Seq<u8>, Seq<u8>)>::empty() + pair_up(args) =~= pair_up(args));
        }
        while b.get_total() >= 2
            invariant
                b.wf(),
                b@.len() % 2 == 0,
                pair_up(args) == pairs@.map_values(|p: (Vec<u8>, Vec<u8>)| (p.0@, p.1@)) + pair_up(
                    b@,
                ),
            decreases b@.len(),
        {
            let ghost done = pairs@.map_values(|p: (Vec<u8>, Vec<u8>)| (p.0@, p.1@));
            let ghost before = b@;
            let key = match b.get_field() {
                Ok(v) => v,
                Err(_) => {
                    proof {
                        assert(false);
                    }
                    return Err(BuildError::Arity);
                },
            };
            let value = match b.get_field() {
                Ok(v) => v,
                Err(_) => {
                    proof {
                        assert(false);
                    }
                    return Err(BuildError::Arity);
                },
            };
            let ghost gp = (key@, value@);
            pairs.push((key, value));
            proof {
                assert(before.skip(1).skip(1) =~= before.skip(2));
                assert(pair_up(before) == seq![gp] + pair_up(b@));
                assert(pairs@.map_values(|p: (Vec<u8>, Vec<u8>)| (p.0@, p.1@)) =~= done.push(gp));
                assert(done + (seq![gp] + pair_up(b@)) =~= done.push(gp) + pair_up(b@));
            }
        }
        proof {
            assert(pair_up(b@) =~= Seq::<(Seq<u8>, Seq<u8>)>::empty());
            assert(pairs@.map_values(|p: (Vec<u8>, Vec<u8>)| (p.0@, p.1@)) + Seq::<(
                Seq<u8>,
                Seq<u8>,
            )>::empty() =~= pairs@.map_values(|p: (Vec<u8>, Vec<u8>)| (p.0@, p.1@)));
        }
        Ok(MSet { pairs })
    }

    /// Write every pair and reply `+OK`.
    pub fn apply(self, db: &mut Database) -> (r: Reply)
        requires
            old(db).wf(),
        ensures
            final(db).wf(),
            final(db)@ == store_mset(
                old(db)@,
                self.pairs@.map_values(|p: (Vec<u8>, Vec<u8>)| (p.0@, p.1@)),
            ),
            reply_is_simple(r, "OK".spec_bytes()),
    {
        let ghost ps = self.pairs@.map_values(|p: (Vec<u8>, Vec<u8>)| (p.0@, p.1@));
        let mut converted: Vec<(Key, Vec<u8>)> = Vec::new();
        let mut i: usize = 0;
        let pairs = self.pairs;
        while i < pairs.len()
            invariant
                i <= ps.len(),
                ps == pairs@.map_values(|p: (Vec<u8>, Vec<u8>)| (p.0@, p.1@)),
                converted@.len() == i,
                forall|j: int|
                    0 <= j < i ==> ((#[trigger] converted@[j]).0@, converted@[j].1@) == ps[j],
            decreases ps.len() - i,
        {
            let k = Key::new(crate::util::copy_bytes(&pairs[i].0));
            let v = crate::util::copy_bytes(&pairs[i].1);
            converted.push((k, v));
            i = i + 1;
        }
        proof {
            assert(converted@.map_values(|p: (Key, Vec<u8>)| (p.0@, p.1@)) =~= ps);
        }
        db.mset(converted);
        Reply::Simple("OK".as_bytes_vec())
    }
}

} // verus!
