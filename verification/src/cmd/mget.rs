//! MGET: read several strings at once, one reply entry per key.

use vstd::prelude::*;

use crate::cmd::field_builder::{BuildError, FieldBuilder};
use crate::database::{store_mget, Database};
use crate::key::keys_of;
use crate::reply::{optbulk_array, reply_is_optbulk_array, Reply};

verus! {

/// The MGET command: one or more keys.
pub struct MGet {
    pub keys: Vec<Vec<u8>>,
}

impl MGet {
    /// Build from the request's arguments: at least one key.
    pub fn build(b: &mut FieldBuilder) -> (r: Result<MGet, BuildError>)
        requires
            old(b).wf(),
        ensures
            final(b).wf(),
            match r {
                Ok(c) => old(b)@.len() >= 1 && c.keys@.map_values(|v: Vec<u8>| v@) == old(b)@,
                Err(_) => old(b)@.len() == 0,
            },
    {
        if b.get_total() == 0 {
            return Err(BuildError::Arity);
        }
        Ok(MGet { keys: b.take_rest() })
    }

    /// One bulk or null bulk per key, aligned with the input; never an
    /// error.
    pub fn apply(self, db: &Database) -> (r: Reply)
        requires
            db.wf(),
        ensures
            reply_is_optbulk_array(r, store_mget(db@, self.keys@.map_values(|v: Vec<u8>| v@))),
    {
        let keys = keys_of(&self.keys);
        let found = db.mget(&keys);
        let r = optbulk_array(found);
        proof {
            let ks = self.keys@.map_values(|v: Vec<u8>| v@);
            let its = found@.map_values(
                |o: Option<Vec<u8>>|
                    match o {
                        Some(v) => Some(v@),
                        None => None,
                    },
            );
            assert(its =~= store_mget(db@, ks));
        }
        r
    }
}

} // verus!
