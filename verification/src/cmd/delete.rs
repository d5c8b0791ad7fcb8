//! DEL: remove keys and count how many were present.

use vstd::prelude::*;

use crate::cmd::field_builder::{BuildError, FieldBuilder};
use crate::database::{store_del, Database};
use crate::key::keys_of;
use crate::reply::{int_reply, integer_reply, reply_is_integer, Reply};

verus! {

/// The DEL command: one or more keys.
pub struct Delete {
    pub keys: Vec<Vec<u8>>,
}

impl Delete {
    /// Build from the request's arguments: at least one key.
    pub fn build(b: &mut FieldBuilder) -> (r: Result<Delete, BuildError>)
        requires
            old(b).wf(),
        ensures
            final(b).wf(),
            match r {
                Ok(c) => old(b)@.len() >= 1 && c.keys@.map_values(|v: Vec<u8>| v@) == old(b)@,
                Err(_) => old(b)@.len() == 0,
            },
    {
        if b.get_total() == 0 {
            return Err(BuildError::Arity);
        }
        Ok(Delete { keys: b.take_rest() })
    }

    /// Remove each present key; the reply counts the removals.
    pub fn apply(self, db: &mut Database) -> (r: Reply)
        requires
            old(db).wf(),
        ensures
            final(db).wf(),
            final(db)@ == store_del(old(db)@, self.keys@.map_values(|v: Vec<u8>| v@)).0,
            reply_is_integer(
                r,
                int_reply(store_del(old(db)@, self.keys@.map_values(|v: Vec<u8>| v@)).1),
            ),
    {
        let keys = keys_of(&self.keys);
        let n = db.delete(keys);
        integer_reply(n)
    }
}

} // verus!
