//! LPUSH: prepend values to a list.

use vstd::prelude::*;

use crate::cmd::field_builder::{BuildError, FieldBuilder};
use crate::database::{store_lpush, Database};
use crate::key::Key;
use crate::reply::{int_reply, integer_reply, reply_is_error, reply_is_integer, Reply};
use crate::value::spec_wrongtype_message;

verus! {

/// The LPUSH command: a key and one or more values.
pub struct LPush {
    pub key: Vec<u8>,
    pub values: Vec<Vec<u8>>,
}

impl LPush {
    /// Build from the request's arguments: a key and at least one value.
    pub fn build(b: &mut FieldBuilder) -> (r: Result<LPush, BuildError>)
        requires
            old(b).wf(),
        ensures
            final(b).wf(),
            match r {
                Ok(c) => old(b)@.len() >= 2 && c.key@ == old(b)@[0] && c.values@.map_values(
                    |v: Vec<u8>| v@,
                ) == old(b)@.skip(1),
                Err(_) => old(b)@.len() < 2,
            },
    {
        if b.get_total() < 2 {
            return Err(BuildError::Arity);
        }
        let key = match b.get_field() {
            Ok(v) => v,
            Err(e) => {
                return Err(e);
            },
        };
        Ok(LPush { key, values: b.take_rest() })
    }

    /// Prepend each value in order; the reply is the new length, or the
    /// standard error when the key holds another variant.
    pub fn apply(self, db: &mut Database) -> (r: Reply)
        requires
            old(db).wf(),
        ensures
            final(db).wf(),
            match store_lpush(old(db)@, self.key@, self.values@.map_values(|v: Vec<u8>| v@)) {
                Ok(p) => final(db)@ == p.0 && reply_is_integer(r, int_reply(p.1)),
                Err(_) => final(db)@ == old(db)@ && reply_is_error(r, spec_wrongtype_message()),
            },
    {
        match db.lpush(Key::new(self.key), self.values) {
            Ok(n) => integer_reply(n),
            Err(e) => Reply::Error(e.message()),
        }
    }
}

} // verus!
