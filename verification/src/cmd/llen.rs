//! LLEN: the length of a list.

use vstd::prelude::*;

use crate::cmd::field_builder::{BuildError, FieldBuilder};
use crate::database::{store_llen, Database};
use crate::key::Key;
use crate::reply::{int_reply, integer_reply, reply_is_error, reply_is_integer, Reply};
use crate::value::spec_wrongtype_message;

verus! {

/// The LLEN command: one key.
pub struct LLen {
    pub key: Vec<u8>,
}

impl LLen {
    /// Build from the request's arguments: exactly one.
    pub fn build(b: &mut FieldBuilder) -> (r: Result<LLen, BuildError>)
        requires
            old(b).wf(),
        ensures
            final(b).wf(),
            match r {
                Ok(c) => old(b)@.len() == 1 && c.key@ == old(b)@[0],
                Err(_) => old(b)@.len() != 1,
            },
    {
        if b.get_total() != 1 {
            return Err(BuildError::Arity);
        }
        match b.get_field() {
            Ok(key) => Ok(LLen { key }),
            Err(e) => Err(e),
        }
    }

    /// The list length as an integer, 0 when the key is absent, the
    /// standard error on a type mismatch.
    pub fn apply(self, db: &Database) -> (r: Reply)
        requires
            db.wf(),
        ensures
            match store_llen(db@, self.key@) {
                Ok(n) => reply_is_integer(r, int_reply(n)),
                Err(_) => reply_is_error(r, spec_wrongtype_message()),
            },
    {
        match db.llen(&Key::new(self.key)) {
            Ok(n) => integer_reply(n),
            Err(e) => Reply::Error(e.message()),
        }
    }
}

} // verus!
