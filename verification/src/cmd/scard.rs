//! SCARD: the cardinality of a set.

use vstd::prelude::*;

use crate::cmd::field_builder::{BuildError, FieldBuilder};
use crate::database::{store_scard, Database};
use crate::key::Key;
use crate::reply::{int_reply, integer_reply, reply_is_error, reply_is_integer, Reply};
use crate::value::spec_wrongtype_message;

verus! {

/// The SCARD command: one key.
pub struct Scard {
    pub key: Vec<u8>,
}

impl Scard {
    /// Build from the request's arguments: exactly one.
    pub fn build(b: &mut FieldBuilder) -> (r: Result<Scard, BuildError>)
        requires
            old(b).wf(),
        ensures
            final(b).wf(),
            match r {
                Ok(c) => old(b)@.len() == 1 && c.key@ == old(b)@[0],
                Err(_) => old(b)@.len() != 1,
            },
    {
        if b.get_total() != 1 {
            return Err(BuildError::Arity);
        }
        match b.get_field() {
            Ok(key) => Ok(Scard { key }),
            Err(e) => Err(e),
        }
    }

    /// The member count as an integer, 0 when the key is absent, the
    /// standard error on a type mismatch.
    pub fn apply(self, db: &Database) -> (r: Reply)
        requires
            db.wf(),
        ensures
            match store_scard(db@, self.key@) {
                Ok(n) => reply_is_integer(r, int_reply(n)),
                Err(_) => reply_is_error(r, spec_wrongtype_message()),
            },
    {
        match db.scard(&Key::new(self.key)) {
            Ok(n) => integer_reply(n),
            Err(e) => Reply::Error(e.message()),
        }
    }
}

} // verus!
