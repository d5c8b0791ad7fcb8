//! SMEMBERS: every member of a set, in unspecified order.

use vstd::prelude::*;

use crate::cmd::field_builder::{BuildError, FieldBuilder};
use crate::database::{store_smembers, Database};
use crate::key::Key;
use crate::reply::{bulk_array, reply_is_error, reply_is_members, Reply};
use crate::value::spec_wrongtype_message;

verus! {

/// The SMEMBERS command: one key.
pub struct Smembers {
    pub key: Vec<u8>,
}

impl Smembers {
    /// Build from the request's arguments: exactly one.
    pub fn build(b: &mut FieldBuilder) -> (r: Result<Smembers, BuildError>)
        requires
            old(b).wf(),
        ensures
            final(b).wf(),
            match r {
                Ok(c) => old(b)@.len() == 1 && c.key@ == old(b)@[0],
                Err(_) => old(b)@.len() != 1,
            },
    {
        if b.get_total() != 1 {
            return Err(BuildError::Arity);
        }
        match b.get_field() {
            Ok(key) => Ok(Smembers { key }),
            Err(e) => Err(e),
        }
    }

    /// The members, each exactly once, as an array of bulks in unspecified
    /// order; empty when the key is absent; the standard error on a type
    /// mismatch.
    pub fn apply(self, db: &Database) -> (r: Reply)
        requires
            db.wf(),
        ensures
            match store_smembers(db@, self.key@) {
                Ok(s) => reply_is_members(r, s),
                Err(_) => reply_is_error(r, spec_wrongtype_message()),
            },
    {
        match db.smembers(&Key::new(self.key)) {
            Ok(items) => {
                let r = bulk_array(items);
                r
            },
            Err(e) => Reply::Error(e.message()),
        }
    }
}

} // verus!
