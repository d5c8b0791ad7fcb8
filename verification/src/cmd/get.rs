//! GET: read the string under a key.

use vstd::prelude::*;

use crate::cmd::field_builder::{BuildError, FieldBuilder};
use crate::database::{store_get, Database};
use crate::key::Key;
use crate::reply::{reply_is_bulk, reply_is_error, Reply};
use crate::value::spec_wrongtype_message;

verus! {

/// The GET command: one key.
pub struct Get {
    pub key: Vec<u8>,
}

impl Get {
    /// Build from the request's arguments: exactly one.
    pub fn build(b: &mut FieldBuilder) -> (r: Result<Get, BuildError>)
        requires
            old(b).wf(),
        ensures
            final(b).wf(),
            match r {
                Ok(c) => old(b)@.len() == 1 && c.key@ == old(b)@[0],
                Err(_) => old(b)@.len() != 1,
            },
    {
        if b.get_total() != 1 {
            return Err(BuildError::Arity);
        }
        match b.get_field() {
            Ok(key) => Ok(Get { key }),
            Err(e) => Err(e),
        }
    }

    /// The stored string as a bulk, a null bulk when absent, the standard
    /// error when the key holds another variant.
    pub fn apply(self, db: &Database) -> (r: Reply)
        requires
            db.wf(),
        ensures
            match store_get(db@, self.key@) {
                Ok(o) => reply_is_bulk(r, o),
                Err(_) => reply_is_error(r, spec_wrongtype_message()),
            },
    {
        match db.get(&Key::new(self.key)) {
            Ok(Some(v)) => Reply::Bulk(Some(v)),
            Ok(None) => Reply::Bulk(None),
            Err(e) => Reply::Error(e.message()),
        }
    }
}

} // verus!
