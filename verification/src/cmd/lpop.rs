//! LPOP: remove and return the head of a list.

use vstd::prelude::*;

use crate::cmd::field_builder::{BuildError, FieldBuilder};
use crate::database::{store_lpop, Database};
use crate::key::Key;
use crate::reply::{reply_is_bulk, reply_is_error, Reply};
use crate::value::spec_wrongtype_message;

verus! {

/// The LPOP command: one key.
pub struct LPop {
    pub key: Vec<u8>,
}

impl LPop {
    /// Build from the request's arguments: exactly one.
    pub fn build(b: &mut FieldBuilder) -> (r: Result<LPop, BuildError>)
        requires
            old(b).wf(),
        ensures
            final(b).wf(),
            match r {
                Ok(c) => old(b)@.len() == 1 && c.key@ == old(b)@[0],
                Err(_) => old(b)@.len() != 1,
            },
    {
        if b.get_total() != 1 {
            return Err(BuildError::Arity);
        }
        match b.get_field() {
            Ok(key) => Ok(LPop { key }),
            Err(e) => Err(e),
        }
    }

    /// The head element as a bulk, a null bulk when the key is absent or
    /// the list empty, the standard error on a type mismatch.
    pub fn apply(self, db: &mut Database) -> (r: Reply)
        requires
            old(db).wf(),
        ensures
            final(db).wf(),
            match store_lpop(old(db)@, self.key@) {
                Ok(p) => final(db)@ == p.0 && reply_is_bulk(r, p.1),
                Err(_) => final(db)@ == old(db)@ && reply_is_error(r, spec_wrongtype_message()),
            },
    {
        match db.lpop(&Key::new(self.key)) {
            Ok(Some(v)) => Reply::Bulk(Some(v)),
            Ok(None) => Reply::Bulk(None),
            Err(e) => Reply::Error(e.message()),
        }
    }
}

} // verus!
