//! PONG: the playful converse of PING.

use vstd::prelude::*;
use vstd::string::{StrSliceExecFns, StringSliceAdditionalSpecFns};

use crate::cmd::field_builder::{BuildError, FieldBuilder};
use crate::database::Database;
use crate::reply::{reply_is_simple, Reply};

verus! {

/// The PONG command; it takes no arguments.
pub struct Pong {}

impl Pong {
    /// Build from the request's arguments.
    pub fn build(b: &mut FieldBuilder) -> (r: Result<Pong, BuildError>)
        requires
            old(b).wf(),
        ensures
            final(b).wf(),
            r is Ok <==> old(b)@.len() == 0,
    {
        if b.get_total() == 0 {
            Ok(Pong {  })
        } else {
            Err(BuildError::Arity)
        }
    }

    /// Reply `+PING`.
    #[allow(unused_variables)]
    pub fn apply(self, db: &Database) -> (r: Reply)
        ensures
            reply_is_simple(r, "PING".spec_bytes()),
    {
        Reply::Simple("PING".as_bytes_vec())
    }
}

} // verus!
