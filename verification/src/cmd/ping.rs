//! PING: liveness probe.

use vstd::prelude::*;
use vstd::string::{StrSliceExecFns, StringSliceAdditionalSpecFns};

use crate::cmd::field_builder::{BuildError, FieldBuilder};
use crate::database::Database;
use crate::reply::{reply_is_simple, Reply};

verus! {

/// The PING command; it takes no arguments.
pub struct Ping {}

impl Ping {
    /// Build from the request's arguments.
    pub fn build(b: &mut FieldBuilder) -> (r: Result<Ping, BuildError>)
        requires
            old(b).wf(),
        ensures
            final(b).wf(),
            r is Ok <==> old(b)@.len() == 0,
    {
        if b.get_total() == 0 {
            Ok(Ping {  })
        } else {
            Err(BuildError::Arity)
        }
    }

    /// Reply `+PONG`.
    #[allow(unused_variables)]
    pub fn apply(self, db: &Database) -> (r: Reply)
        ensures
            reply_is_simple(r, "PONG".spec_bytes()),
    {
        Reply::Simple("PONG".as_bytes_vec())
    }
}

} // verus!
