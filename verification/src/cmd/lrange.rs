//! LRANGE: a normalized index range of a list.

use vstd::prelude::*;

use crate::cmd::field_builder::{BuildError, FieldBuilder};
use crate::database::{store_lrange, Database};
use crate::key::Key;
use crate::num::{is_signed_numeral, parse_i64, signed_val};
use crate::reply::{bulk_array, reply_is_bulk_array, reply_is_error, Reply};
use crate::value::spec_wrongtype_message;

verus! {

/// A signed numeral in the 64-bit range.
pub open spec fn i64_arg_ok(s: Seq<u8>) -> bool {
    is_signed_numeral(s) && i64::MIN <= signed_val(s) <= i64::MAX
}

/// A well-formed LRANGE argument list: a key and two 64-bit indices.
pub open spec fn lrange_args_ok(args: Seq<Seq<u8>>) -> bool {
    args.len() == 3 && i64_arg_ok(args[1]) && i64_arg_ok(args[2])
}

/// The LRANGE command: a key and an inclusive index range.
pub struct LRange {
    pub key: Vec<u8>,
    pub start: i64,
    pub stop: i64,
}

impl LRange {
    /// Build from the request's arguments: a key and two decimal indices.
    pub fn build(b: &mut FieldBuilder) -> (r: Result<LRange, BuildError>)
        requires
            old(b).wf(),
        ensures
            final(b).wf(),
            match r {
                Ok(c) => lrange_args_ok(old(b)@) && c.key@ == old(b)@[0] && c.start == signed_val(
                    old(b)@[1],
                ) && c.stop == signed_val(old(b)@[2]),
                Err(_) => !lrange_args_ok(old(b)@),
            },
    {
        if b.get_total() != 3 {
            return Err(BuildError::Arity);
        }
        let key = match b.get_field() {
            Ok(v) => v,
            Err(e) => {
                return Err(e);
            },
        };
        let start_bytes = match b.get_field() {
            Ok(v) => v,
            Err(e) => {
                return Err(e);
            },
        };
        let stop_bytes = match b.get_field() {
            Ok(v) => v,
            Err(e) => {
                return Err(e);
            },
        };
        let start = match parse_i64(start_bytes.as_slice()) {
            Some(n) => n,
            None => {
                return Err(BuildError::BadInteger);
            },
        };
        let stop = match parse_i64(stop_bytes.as_slice()) {
            Some(n) => n,
            None => {
                return Err(BuildError::BadInteger);
            },
        };
        Ok(LRange { key, start, stop })
    }

    /// The selected elements as an array of bulks, empty when the key is
    /// absent, the standard error on a type mismatch.
    pub fn apply(self, db: &Database) -> (r: Reply)
        requires
            db.wf(),
        ensures
            match store_lrange(db@, self.key@, self.start as int, self.stop as int) {
                Ok(items) => reply_is_bulk_array(r, items),
                Err(_) => reply_is_error(r, spec_wrongtype_message()),
            },
    {
        match db.lrange(&Key::new(self.key), self.start, self.stop) {
            Ok(items) => bulk_array(items),
            Err(e) => Reply::Error(e.message()),
        }
    }
}

} // verus!
