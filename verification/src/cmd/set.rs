//! SET: store a string under a key, with optional expiry arguments that
//! are decoded but not enforced.

use vstd::prelude::*;
use vstd::string::{StrSliceExecFns, StringSliceAdditionalSpecFns};

use crate::cmd::field_builder::{BuildError, FieldBuilder};
use crate::database::{store_set, Database};
use crate::key::Key;
use crate::num::{dec_val, is_numeral, parse_u128, parse_u64};
use crate::reply::{reply_is_simple, Reply};

verus! {

/// A well-formed SET argument list: key, value, and up to two decimal
/// expiry arguments.
pub open spec fn set_args_ok(args: Seq<Seq<u8>>) -> bool {
    &&& 2 <= args.len() <= 4
    &&& args.len() >= 3 ==> is_numeral(args[2]) && dec_val(args[2]) <= u64::MAX
    &&& args.len() >= 4 ==> is_numeral(args[3]) && dec_val(args[3]) <= u128::MAX
}

/// The SET command: key, value, and the expiry arguments it ignores.
pub struct SetCmd {
    pub key: Vec<u8>,
    pub value: Vec<u8>,
    pub expire_seconds: Option<u64>,
    pub expire_milliseconds: Option<u128>,
}

impl SetCmd {
    /// Build from the request's arguments.
    pub fn build(b: &mut FieldBuilder) -> (r: Result<SetCmd, BuildError>)
        requires
            old(b).wf(),
        ensures
            final(b).wf(),
            match r {
                Ok(c) => set_args_ok(old(b)@) && c.key@ == old(b)@[0] && c.value@ == old(b)@[1],
                Err(_) => !set_args_ok(old(b)@),
            },
    {
        let total = b.get_total();
        if total < 2 || total > 4 {
            return Err(BuildError::Arity);
        }
        let key = match b.get_field() {
            Ok(v) => v,
            Err(e) => {
                return Err(e);
            },
        };
        let value = match b.get_field() {
            Ok(v) => v,
            Err(e) => {
                return Err(e);
            },
        };
        let expire_seconds: Option<u64> = match b.get_field_option() {
            None => None,
            Some(bytes) => match parse_u64(bytes.as_slice()) {
                Some(n) => Some(n),
                None => {
                    return Err(BuildError::BadInteger);
                },
            },
        };
        let expire_milliseconds: Option<u128> = match b.get_field_option() {
            None => None,
            Some(bytes) => match parse_u128(bytes.as_slice()) {
                Some(n) => Some(n),
                None => {
                    return Err(BuildError::BadInteger);
                },
            },
        };
        Ok(SetCmd { key, value, expire_seconds, expire_milliseconds })
    }

    /// Store the value and reply `+OK`.  Expiry is not enforced: the value
    /// lives until deleted or overwritten.
    pub fn apply(self, db: &mut Database) -> (r: Reply)
        requires
            old(db).wf(),
        ensures
            final(db).wf(),
            final(db)@ == store_set(old(db)@, self.key@, self.value@),
            reply_is_simple(r, "OK".spec_bytes()),
    {
        db.set(Key::new(self.key), self.value, self.expire_seconds, self.expire_milliseconds);
        Reply::Simple("OK".as_bytes_vec())
    }
}

} // verus!
