//! The per-request pipeline: from a decoded request (an array of bulk
//! strings) through typed dispatch to a reply value.

use vstd::prelude::*;
use vstd::string::{StrSliceExecFns, StringSliceAdditionalSpecFns};

use crate::cmd::delete::Delete;
use crate::cmd::field_builder::FieldBuilder;
use crate::cmd::get::Get;
use crate::cmd::llen::LLen;
use crate::cmd::lpop::LPop;
use crate::cmd::lpush::LPush;
use crate::cmd::lrange::{lrange_args_ok, LRange};
use crate::cmd::mget::MGet;
use crate::cmd::mset::{pair_up, MSet};
use crate::cmd::ping::Ping;
use crate::cmd::pong::Pong;
use crate::cmd::rpop::RPop;
use crate::cmd::rpush::RPush;
use crate::cmd::sadd::SAdd;
use crate::cmd::scard::Scard;
use crate::cmd::set::{set_args_ok, SetCmd};
use crate::cmd::smembers::Smembers;
use crate::database::{
    store_del, store_get, store_llen, store_lpop, store_lpush, store_lrange, store_mget,
    store_mset, store_rpop, store_rpush, store_sadd, store_scard, store_set, store_smembers,
    Database, empty_store,
};
use crate::num::signed_val;
use crate::reply::{
    append_bytes, int_reply, reply_is_bulk, reply_is_bulk_array, reply_is_error, reply_is_integer,
    reply_is_members, reply_is_optbulk_array, reply_is_simple, Reply,
};
use crate::util::{bytes_eq, spec_upper, to_upper};
use crate::value::{spec_wrongtype_message, ValueModel};

verus! {

/// The prefix of every protocol error reply.
pub open spec fn spec_proto_prefix() -> Seq<u8> {
    "ERR protocol error: ".spec_bytes()
}

/// The reply to a command nobody knows.
pub open spec fn spec_unknown_message() -> Seq<u8> {
    "ERR unknown command".spec_bytes()
}

/// `r` is the protocol error carrying exactly this detail.
pub open spec fn reply_is_proto_error(r: Reply, detail: Seq<u8>) -> bool {
    reply_is_error(r, spec_proto_prefix() + detail)
}

/// `r` is a protocol error, whatever its detail.
pub open spec fn reply_is_some_proto_error(r: Reply) -> bool {
    r matches Reply::Error(v) && v@.len() >= spec_proto_prefix().len() && v@.take(
        spec_proto_prefix().len() as int,
    ) == spec_proto_prefix()
}

/// One six-field entry of the COMMAND introspection reply.
pub open spec fn command_info_entry(
    e: Reply,
    name: Seq<u8>,
    arity: int,
    flags: Seq<Seq<u8>>,
    first: int,
    last: int,
    step: int,
) -> bool {
    &&& e matches Reply::Array(fs)
    &&& fs@.len() == 6
    &&& reply_is_bulk(fs@[0], Some(name))
    &&& reply_is_integer(fs@[1], arity)
    &&& (fs@[2] matches Reply::Array(fl) && fl@.len() == flags.len() && (forall|i: int|
        0 <= i < flags.len() ==> reply_is_simple(#[trigger] fl@[i], flags[i])))
    &&& reply_is_integer(fs@[3], first)
    &&& reply_is_integer(fs@[4], last)
    &&& reply_is_integer(fs@[5], step)
}

/// The static COMMAND reply: three entries, enough for standard client
/// handshakes.
pub open spec fn reply_is_command_info(r: Reply) -> bool {
    &&& r matches Reply::Array(es)
    &&& es@.len() == 3
    &&& command_info_entry(
        es@[0],
        "ping".spec_bytes(),
        -1,
        seq!["stable".spec_bytes(), "fast".spec_bytes()],
        0,
        0,
        0,
    )
    &&& command_info_entry(
        es@[1],
        "command".spec_bytes(),
        0,
        seq!["random".spec_bytes(), "loading".spec_bytes(), "stable".spec_bytes()],
        0,
        0,
        0,
    )
    &&& command_info_entry(
        es@[2],
        "set".spec_bytes(),
        -3,
        seq!["write".spec_bytes(), "denyoom".spec_bytes()],
        1,
        1,
        1,
    )
}

/// What one dispatched request does to the store and what it replies.
/// `bulks` is the decoded request; command names are ASCII
/// case-insensitive; a write that fails leaves the store unchanged.
pub open spec fn process_post(
    pre: Map<Seq<u8>, ValueModel>,
    post: Map<Seq<u8>, ValueModel>,
    bulks: Seq<Seq<u8>>,
    r: Reply,
) -> bool {
    if bulks.len() == 0 {
        post == pre && reply_is_some_proto_error(r)
    } else {
        let name = spec_upper(bulks[0]);
        let args = bulks.skip(1);
        if name == "PING".spec_bytes() {
            post == pre && if args.len() == 0 {
                reply_is_simple(r, "PONG".spec_bytes())
            } else {
                reply_is_some_proto_error(r)
            }
        } else if name == "PONG".spec_bytes() {
            post == pre && if args.len() == 0 {
                reply_is_simple(r, "PING".spec_bytes())
            } else {
                reply_is_some_proto_error(r)
            }
        } else if name == "COMMAND".spec_bytes() {
            post == pre && reply_is_command_info(r)
        } else if name == "CONFIG".spec_bytes() {
            post == pre && reply_is_simple(r, "OK".spec_bytes())
        } else if name == "SET".spec_bytes() {
            if set_args_ok(args) {
                post == store_set(pre, args[0], args[1]) && reply_is_simple(r, "OK".spec_bytes())
            } else {
                post == pre && reply_is_some_proto_error(r)
            }
        } else if name == "GET".spec_bytes() {
            post == pre && if args.len() == 1 {
                match store_get(pre, args[0]) {
                    Ok(o) => reply_is_bulk(r, o),
                    Err(_) => reply_is_error(r, spec_wrongtype_message()),
                }
            } else {
                reply_is_some_proto_error(r)
            }
        } else if name == "DEL".spec_bytes() {
            if args.len() >= 1 {
                post == store_del(pre, args).0 && reply_is_integer(
                    r,
                    int_reply(store_del(pre, args).1),
                )
            } else {
                post == pre && reply_is_some_proto_error(r)
            }
        } else if name == "MGET".spec_bytes() {
            post == pre && if args.len() >= 1 {
                reply_is_optbulk_array(r, store_mget(pre, args))
            } else {
                reply_is_some_proto_error(r)
            }
        } else if name == "MSET".spec_bytes() {
            if args.len() >= 2 && args.len() % 2 == 0 {
                post == store_mset(pre, pair_up(args)) && reply_is_simple(r, "OK".spec_bytes())
            } else {
                post == pre && reply_is_some_proto_error(r)
            }
        } else if name == "LPUSH".spec_bytes() {
            if args.len() >= 2 {
                match store_lpush(pre, args[0], args.skip(1)) {
                    Ok(p) => post == p.0 && reply_is_integer(r, int_reply(p.1)),
                    Err(_) => post == pre && reply_is_error(r, spec_wrongtype_message()),
                }
            } else {
                post == pre && reply_is_some_proto_error(r)
            }
        } else if name == "RPUSH".spec_bytes() {
            if args.len() >= 2 {
                match store_rpush(pre, args[0], args.skip(1)) {
                    Ok(p) => post == p.0 && reply_is_integer(r, int_reply(p.1)),
                    Err(_) => post == pre && reply_is_error(r, spec_wrongtype_message()),
                }
            } else {
                post == pre && reply_is_some_proto_error(r)
            }
        } else if name == "LPOP".spec_bytes() {
            if args.len() == 1 {
                match store_lpop(pre, args[0]) {
                    Ok(p) => post == p.0 && reply_is_bulk(r, p.1),
                    Err(_) => post == pre && reply_is_error(r, spec_wrongtype_message()),
                }
            } else {
                post == pre && reply_is_some_proto_error(r)
            }
        } else if name == "RPOP".spec_bytes() {
            if args.len() == 1 {
                match store_rpop(pre, args[0]) {
                    Ok(p) => post == p.0 && reply_is_bulk(r, p.1),
                    Err(_) => post == pre && reply_is_error(r, spec_wrongtype_message()),
                }
            } else {
                post == pre && reply_is_some_proto_error(r)
            }
        } else if name == "LLEN".spec_bytes() {
            post == pre && if args.len() == 1 {
                match store_llen(pre, args[0]) {
                    Ok(n) => reply_is_integer(r, int_reply(n)),
                    Err(_) => reply_is_error(r, spec_wrongtype_message()),
                }
            } else {
                reply_is_some_proto_error(r)
            }
        } else if name == "LRANGE".spec_bytes() {
            post == pre && if lrange_args_ok(args) {
                match store_lrange(pre, args[0], signed_val(args[1]), signed_val(args[2])) {
                    Ok(items) => reply_is_bulk_array(r, items),
                    Err(_) => reply_is_error(r, spec_wrongtype_message()),
                }
            } else {
                reply_is_some_proto_error(r)
            }
        } else if name == "SADD".spec_bytes() {
            if args.len() >= 2 {
                match store_sadd(pre, args[0], args.skip(1)) {
                    Ok(p) => post == p.0 && reply_is_integer(r, int_reply(p.1)),
                    Err(_) => post == pre && reply_is_error(r, spec_wrongtype_message()),
                }
            } else {
                post == pre && reply_is_some_proto_error(r)
            }
        } else if name == "SCARD".spec_bytes() {
            post == pre && if args.len() == 1 {
                match store_scard(pre, args[0]) {
                    Ok(n) => reply_is_integer(r, int_reply(n)),
                    Err(_) => reply_is_error(r, spec_wrongtype_message()),
                }
            } else {
                reply_is_some_proto_error(r)
            }
        } else if name == "SMEMBERS".spec_bytes() {
            post == pre && if args.len() == 1 {
                match store_smembers(pre, args[0]) {
                    Ok(s) => reply_is_members(r, s),
                    Err(_) => reply_is_error(r, spec_wrongtype_message()),
                }
            } else {
                reply_is_some_proto_error(r)
            }
        } else {
            post == pre && reply_is_error(r, spec_unknown_message())
        }
    }
}

/// A protocol error reply carrying the given detail.
pub fn proto_error(detail: Vec<u8>) -> (r: Reply)
    ensures
        reply_is_proto_error(r, detail@),
        reply_is_some_proto_error(r),
{
    let mut msg = "ERR protocol error: ".as_bytes_vec();
    append_bytes(&mut msg, detail.as_slice());
    proof {
        assert(msg@.take(spec_proto_prefix().len() as int) =~= spec_proto_prefix());
    }
    Reply::Error(msg)
}

/// One six-field COMMAND entry.
fn info_entry(
    name: Vec<u8>,
    arity: i64,
    flags: Vec<Vec<u8>>,
    first: i64,
    last: i64,
    step: i64,
) -> (e: Reply)
    ensures
        command_info_entry(
            e,
            name@,
            arity as int,
            flags@.map_values(|v: Vec<u8>| v@),
            first as int,
            last as int,
            step as int,
        ),
{
    let ghost fls = flags@.map_values(|v: Vec<u8>| v@);
    let mut flag_rs: Vec<Reply> = Vec::new();
    let mut i: usize = 0;
    while i < flags.len()
        invariant
            i <= fls.len(),
            fls == flags@.map_values(|v: Vec<u8>| v@),
            flag_rs@.len() == i,
            forall|j: int| 0 <= j < i ==> reply_is_simple(#[trigger] flag_rs@[j], fls[j]),
        decreases fls.len() - i,
    {
        flag_rs.push(Reply::Simple(crate::util::copy_bytes(&flags[i])));
        i = i + 1;
    }
    let mut fs: Vec<Reply> = Vec::new();
    fs.push(Reply::Bulk(Some(name)));
    fs.push(Reply::Integer(arity));
    fs.push(Reply::Array(flag_rs));
    fs.push(Reply::Integer(first));
    fs.push(Reply::Integer(last));
    fs.push(Reply::Integer(step));
    Reply::Array(fs)
}

/// The connection-facing half of the server: it owns the store and turns
/// each decoded request into a reply.
pub struct Service {
    db: Database,
}

impl Service {
    /// The store's content.
    pub closed spec fn view(&self) -> Map<Seq<u8>, ValueModel> {
        self.db@
    }

    /// The store underneath is sound.
    pub closed spec fn wf(&self) -> bool {
        self.db.wf()
    }

    /// A service over the given store.
    pub fn new(db: Database) -> (r: Service)
        requires
            db.wf(),
        ensures
            r.wf(),
            r@ == db@,
    {
        Service { db }
    }

    /// A service over an empty store.
    pub fn empty() -> (r: Service)
        ensures
            r.wf(),
            r@ == empty_store(),
    {
        Service { db: Database::new() }
    }

    /// The static introspection reply for COMMAND.
    pub fn command_reply() -> (r: Reply)
        ensures
            reply_is_command_info(r),
    {
        let mut ping_flags: Vec<Vec<u8>> = Vec::new();
        ping_flags.push("stable".as_bytes_vec());
        ping_flags.push("fast".as_bytes_vec());
        let e0 = info_entry("ping".as_bytes_vec(), -1, ping_flags, 0, 0, 0);
        let mut command_flags: Vec<Vec<u8>> = Vec::new();
        command_flags.push("random".as_bytes_vec());
        command_flags.push("loading".as_bytes_vec());
        command_flags.push("stable".as_bytes_vec());
        let e1 = info_entry("command".as_bytes_vec(), 0, command_flags, 0, 0, 0);
        let mut set_flags: Vec<Vec<u8>> = Vec::new();
        set_flags.push("write".as_bytes_vec());
        set_flags.push("denyoom".as_bytes_vec());
        let e2 = info_entry("set".as_bytes_vec(), -3, set_flags, 1, 1, 1);
        let mut es: Vec<Reply> = Vec::new();
        es.push(e0);
        es.push(e1);
        es.push(e2);
        Reply::Array(es)
    }

    /// The encoded reply to PING.
    pub fn ping_reply() -> (r: Vec<u8>)
        ensures
            r@ == seq![43u8] + "PONG".spec_bytes() + crate::reply::spec_crlf(),
    {
        let mut v: Vec<u8> = Vec::new();
        v.push(43);
        append_bytes(&mut v, "PONG".as_bytes());
        v.push(13);
        v.push(10);
        proof {
            assert(v@ =~= seq![43u8] + "PONG".spec_bytes() + crate::reply::spec_crlf());
        }
        v
    }

    /// The encoded reply to SET and CONFIG.
    pub fn ok_reply() -> (r: Vec<u8>)
        ensures
            r@ == seq![43u8] + "OK".spec_bytes() + crate::reply::spec_crlf(),
    {
        let mut v: Vec<u8> = Vec::new();
        v.push(43);
        append_bytes(&mut v, "OK".as_bytes());
        v.push(13);
        v.push(10);
        proof {
            assert(v@ =~= seq![43u8] + "OK".spec_bytes() + crate::reply::spec_crlf());
        }
        v
    }

    /// Dispatch one decoded request: build the command record, apply it to
    /// the store, and return the reply.  Arity and conversion failures
    /// reply with a protocol error; an unknown name replies with the
    /// unknown-command error; neither touches the store.
    pub fn process(&mut self, bulks: Vec<Vec<u8>>) -> (r: Reply)
        requires
            old(self).wf(),
        ensures
            final(self).wf(),
            process_post(old(self)@, final(self)@, bulks@.map_values(|v: Vec<u8>| v@), r),
    {
        let ghost gbulks = bulks@.map_values(|v: Vec<u8>| v@);
        if bulks.len() == 0 {
            return proto_error("empty request".as_bytes_vec());
        }
        let name = to_upper(bulks[0].as_slice());
        let mut builder = FieldBuilder::new(bulks, 1);
        proof {
            assert(builder@ == gbulks.skip(1));
        }
        if bytes_eq(name.as_slice(), "PING".as_bytes()) {
            match Ping::build(&mut builder) {
                Ok(c) => c.apply(&self.db),
                Err(e) => proto_error(e.message()),
            }
        } else if bytes_eq(name.as_slice(), "PONG".as_bytes()) {
            match Pong::build(&mut builder) {
                Ok(c) => c.apply(&self.db),
                Err(e) => proto_error(e.message()),
            }
        } else if bytes_eq(name.as_slice(), "COMMAND".as_bytes()) {
            Self::command_reply()
        } else if bytes_eq(name.as_slice(), "CONFIG".as_bytes()) {
            Reply::Simple("OK".as_bytes_vec())
        } else if bytes_eq(name.as_slice(), "SET".as_bytes()) {
            match SetCmd::build(&mut builder) {
                Ok(c) => c.apply(&mut self.db),
                Err(e) => proto_error(e.message()),
            }
        } else if bytes_eq(name.as_slice(), "GET".as_bytes()) {
            match Get::build(&mut builder) {
                Ok(c) => c.apply(&self.db),
                Err(e) => proto_error(e.message()),
            }
        } else if bytes_eq(name.as_slice(), "DEL".as_bytes()) {
            match Delete::build(&mut builder) {
                Ok(c) => c.apply(&mut self.db),
                Err(e) => proto_error(e.message()),
            }
        } else if bytes_eq(name.as_slice(), "MGET".as_bytes()) {
            match MGet::build(&mut builder) {
                Ok(c) => c.apply(&self.db),
                Err(e) => proto_error(e.message()),
            }
        } else if bytes_eq(name.as_slice(), "MSET".as_bytes()) {
            match MSet::build(&mut builder) {
                Ok(c) => c.apply(&mut self.db),
                Err(e) => proto_error(e.message()),
            }
        } else if bytes_eq(name.as_slice(), "LPUSH".as_bytes()) {
            match LPush::build(&mut builder) {
                Ok(c) => c.apply(&mut self.db),
                Err(e) => proto_error(e.message()),
            }
        } else if bytes_eq(name.as_slice(), "RPUSH".as_bytes()) {
            match RPush::build(&mut builder) {
                Ok(c) => c.apply(&mut self.db),
                Err(e) => proto_error(e.message()),
            }
        } else if bytes_eq(name.as_slice(), "LPOP".as_bytes()) {
            match LPop::build(&mut builder) {
                Ok(c) => c.apply(&mut self.db),
                Err(e) => proto_error(e.message()),
            }
        } else if bytes_eq(name.as_slice(), "RPOP".as_bytes()) {
            match RPop::build(&mut builder) {
                Ok(c) => c.apply(&mut self.db),
                Err(e) => proto_error(e.message()),
            }
        } else if bytes_eq(name.as_slice(), "LLEN".as_bytes()) {
            match LLen::build(&mut builder) {
                Ok(c) => c.apply(&self.db),
                Err(e) => proto_error(e.message()),
            }
        } else if bytes_eq(name.as_slice(), "LRANGE".as_bytes()) {
            match LRange::build(&mut builder) {
                Ok(c) => c.apply(&self.db),
                Err(e) => proto_error(e.message()),
            }
        } else if bytes_eq(name.as_slice(), "SADD".as_bytes()) {
            match SAdd::build(&mut builder) {
                Ok(c) => c.apply(&mut self.db),
                Err(e) => proto_error(e.message()),
            }
        } else if bytes_eq(name.as_slice(), "SCARD".as_bytes()) {
            match Scard::build(&mut builder) {
                Ok(c) => c.apply(&self.db),
                Err(e) => proto_error(e.message()),
            }
        } else if bytes_eq(name.as_slice(), "SMEMBERS".as_bytes()) {
            match Smembers::build(&mut builder) {
                Ok(c) => c.apply(&self.db),
                Err(e) => proto_error(e.message()),
            }
        } else {
            Reply::Error("ERR unknown command".as_bytes_vec())
        }
    }
}

} // verus!
