//! A one-shot parser from raw request bytes straight to a command value,
//! dispatching on the leading bulk's name, ASCII case-insensitively.

use vstd::prelude::*;
use vstd::string::{StrSliceExecFns, StringSliceAdditionalSpecFns};

use crate::num::{dec_val, is_numeral, parse_i64, parse_u128, parse_u64, signed_val};
use crate::parse::{parse_bulk_at, spec_bulk_at};
use crate::util::{bytes_eq, spec_upper, to_upper};

verus! {

/// A decoded command with its arguments.
#[derive(Debug, PartialEq)]
pub enum Command {
    Ping,
    Command,
    Config,
    SetValue { key: Vec<u8>, value: Vec<u8>, expire_seconds: Option<u64>, expire_milliseconds: Option<u128> },
    Get { key: Vec<u8> },
    Delete { keys: Vec<Vec<u8>> },
    Lpush { key: Vec<u8>, values: Vec<Vec<u8>> },
    Rpush { key: Vec<u8>, values: Vec<Vec<u8>> },
    Lrange { key: Vec<u8>, start: i64, stop: i64 },
}

/// A successful bulk read moves forward and stays inside the buffer.
pub proof fn lemma_bulk_at_advance(s: Seq<u8>, i: int)
    ensures
        spec_bulk_at(s, i) matches Ok(p) ==> i < p.0 <= s.len(),
{
    if 0 <= i < s.len() && s[i] == 36 {
        crate::parse::lemma_find_crlf_bounds(s, i + 1);
    }
}

/// As many bulk strings as parse, greedily, from position `i`: the
/// position after the last one and their contents.
pub open spec fn spec_many_bulks(s: Seq<u8>, i: int) -> (int, Seq<Seq<u8>>)
    decreases s.len() - i,
    via spec_many_bulks_decreases
{
    match spec_bulk_at(s, i) {
        Ok((j, Some(b))) => {
            let rest = spec_many_bulks(s, j);
            (rest.0, seq![b] + rest.1)
        },
        _ => (i, Seq::empty()),
    }
}

#[via_fn]
proof fn spec_many_bulks_decreases(s: Seq<u8>, i: int) {
    lemma_bulk_at_advance(s, i);
}

/// An optional trailing decimal argument in `u64` range: taken when the
/// next bulk is such a numeral, skipped otherwise.
pub open spec fn spec_opt_u64(s: Seq<u8>, i: int) -> (int, Option<nat>) {
    match spec_bulk_at(s, i) {
        Ok((j, Some(b))) => if is_numeral(b) && dec_val(b) <= u64::MAX {
            (j, Some(dec_val(b)))
        } else {
            (i, None)
        },
        _ => (i, None),
    }
}

/// An optional trailing decimal argument in `u128` range.
pub open spec fn spec_opt_u128(s: Seq<u8>, i: int) -> (int, Option<nat>) {
    match spec_bulk_at(s, i) {
        Ok((j, Some(b))) => if is_numeral(b) && dec_val(b) <= u128::MAX {
            (j, Some(dec_val(b)))
        } else {
            (i, None)
        },
        _ => (i, None),
    }
}

/// Does an optional `u64` carry exactly the optional value `so`?
pub open spec fn opt_u64_is(o: Option<u64>, so: Option<nat>) -> bool {
    match o {
        Some(v) => so matches Some(n) && v == n,
        None => so is None,
    }
}

/// Does an optional `u128` carry exactly the optional value `so`?
pub open spec fn opt_u128_is(o: Option<u128>, so: Option<nat>) -> bool {
    match o {
        Some(v) => so matches Some(n) && v == n,
        None => so is None,
    }
}

/// A signed numeral in the 64-bit range.
pub open spec fn i64_bulk_ok(b: Seq<u8>) -> bool {
    crate::num::is_signed_numeral(b) && i64::MIN <= signed_val(b) <= i64::MAX
}

/// What `Command::parse` returns on a buffer: which command, with which
/// arguments, and how many bytes it consumed; `None` when no command
/// matches the buffer.
pub open spec fn command_parse_post(s: Seq<u8>, r: Option<(usize, Command)>) -> bool {
    match spec_bulk_at(s, 0) {
        Ok((j, Some(name0))) => {
            let name = spec_upper(name0);
            if name == "COMMAND".spec_bytes() || name == "CONFIG".spec_bytes() {
                r matches Some(p) && p.0 == j && p.1 is Config
            } else if name == "PING".spec_bytes() {
                r matches Some(p) && p.0 == j && p.1 is Ping
            } else if name == "SET".spec_bytes() {
                match spec_bulk_at(s, j) {
                    Ok((k, Some(key))) => match spec_bulk_at(s, k) {
                        Ok((l, Some(value))) => {
                            let exs = spec_opt_u64(s, l);
                            let exms = spec_opt_u128(s, exs.0);
                            &&& r matches Some(p)
                            &&& p.0 == exms.0
                            &&& (p.1 matches Command::SetValue {
                                key: ck,
                                value: cv,
                                expire_seconds,
                                expire_milliseconds,
                            } && ck@ == key && cv@ == value && opt_u64_is(expire_seconds, exs.1)
                                && opt_u128_is(expire_milliseconds, exms.1))
                        },
                        _ => r is None,
                    },
                    _ => r is None,
                }
            } else if name == "GET".spec_bytes() {
                match spec_bulk_at(s, j) {
                    Ok((k, Some(key))) => r matches Some(p) && p.0 == k && (
                    p.1 matches Command::Get { key: ck } && ck@ == key),
                    _ => r is None,
                }
            } else if name == "DELETE".spec_bytes() {
                let many = spec_many_bulks(s, j);
                if many.1.len() >= 1 {
                    r matches Some(p) && p.0 == many.0 && (p.1 matches Command::Delete { keys }
                        && keys@.map_values(|v: Vec<u8>| v@) == many.1)
                } else {
                    r is None
                }
            } else if name == "LPUSH".spec_bytes() {
                match spec_bulk_at(s, j) {
                    Ok((k, Some(key))) => {
                        let many = spec_many_bulks(s, k);
                        if many.1.len() >= 1 {
                            r matches Some(p) && p.0 == many.0 && (
                            p.1 matches Command::Lpush { key: ck, values } && ck@ == key
                                && values@.map_values(|v: Vec<u8>| v@) == many.1)
                        } else {
                            r is None
                        }
                    },
                    _ => r is None,
                }
            } else if name == "RPUSH".spec_bytes() {
                match spec_bulk_at(s, j) {
                    Ok((k, Some(key))) => {
                        let many = spec_many_bulks(s, k);
                        if many.1.len() >= 1 {
                            r matches Some(p) && p.0 == many.0 && (
                            p.1 matches Command::Rpush { key: ck, values } && ck@ == key
                                && values@.map_values(|v: Vec<u8>| v@) == many.1)
                        } else {
                            r is None
                        }
                    },
                    _ => r is None,
                }
            } else if name == "LRANGE".spec_bytes() {
                match spec_bulk_at(s, j) {
                    Ok((k, Some(key))) => match spec_bulk_at(s, k) {
                        Ok((l, Some(b1))) => match spec_bulk_at(s, l) {
                            Ok((m, Some(b2))) => if i64_bulk_ok(b1) && i64_bulk_ok(b2) {
                                r matches Some(p) && p.0 == m && (
                                p.1 matches Command::Lrange { key: ck, start, stop } && ck@ == key
                                    && start == signed_val(b1) && stop == signed_val(b2))
                            } else {
                                r is None
                            },
                            _ => r is None,
                        },
                        _ => r is None,
                    },
                    _ => r is None,
                }
            } else {
                r is None
            }
        },
        _ => r is None,
    }
}

/// As many bulk strings as parse, greedily, from position `at`.
fn many_bulks(input: &[u8], at: usize) -> (r: (usize, Vec<Vec<u8>>))
    ensures
        r.0 as int == spec_many_bulks(input@, at as int).0,
        r.1@.map_values(|v: Vec<u8>| v@) == spec_many_bulks(input@, at as int).1,
{
    let mut pos = at;
    let mut out: Vec<Vec<u8>> = Vec::new();
    proof {
        assert(out@.map_values(|v: Vec<u8>| v@) =~= Seq::<Seq<u8>>::empty());
        assert(Seq::<Seq<u8>>::empty() + spec_many_bulks(input@, at as int).1 =~= spec_many_bulks(
            input@,
            at as int,
        ).1);
    }
    loop
        invariant
            at <= pos,
            spec_many_bulks(input@, at as int).0 == spec_many_bulks(input@, pos as int).0,
            spec_many_bulks(input@, at as int).1 == out@.map_values(|v: Vec<u8>| v@)
                + spec_many_bulks(input@, pos as int).1,
        decreases input@.len() - pos,
    {
        proof {
            lemma_bulk_at_advance(input@, pos as int);
        }
        match parse_bulk_at(input, pos) {
            Ok((j, Some(b))) => {
                let ghost acc = out@.map_values(|v: Vec<u8>| v@);
                let ghost gb = b@;
                out.push(b);
                proof {
                    assert(out@.map_values(|v: Vec<u8>| v@) =~= acc.push(gb));
                    assert(acc + (seq![gb] + spec_many_bulks(input@, j as int).1) =~= acc.push(gb)
                        + spec_many_bulks(input@, j as int).1);
                }
                pos = j;
            },
            Ok((j, None)) => {
                proof {
                    assert(spec_many_bulks(input@, pos as int).1 =~= Seq::<Seq<u8>>::empty());
                    assert(out@.map_values(|v: Vec<u8>| v@) + Seq::<Seq<u8>>::empty()
                        =~= out@.map_values(|v: Vec<u8>| v@));
                }
                return (pos, out);
            },
            Err(_) => {
                proof {
                    assert(spec_many_bulks(input@, pos as int).1 =~= Seq::<Seq<u8>>::empty());
                    assert(out@.map_values(|v: Vec<u8>| v@) + Seq::<Seq<u8>>::empty()
                        =~= out@.map_values(|v: Vec<u8>| v@));
                }
                return (pos, out);
            },
        }
    }
}

impl Command {
    /// Parse one command from the start of the buffer: the bytes consumed
    /// and the command, or `None` when the buffer matches no command.
    pub fn parse(input: &[u8]) -> (r: Option<(usize, Command)>)
        ensures
            command_parse_post(input@, r),
    {
        let (j, name0) = match parse_bulk_at(input, 0) {
            Ok((j, Some(n))) => (j, n),
            _ => {
                return None;
            },
        };
        let name = to_upper(name0.as_slice());
        if bytes_eq(name.as_slice(), "COMMAND".as_bytes()) {
            Self::command(j)
        } else if bytes_eq(name.as_slice(), "CONFIG".as_bytes()) {
            Self::config(j)
        } else if bytes_eq(name.as_slice(), "PING".as_bytes()) {
            Self::ping(j)
        } else if bytes_eq(name.as_slice(), "SET".as_bytes()) {
            Self::set(input, j)
        } else if bytes_eq(name.as_slice(), "GET".as_bytes()) {
            Self::get(input, j)
        } else if bytes_eq(name.as_slice(), "DELETE".as_bytes()) {
            Self::delete(input, j)
        } else if bytes_eq(name.as_slice(), "LPUSH".as_bytes()) {
            Self::lpush(input, j)
        } else if bytes_eq(name.as_slice(), "RPUSH".as_bytes()) {
            Self::rpush(input, j)
        } else if bytes_eq(name.as_slice(), "LRANGE".as_bytes()) {
            Self::lrange(input, j)
        } else {
            None
        }
    }

    /// COMMAND answers as CONFIG does: a stub acknowledgement.
    fn command(at: usize) -> (r: Option<(usize, Command)>)
        ensures
            r matches Some(p) && p.0 == at && p.1 is Config,
    {
        Some((at, Command::Config))
    }

    /// CONFIG is a stub acknowledgement.
    fn config(at: usize) -> (r: Option<(usize, Command)>)
        ensures
            r matches Some(p) && p.0 == at && p.1 is Config,
    {
        Some((at, Command::Config))
    }

    /// PING carries nothing.
    fn ping(at: usize) -> (r: Option<(usize, Command)>)
        ensures
            r matches Some(p) && p.0 == at && p.1 is Ping,
    {
        Some((at, Command::Ping))
    }

    /// SET: key, value, and up to two optional decimal expiry arguments.
    fn set(input: &[u8], at: usize) -> (r: Option<(usize, Command)>)
        ensures
            ({
                match spec_bulk_at(input@, at as int) {
                    Ok((k, Some(key))) => match spec_bulk_at(input@, k) {
                        Ok((l, Some(value))) => {
                            let exs = spec_opt_u64(input@, l);
                            let exms = spec_opt_u128(input@, exs.0);
                            &&& r matches Some(p)
                            &&& p.0 == exms.0
                            &&& (p.1 matches Command::SetValue {
                                key: ck,
                                value: cv,
                                expire_seconds,
                                expire_milliseconds,
                            } && ck@ == key && cv@ == value && opt_u64_is(expire_seconds, exs.1)
                                && opt_u128_is(expire_milliseconds, exms.1))
                        },
                        _ => r is None,
                    },
                    _ => r is None,
                }
            }),
    {
        let (k, key) = match parse_bulk_at(input, at) {
            Ok((k, Some(key))) => (k, key),
            _ => {
                return None;
            },
        };
        let (l, value) = match parse_bulk_at(input, k) {
            Ok((l, Some(value))) => (l, value),
            _ => {
                return None;
            },
        };
        let mut pos = l;
        let mut expire_seconds: Option<u64> = None;
        match parse_bulk_at(input, pos) {
            Ok((q, Some(b))) => match parse_u64(b.as_slice()) {
                Some(n) => {
                    expire_seconds = Some(n);
                    pos = q;
                },
                None => (),
            },
            _ => (),
        }
        let mut expire_milliseconds: Option<u128> = None;
        match parse_bulk_at(input, pos) {
            Ok((q, Some(b))) => match parse_u128(b.as_slice()) {
                Some(n) => {
                    expire_milliseconds = Some(n);
                    pos = q;
                },
                None => (),
            },
            _ => (),
        }
        Some((pos, Command::SetValue { key, value, expire_seconds, expire_milliseconds }))
    }

    /// GET: one key.
    fn get(input: &[u8], at: usize) -> (r: Option<(usize, Command)>)
        ensures
            ({
                match spec_bulk_at(input@, at as int) {
                    Ok((k, Some(key))) => r matches Some(p) && p.0 == k && (
                    p.1 matches Command::Get { key: ck } && ck@ == key),
                    _ => r is None,
                }
            }),
    {
        match parse_bulk_at(input, at) {
            Ok((k, Some(key))) => Some((k, Command::Get { key })),
            _ => None,
        }
    }

    /// DELETE: one or more keys.
    fn delete(input: &[u8], at: usize) -> (r: Option<(usize, Command)>)
        ensures
            ({
                let many = spec_many_bulks(input@, at as int);
                if many.1.len() >= 1 {
                    r matches Some(p) && p.0 == many.0 && (p.1 matches Command::Delete { keys }
                        && keys@.map_values(|v: Vec<u8>| v@) == many.1)
                } else {
                    r is None
                }
            }),
    {
        let (end, keys) = many_bulks(input, at);
        if keys.len() == 0 {
            return None;
        }
        Some((end, Command::Delete { keys }))
    }

    /// LPUSH: a key and one or more values.
    fn lpush(input: &[u8], at: usize) -> (r: Option<(usize, Command)>)
        ensures
            ({
                match spec_bulk_at(input@, at as int) {
                    Ok((k, Some(key))) => {
                        let many = spec_many_bulks(input@, k);
                        if many.1.len() >= 1 {
                            r matches Some(p) && p.0 == many.0 && (
                            p.1 matches Command::Lpush { key: ck, values } && ck@ == key
                                && values@.map_values(|v: Vec<u8>| v@) == many.1)
                        } else {
                            r is None
                        }
                    },
                    _ => r is None,
                }
            }),
    {
        let (k, key) = match parse_bulk_at(input, at) {
            Ok((k, Some(key))) => (k, key),
            _ => {
                return None;
            },
        };
        let (end, values) = many_bulks(input, k);
        if values.len() == 0 {
            return None;
        }
        Some((end, Command::Lpush { key, values }))
    }

    /// RPUSH: a key and one or more values.
    fn rpush(input: &[u8], at: usize) -> (r: Option<(usize, Command)>)
        ensures
            ({
                match spec_bulk_at(input@, at as int) {
                    Ok((k, Some(key))) => {
                        let many = spec_many_bulks(input@, k);
                        if many.1.len() >= 1 {
                            r matches Some(p) && p.0 == many.0 && (
                            p.1 matches Command::Rpush { key: ck, values } && ck@ == key
                                && values@.map_values(|v: Vec<u8>| v@) == many.1)
                        } else {
                            r is None
                        }
                    },
                    _ => r is None,
                }
            }),
    {
        let (k, key) = match parse_bulk_at(input, at) {
            Ok((k, Some(key))) => (k, key),
            _ => {
                return None;
            },
        };
        let (end, values) = many_bulks(input, k);
        if values.len() == 0 {
            return None;
        }
        Some((end, Command::Rpush { key, values }))
    }

    /// LRANGE: a key and two signed decimal indices.
    fn lrange(input: &[u8], at: usize) -> (r: Option<(usize, Command)>)
        ensures
            ({
                match spec_bulk_at(input@, at as int) {
                    Ok((k, Some(key))) => match spec_bulk_at(input@, k) {
                        Ok((l, Some(b1))) => match spec_bulk_at(input@, l) {
                            Ok((m, Some(b2))) => if i64_bulk_ok(b1) && i64_bulk_ok(b2) {
                                r matches Some(p) && p.0 == m && (
                                p.1 matches Command::Lrange { key: ck, start, stop } && ck@ == key
                                    && start == signed_val(b1) && stop == signed_val(b2))
                            } else {
                                r is None
                            },
                            _ => r is None,
                        },
                        _ => r is None,
                    },
                    _ => r is None,
                }
            }),
    {
        let (k, key) = match parse_bulk_at(input, at) {
            Ok((k, Some(key))) => (k, key),
            _ => {
                return None;
            },
        };
        let (l, b1) = match parse_bulk_at(input, k) {
            Ok((l, Some(b))) => (l, b),
            _ => {
                return None;
            },
        };
        let (m, b2) = match parse_bulk_at(input, l) {
            Ok((m, Some(b))) => (m, b),
            _ => {
                return None;
            },
        };
        let start = match parse_i64(b1.as_slice()) {
            Some(n) => n,
            None => {
                return None;
            },
        };
        let stop = match parse_i64(b2.as_slice()) {
            Some(n) => n,
            None => {
                return None;
            },
        };
        Some((m, Command::Lrange { key, start, stop }))
    }
}

} // verus!
