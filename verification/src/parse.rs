//! The incremental RESP frame decoder: arrays of bulk strings, assembled
//! from a byte buffer that may hold any prefix of the frame.

use vstd::prelude::*;

use vstd::string::{StrSliceExecFns, StringSliceAdditionalSpecFns};

use crate::num::{dec_val, is_numeral};

verus! {

/// Why a frame could not be decoded.  `Incomplete` is not a protocol
/// fault: the buffer simply ends before the frame does.
#[derive(Debug)]
pub enum ParseError {
    /// More bytes are needed before anything can be decided.
    Incomplete,
    /// The outer frame does not start with `*`.
    BadArrayPrefix,
    /// The element count is not a plain decimal in range.
    BadArrayCount,
    /// A bulk does not start with `$`.
    BadBulkPrefix,
    /// A bulk length is not a plain decimal in range.
    BadBulkLength,
    /// The declared bulk length does not meet the closing CRLF.
    LengthMismatch,
    /// A null bulk (`$-1`) stood where a request needs content.
    NullBulk,
}

/// The detail text of each protocol fault.
pub open spec fn spec_parse_error_message(e: ParseError) -> Seq<u8> {
    match e {
        ParseError::Incomplete => "unexpected end of input".spec_bytes(),
        ParseError::BadArrayPrefix => "expected array".spec_bytes(),
        ParseError::BadArrayCount => "bad array count".spec_bytes(),
        ParseError::BadBulkPrefix => "expected bulk string".spec_bytes(),
        ParseError::BadBulkLength => "bad bulk length".spec_bytes(),
        ParseError::LengthMismatch => "bulk length mismatch".spec_bytes(),
        ParseError::NullBulk => "null bulk in request".spec_bytes(),
    }
}

impl ParseError {
    /// The detail text used in protocol error replies.
    pub fn message(&self) -> (r: Vec<u8>)
        ensures
            r@ == spec_parse_error_message(*self),
    {
        let s: &str = match self {
            ParseError::Incomplete => "unexpected end of input",
            ParseError::BadArrayPrefix => "expected array",
            ParseError::BadArrayCount => "bad array count",
            ParseError::BadBulkPrefix => "expected bulk string",
            ParseError::BadBulkLength => "bad bulk length",
            ParseError::LengthMismatch => "bulk length mismatch",
            ParseError::NullBulk => "null bulk in request",
        };
        s.as_bytes_vec()
    }
}

/// The position of the first CRLF at or after `from`: the index of its CR.
pub open spec fn spec_find_crlf(s: Seq<u8>, from: int) -> Option<int>
    decreases s.len() - from,
{
    if from < 0 || from + 2 > s.len() {
        None
    } else if s[from] == 13 && s[from + 1] == 10 {
        Some(from)
    } else {
        spec_find_crlf(s, from + 1)
    }
}

/// One bulk string read at position `i`: on success, the position after
/// the bulk and its content (`None` for the null bulk `$-1`).
pub open spec fn spec_bulk_at(s: Seq<u8>, i: int) -> Result<(int, Option<Seq<u8>>), ParseError> {
    if !(0 <= i < s.len()) {
        Err(ParseError::Incomplete)
    } else if s[i] != 36 {
        Err(ParseError::BadBulkPrefix)
    } else {
        match spec_find_crlf(s, i + 1) {
            None => Err(ParseError::Incomplete),
            Some(cr) => {
                let line = s.subrange(i + 1, cr);
                if line == seq![45u8, 49u8] {
                    Ok((cr + 2, None))
                } else if !is_numeral(line) || dec_val(line) > usize::MAX {
                    Err(ParseError::BadBulkLength)
                } else {
                    let len = dec_val(line) as int;
                    if s.len() < cr + 2 + len + 2 {
                        Err(ParseError::Incomplete)
                    } else if s[cr + 2 + len] == 13 && s[cr + 2 + len + 1] == 10 {
                        Ok((cr + 2 + len + 2, Some(s.subrange(cr + 2, cr + 2 + len))))
                    } else {
                        Err(ParseError::LengthMismatch)
                    }
                }
            },
        }
    }
}

/// The array header read at the start of the buffer: on success, the
/// position after the header and the declared element count.
pub open spec fn spec_array_at(s: Seq<u8>, i: int) -> Result<(int, int), ParseError> {
    if !(0 <= i < s.len()) {
        Err(ParseError::Incomplete)
    } else if s[i] != 42 {
        Err(ParseError::BadArrayPrefix)
    } else {
        match spec_find_crlf(s, i + 1) {
            None => Err(ParseError::Incomplete),
            Some(cr) => {
                let line = s.subrange(i + 1, cr);
                if !is_numeral(line) || dec_val(line) > usize::MAX {
                    Err(ParseError::BadArrayCount)
                } else {
                    Ok((cr + 2, dec_val(line) as int))
                }
            },
        }
    }
}

/// `count` request bulks read from position `i`; a null bulk is rejected.
pub open spec fn spec_bulks_at(s: Seq<u8>, i: int, count: int) -> Result<
    (int, Seq<Seq<u8>>),
    ParseError,
>
    decreases count,
{
    if count <= 0 {
        Ok((i, Seq::empty()))
    } else {
        match spec_bulk_at(s, i) {
            Err(e) => Err(e),
            Ok((j, None)) => Err(ParseError::NullBulk),
            Ok((j, Some(b))) => match spec_bulks_at(s, j, count - 1) {
                Err(e) => Err(e),
                Ok((k, bs)) => Ok((k, seq![b] + bs)),
            },
        }
    }
}

/// One whole request frame read from the start of the buffer: on success,
/// the bytes consumed and the request's bulk strings.
pub open spec fn spec_decode(s: Seq<u8>) -> Result<(int, Seq<Seq<u8>>), ParseError> {
    match spec_array_at(s, 0) {
        Err(e) => Err(e),
        Ok((i, count)) => spec_bulks_at(s, i, count),
    }
}

/// Find the first CRLF at or after `from`.
fn find_crlf(buf: &[u8], from: usize) -> (r: Option<usize>)
    requires
        from <= buf@.len(),
    ensures
        match r {
            Some(cr) => spec_find_crlf(buf@, from as int) == Some(cr as int),
            None => spec_find_crlf(buf@, from as int) is None,
        },
{
    let mut i: usize = from;
    loop
        invariant
            from <= i <= buf@.len(),
            spec_find_crlf(buf@, from as int) == spec_find_crlf(buf@, i as int),
        decreases buf@.len() - i,
    {
        if buf.len() < 2 || i > buf.len() - 2 {
            return None;
        }
        if buf[i] == 13 && buf[i + 1] == 10 {
            return Some(i);
        }
        i = i + 1;
    }
}

/// Read one bulk string at position `at`.  On success, the position after
/// the bulk and its content; the null bulk `$-1` yields `None` content.
pub fn parse_bulk_at(buf: &[u8], at: usize) -> (r: Result<(usize, Option<Vec<u8>>), ParseError>)
    ensures
        match r {
            Ok(p) => spec_bulk_at(buf@, at as int) matches Ok(q) && q.0 == p.0 && opt_content_is(
                p.1,
                q.1,
            ),
            Err(e) => spec_bulk_at(buf@, at as int) == Err::<(int, Option<Seq<u8>>), ParseError>(e),
        },
{
    if at >= buf.len() {
        return Err(ParseError::Incomplete);
    }
    if buf[at] != 36 {
        return Err(ParseError::BadBulkPrefix);
    }
    let cr = match find_crlf(buf, at + 1) {
        None => {
            return Err(ParseError::Incomplete);
        },
        Some(cr) => cr,
    };
    proof {
        lemma_find_crlf_bounds(buf@, at + 1);
    }
    let line = vstd::slice::slice_subrange(buf, at + 1, cr);
    if line.len() == 2 && line[0] == 45 && line[1] == 49 {
        proof {
            assert(line@ =~= seq![45u8, 49u8]);
        }
        return Ok((cr + 2, None));
    }
    proof {
        if line@ == seq![45u8, 49u8] {
            assert(line@.len() == 2 && line@[0] == 45 && line@[1] == 49);
        }
    }
    let len = match crate::num::parse_usize(line) {
        None => {
            return Err(ParseError::BadBulkLength);
        },
        Some(len) => len,
    };
    let after = cr + 2;
    let remaining = buf.len() - after;
    if remaining < 2 || len > remaining - 2 {
        return Err(ParseError::Incomplete);
    }
    if buf[after + len] == 13 && buf[after + len + 1] == 10 {
        let content = vstd::slice::slice_to_vec(vstd::slice::slice_subrange(buf, after, after + len));
        Ok((after + len + 2, Some(content)))
    } else {
        Err(ParseError::LengthMismatch)
    }
}

/// Does an optional owned content equal the optional spec content?
pub open spec fn opt_content_is(o: Option<Vec<u8>>, so: Option<Seq<u8>>) -> bool {
    match o {
        Some(v) => so matches Some(b) && v@ == b,
        None => so is None,
    }
}

/// Read one bulk string at the start of the buffer.
pub fn parse_bulk(buf: &[u8]) -> (r: Result<(usize, Option<Vec<u8>>), ParseError>)
    ensures
        match r {
            Ok(p) => spec_bulk_at(buf@, 0) matches Ok(q) && q.0 == p.0 && opt_content_is(p.1, q.1),
            Err(e) => spec_bulk_at(buf@, 0) == Err::<(int, Option<Seq<u8>>), ParseError>(e),
        },
{
    parse_bulk_at(buf, 0)
}

/// Read the array header at the start of the buffer: on success, the
/// position after the header and the declared element count.
pub fn parse_array_len(buf: &[u8]) -> (r: Result<(usize, usize), ParseError>)
    ensures
        match r {
            Ok(p) => spec_array_at(buf@, 0) == Ok::<(int, int), ParseError>((
                p.0 as int,
                p.1 as int,
            )),
            Err(e) => spec_array_at(buf@, 0) == Err::<(int, int), ParseError>(e),
        },
{
    if buf.len() == 0 {
        return Err(ParseError::Incomplete);
    }
    if buf[0] != 42 {
        return Err(ParseError::BadArrayPrefix);
    }
    let cr = match find_crlf(buf, 1) {
        None => {
            return Err(ParseError::Incomplete);
        },
        Some(cr) => cr,
    };
    proof {
        lemma_find_crlf_bounds(buf@, 1);
    }
    let line = vstd::slice::slice_subrange(buf, 1, cr);
    match crate::num::parse_usize(line) {
        None => Err(ParseError::BadArrayCount),
        Some(count) => Ok((cr + 2, count)),
    }
}

/// Decode one whole request frame from the start of the buffer: the bytes
/// consumed and the request's bulk strings.  `Err(Incomplete)` asks the
/// caller for more bytes; any other error is a protocol fault.
pub fn decode_frame(buf: &[u8]) -> (r: Result<(usize, Vec<Vec<u8>>), ParseError>)
    ensures
        match r {
            Ok(p) => spec_decode(buf@) matches Ok(q) && q.0 == p.0 && p.1@.map_values(
                |v: Vec<u8>| v@,
            ) == q.1,
            Err(e) => spec_decode(buf@) == Err::<(int, Seq<Seq<u8>>), ParseError>(e),
        },
{
    let (mut pos, count) = match parse_array_len(buf) {
        Err(e) => {
            return Err(e);
        },
        Ok(p) => p,
    };
    let ghost start = pos as int;
    let mut bulks: Vec<Vec<u8>> = Vec::new();
    let mut remaining = count;
    proof {
        assert(bulks@.map_values(|v: Vec<u8>| v@) =~= Seq::<Seq<u8>>::empty());
        match spec_bulks_at(buf@, start, count as int) {
            Ok(p) => {
                assert(Seq::<Seq<u8>>::empty() + p.1 =~= p.1);
            },
            Err(e) => {},
        }
    }
    while remaining > 0
        invariant
            remaining <= count,
            bulks@.len() + remaining == count,
            spec_array_at(buf@, 0) == Ok::<(int, int), ParseError>((start, count as int)),
            spec_bulks_compose(
                buf@,
                start,
                count as int,
                bulks@.map_values(|v: Vec<u8>| v@),
                pos as int,
                remaining as int,
            ),
        decreases remaining,
    {
        let ghost acc = bulks@.map_values(|v: Vec<u8>| v@);
        match parse_bulk_at(buf, pos) {
            Err(e) => {
                return Err(e);
            },
            Ok((next, None)) => {
                return Err(ParseError::NullBulk);
            },
            Ok((next, Some(content))) => {
                let ghost b = content@;
                bulks.push(content);
                proof {
                    assert(bulks@.map_values(|v: Vec<u8>| v@) =~= acc.push(b));
                    lemma_bulks_compose_step(
                        buf@,
                        start,
                        count as int,
                        acc,
                        pos as int,
                        remaining as int,
                        next as int,
                        b,
                    );
                }
                pos = next;
            },
        }
        remaining = remaining - 1;
    }
    proof {
        assert(spec_bulks_at(buf@, pos as int, 0) == Ok::<(int, Seq<Seq<u8>>), ParseError>((
            pos as int,
            Seq::empty(),
        )));
        assert(bulks@.map_values(|v: Vec<u8>| v@) + Seq::<Seq<u8>>::empty() =~= bulks@.map_values(
            |v: Vec<u8>| v@,
        ));
    }
    Ok((pos, bulks))
}

/// The decoding loop's invariant: finishing the remaining bulks from `pos`
/// and prepending what is already collected gives the whole parse.
pub open spec fn spec_bulks_compose(
    s: Seq<u8>,
    start: int,
    count: int,
    acc: Seq<Seq<u8>>,
    pos: int,
    remaining: int,
) -> bool {
    match spec_bulks_at(s, pos, remaining) {
        Ok(p) => spec_bulks_at(s, start, count) == Ok::<(int, Seq<Seq<u8>>), ParseError>((
            p.0,
            acc + p.1,
        )),
        Err(e) => spec_bulks_at(s, start, count) == Err::<(int, Seq<Seq<u8>>), ParseError>(e),
    }
}

/// One successful bulk keeps the composition invariant.
proof fn lemma_bulks_compose_step(
    s: Seq<u8>,
    start: int,
    count: int,
    acc: Seq<Seq<u8>>,
    pos: int,
    remaining: int,
    next: int,
    b: Seq<u8>,
)
    requires
        remaining > 0,
        spec_bulks_compose(s, start, count, acc, pos, remaining),
        spec_bulk_at(s, pos) == Ok::<(int, Option<Seq<u8>>), ParseError>((next, Some(b))),
    ensures
        spec_bulks_compose(s, start, count, acc.push(b), next, remaining - 1),
{
    match spec_bulks_at(s, next, remaining - 1) {
        Ok(p) => {
            assert(spec_bulks_at(s, pos, remaining) == Ok::<(int, Seq<Seq<u8>>), ParseError>((
                p.0,
                seq![b] + p.1,
            )));
            assert(acc + (seq![b] + p.1) =~= acc.push(b) + p.1);
        },
        Err(e) => {},
    }
}

/// A found CRLF lies inside the buffer, past the search start.
pub proof fn lemma_find_crlf_bounds(s: Seq<u8>, from: int)
    ensures
        spec_find_crlf(s, from) matches Some(cr) ==> from <= cr && cr + 2 <= s.len(),
    decreases s.len() - from,
{
    if from < 0 || from + 2 > s.len() {
    } else if s[from] == 13 && s[from + 1] == 10 {
    } else {
        lemma_find_crlf_bounds(s, from + 1);
    }
}

/// The canonical wire form of one bulk string.
pub open spec fn bulk_encoding(b: Seq<u8>) -> Seq<u8> {
    seq![36u8] + crate::num::dec_rep(b.len()) + seq![13u8, 10u8] + b + seq![13u8, 10u8]
}

/// The canonical wire form of a run of bulk strings.
pub open spec fn bulks_encoding(bs: Seq<Seq<u8>>) -> Seq<u8>
    decreases bs.len(),
{
    if bs.len() == 0 {
        Seq::empty()
    } else {
        bulk_encoding(bs[0]) + bulks_encoding(bs.drop_first())
    }
}

/// The canonical wire form of a whole request.
pub open spec fn request_encoding(bs: Seq<Seq<u8>>) -> Seq<u8> {
    seq![42u8] + crate::num::dec_rep(bs.len()) + seq![13u8, 10u8] + bulks_encoding(bs)
}

/// A subrange equality transfers to every inner subrange.
proof fn lemma_subrange_transfer(s: Seq<u8>, i: int, enc: Seq<u8>, a: int, b: int)
    requires
        0 <= i,
        i + enc.len() <= s.len(),
        s.subrange(i, i + enc.len() as int) == enc,
        0 <= a <= b <= enc.len(),
    ensures
        s.subrange(i + a, i + b) == enc.subrange(a, b),
{
    assert forall|j: int| 0 <= j < b - a implies s.subrange(i + a, i + b)[j] == enc.subrange(
        a,
        b,
    )[j] by {
        assert(s.subrange(i, i + enc.len() as int)[a + j] == enc[a + j]);
    }
    assert(s.subrange(i + a, i + b) =~= enc.subrange(a, b));
}

/// A subrange equality transfers to every byte inside it.
proof fn lemma_byte_transfer(s: Seq<u8>, i: int, enc: Seq<u8>, a: int)
    requires
        0 <= i,
        i + enc.len() <= s.len(),
        s.subrange(i, i + enc.len() as int) == enc,
        0 <= a < enc.len(),
    ensures
        s[i + a] == enc[a],
{
    assert(s.subrange(i, i + enc.len() as int)[a] == enc[a]);
}

/// In a buffer that carries a numeral and then CRLF, the first CRLF is the
/// one after the numeral.
proof fn lemma_find_crlf_after_digits(s: Seq<u8>, i: int, digits: Seq<u8>)
    requires
        crate::num::all_digits(digits),
        0 <= i,
        i + digits.len() + 2 <= s.len(),
        s.subrange(i, i + digits.len() as int) == digits,
        s[i + digits.len()] == 13,
        s[i + digits.len() + 1] == 10,
    ensures
        spec_find_crlf(s, i) == Some(i + digits.len() as int),
    decreases digits.len(),
{
    if digits.len() == 0 {
    } else {
        assert(s.subrange(i, i + digits.len() as int)[0] == digits[0]);
        assert(crate::num::is_digit(digits[0]));
        assert(s[i] != 13);
        assert(s.subrange(i + 1, i + digits.len() as int) =~= digits.drop_first()) by {
            assert forall|j: int|
                0 <= j < digits.len() - 1 implies s.subrange(i + 1, i + digits.len() as int)[j]
                == digits.drop_first()[j] by {
                assert(s.subrange(i, i + digits.len() as int)[1 + j] == digits[1 + j]);
            }
        }
        lemma_find_crlf_after_digits(s, i + 1, digits.drop_first());
    }
}

/// Reading one bulk out of its canonical wire form yields exactly its
/// content and stops exactly after it.
proof fn lemma_bulk_at_encoding(s: Seq<u8>, i: int, b: Seq<u8>)
    requires
        0 <= i,
        b.len() <= usize::MAX,
        i + bulk_encoding(b).len() <= s.len(),
        s.subrange(i, i + bulk_encoding(b).len() as int) == bulk_encoding(b),
    ensures
        spec_bulk_at(s, i) == Ok::<(int, Option<Seq<u8>>), ParseError>((
            i + bulk_encoding(b).len() as int,
            Some(b),
        )),
{
    let digits = crate::num::dec_rep(b.len());
    crate::num::lemma_dec_rep_wf(b.len());
    let enc = bulk_encoding(b);
    let d = digits.len() as int;
    let len = b.len() as int;
    assert(enc[0] == 36);
    lemma_byte_transfer(s, i, enc, 0);
    assert(enc.subrange(1, 1 + d) =~= digits);
    lemma_subrange_transfer(s, i, enc, 1, 1 + d);
    assert(enc[1 + d] == 13);
    lemma_byte_transfer(s, i, enc, 1 + d);
    assert(enc[1 + d + 1] == 10);
    lemma_byte_transfer(s, i, enc, 1 + d + 1);
    lemma_find_crlf_after_digits(s, i + 1, digits);
    let cr = i + 1 + d;
    let line = s.subrange(i + 1, cr);
    assert(line == digits);
    assert(crate::num::is_numeral(line));
    assert(crate::num::dec_val(line) == b.len());
    assert(line != seq![45u8, 49u8]) by {
        assert(crate::num::is_digit(line[0]));
    }
    assert(enc.subrange(1 + d + 2, 1 + d + 2 + len) =~= b);
    lemma_subrange_transfer(s, i, enc, 1 + d + 2, 1 + d + 2 + len);
    assert(s.subrange(cr + 2, cr + 2 + len) == b);
    assert(enc[1 + d + 2 + len] == 13);
    lemma_byte_transfer(s, i, enc, 1 + d + 2 + len);
    assert(enc[1 + d + 2 + len + 1] == 10);
    lemma_byte_transfer(s, i, enc, 1 + d + 2 + len + 1);
}

/// Decoder completeness: a buffer that starts with the canonical wire form
/// of a request decodes to exactly that request's bulks, consuming exactly
/// the request; whatever follows is left alone.
pub proof fn lemma_decode_request_encoding(s: Seq<u8>, bs: Seq<Seq<u8>>)
    requires
        bs.len() <= usize::MAX,
        forall|j: int| 0 <= j < bs.len() ==> (#[trigger] bs[j]).len() <= usize::MAX,
        request_encoding(bs).len() <= s.len(),
        s.subrange(0, request_encoding(bs).len() as int) == request_encoding(bs),
    ensures
        spec_decode(s) == Ok::<(int, Seq<Seq<u8>>), ParseError>((
            request_encoding(bs).len() as int,
            bs,
        )),
{
    let digits = crate::num::dec_rep(bs.len());
    crate::num::lemma_dec_rep_wf(bs.len());
    let enc = request_encoding(bs);
    let d = digits.len() as int;
    assert(enc[0] == 42);
    lemma_byte_transfer(s, 0, enc, 0);
    assert(enc.subrange(1, 1 + d) =~= digits);
    lemma_subrange_transfer(s, 0, enc, 1, 1 + d);
    assert(enc[1 + d] == 13);
    lemma_byte_transfer(s, 0, enc, 1 + d);
    assert(enc[1 + d + 1] == 10);
    lemma_byte_transfer(s, 0, enc, 1 + d + 1);
    lemma_find_crlf_after_digits(s, 1, digits);
    let line = s.subrange(1, 1 + d);
    assert(line == digits);
    assert(crate::num::dec_val(line) == bs.len());
    assert(spec_array_at(s, 0) == Ok::<(int, int), ParseError>((1 + d + 2, bs.len() as int)));
    assert(enc.subrange(1 + d + 2, enc.len() as int) =~= bulks_encoding(bs));
    lemma_subrange_transfer(s, 0, enc, 1 + d + 2, enc.len() as int);
    lemma_bulks_at_encoding(s, 1 + d + 2, bs);
}

/// Reading a run of bulks out of their canonical wire form yields exactly
/// those bulks.
proof fn lemma_bulks_at_encoding(s: Seq<u8>, i: int, bs: Seq<Seq<u8>>)
    requires
        0 <= i,
        forall|j: int| 0 <= j < bs.len() ==> (#[trigger] bs[j]).len() <= usize::MAX,
        i + bulks_encoding(bs).len() <= s.len(),
        s.subrange(i, i + bulks_encoding(bs).len() as int) == bulks_encoding(bs),
    ensures
        spec_bulks_at(s, i, bs.len() as int) == Ok::<(int, Seq<Seq<u8>>), ParseError>((
            i + bulks_encoding(bs).len() as int,
            bs,
        )),
    decreases bs.len(),
{
    if bs.len() == 0 {
        assert(bs =~= Seq::<Seq<u8>>::empty());
    } else {
        let enc = bulks_encoding(bs);
        let first = bulk_encoding(bs[0]);
        let rest = bulks_encoding(bs.drop_first());
        assert(enc == first + rest);
        assert(enc.subrange(0, first.len() as int) =~= first);
        lemma_subrange_transfer(s, i, enc, 0, first.len() as int);
        lemma_bulk_at_encoding(s, i, bs[0]);
        let mid = i + first.len() as int;
        assert(enc.subrange(first.len() as int, enc.len() as int) =~= rest);
        lemma_subrange_transfer(s, i, enc, first.len() as int, enc.len() as int);
        lemma_bulks_at_encoding(s, mid, bs.drop_first());
        assert(seq![bs[0]] + bs.drop_first() =~= bs);
    }
}

} // verus!
