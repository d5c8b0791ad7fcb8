//! The reply model: the tagged values a command produces, and their
//! serialization to RESP bytes.

use vstd::prelude::*;

use crate::num::{dec_rep, fmt_i64, fmt_usize, signed_rep};

verus! {

/// The CRLF line terminator.
pub open spec fn spec_crlf() -> Seq<u8> {
    seq![13u8, 10u8]
}

/// A reply value, as the dispatch pipeline produces it.
pub enum Reply {
    /// `+<text>\r\n`
    Simple(Vec<u8>),
    /// `-<text>\r\n`
    Error(Vec<u8>),
    /// `:<decimal>\r\n`
    Integer(i64),
    /// `$<len>\r\n<bytes>\r\n`, or `$-1\r\n` for `None`
    Bulk(Option<Vec<u8>>),
    /// `*<len>\r\n` followed by each element
    Array(Vec<Reply>),
}

/// The RESP bytes of a reply.
pub open spec fn spec_encode(r: Reply) -> Seq<u8>
    decreases r,
{
    match r {
        Reply::Simple(s) => seq![43u8] + s@ + spec_crlf(),
        Reply::Error(s) => seq![45u8] + s@ + spec_crlf(),
        Reply::Integer(n) => seq![58u8] + signed_rep(n as int) + spec_crlf(),
        Reply::Bulk(Some(b)) => seq![36u8] + dec_rep(b@.len()) + spec_crlf() + b@ + spec_crlf(),
        Reply::Bulk(None) => seq![36u8, 45u8, 49u8, 13u8, 10u8],
        Reply::Array(items) => seq![42u8] + dec_rep(items@.len()) + spec_crlf() + spec_encode_items(
            items@,
        ),
    }
}

/// The RESP bytes of a run of replies, in order.
pub open spec fn spec_encode_items(items: Seq<Reply>) -> Seq<u8>
    decreases items,
{
    if items.len() == 0 {
        Seq::empty()
    } else {
        spec_encode(items[0]) + spec_encode_items(items.drop_first())
    }
}

/// Appending one reply to a run appends its bytes.
pub proof fn lemma_encode_items_push(items: Seq<Reply>, r: Reply)
    ensures
        spec_encode_items(items.push(r)) == spec_encode_items(items) + spec_encode(r),
    decreases items.len(),
{
    if items.len() == 0 {
        assert(items.push(r)[0] == r);
        assert(items.push(r).drop_first() =~= Seq::<Reply>::empty());
        assert(spec_encode_items(Seq::<Reply>::empty()) =~= Seq::<u8>::empty());
        assert(spec_encode_items(items.push(r)) =~= spec_encode(r));
        assert(spec_encode_items(items) + spec_encode(r) =~= spec_encode(r));
    } else {
        assert(items.push(r).drop_first() =~= items.drop_first().push(r));
        assert(items.push(r)[0] == items[0]);
        lemma_encode_items_push(items.drop_first(), r);
        assert(spec_encode(items[0]) + (spec_encode_items(items.drop_first()) + spec_encode(r))
            =~= (spec_encode(items[0]) + spec_encode_items(items.drop_first())) + spec_encode(r));
    }
}

/// Append a byte slice to a buffer.
pub fn append_bytes(out: &mut Vec<u8>, b: &[u8])
    ensures
        final(out)@ == old(out)@ + b@,
{
    let mut i: usize = 0;
    while i < b.len()
        invariant
            i <= b@.len(),
            out@ == old(out)@ + b@.take(i as int),
        decreases b@.len() - i,
    {
        out.push(b[i]);
        proof {
            assert(old(out)@ + b@.take(i as int) + seq![b@[i as int]] =~= old(out)@ + b@.take(
                i + 1,
            ));
        }
        i = i + 1;
    }
    proof {
        assert(b@.take(b@.len() as int) =~= b@);
    }
}

/// Write the RESP header of an array of `len` elements into a buffer.
pub fn array_header(out: &mut Vec<u8>, len: usize)
    ensures
        final(out)@ == old(out)@ + seq![42u8] + dec_rep(len as nat) + spec_crlf(),
{
    out.push(42);
    let digits = fmt_usize(len);
    append_bytes(out, digits.as_slice());
    out.push(13);
    out.push(10);
    proof {
        assert(final(out)@ =~= old(out)@ + seq![42u8] + dec_rep(len as nat) + spec_crlf());
    }
}

impl Reply {
    /// Serialize the reply onto the end of a buffer.
    pub fn encode(&self, out: &mut Vec<u8>)
        ensures
            final(out)@ == old(out)@ + spec_encode(*self),
        decreases *self,
    {
        match self {
            Reply::Simple(s) => {
                out.push(43);
                append_bytes(out, s.as_slice());
                out.push(13);
                out.push(10);
                proof {
                    assert(final(out)@ =~= old(out)@ + spec_encode(*self));
                }
            },
            Reply::Error(s) => {
                out.push(45);
                append_bytes(out, s.as_slice());
                out.push(13);
                out.push(10);
                proof {
                    assert(final(out)@ =~= old(out)@ + spec_encode(*self));
                }
            },
            Reply::Integer(n) => {
                out.push(58);
                let digits = fmt_i64(*n);
                append_bytes(out, digits.as_slice());
                out.push(13);
                out.push(10);
                proof {
                    assert(final(out)@ =~= old(out)@ + spec_encode(*self));
                }
            },
            Reply::Bulk(Some(b)) => {
                out.push(36);
                let digits = fmt_usize(b.len());
                append_bytes(out, digits.as_slice());
                out.push(13);
                out.push(10);
                append_bytes(out, b.as_slice());
                out.push(13);
                out.push(10);
                proof {
                    assert(final(out)@ =~= old(out)@ + spec_encode(*self));
                }
            },
            Reply::Bulk(None) => {
                out.push(36);
                out.push(45);
                out.push(49);
                out.push(13);
                out.push(10);
                proof {
                    assert(final(out)@ =~= old(out)@ + spec_encode(*self));
                }
            },
            Reply::Array(items) => {
                array_header(out, items.len());
                let ghost base = out@;
                let mut i: usize = 0;
                while i < items.len()
                    invariant
                        i <= items@.len(),
                        out@ == base + spec_encode_items(items@.take(i as int)),
                        forall|j: int|
                            0 <= j < items@.len() ==> decreases_to!(*self => items@[j]),
                    decreases items@.len() - i,
                {
                    let ghost pre = out@;
                    items[i].encode(out);
                    proof {
                        assert(items@.take(i + 1) =~= items@.take(i as int).push(items@[i as int]));
                        lemma_encode_items_push(items@.take(i as int), items@[i as int]);
                        assert(base + spec_encode_items(items@.take(i as int)) + spec_encode(
                            items@[i as int],
                        ) =~= base + (spec_encode_items(items@.take(i as int)) + spec_encode(
                            items@[i as int],
                        )));
                    }
                    i = i + 1;
                }
                proof {
                    assert(items@.take(items@.len() as int) =~= items@);
                    assert(spec_encode_items(Seq::<Reply>::empty()) =~= Seq::<u8>::empty());
                    assert(base + Seq::<u8>::empty() =~= base);
                    assert(final(out)@ =~= old(out)@ + spec_encode(*self));
                }
            },
        }
    }

    /// The reply as one flat byte buffer.
    pub fn to_bytes(&self) -> (r: Vec<u8>)
        ensures
            r@ == spec_encode(*self),
    {
        let mut out: Vec<u8> = Vec::new();
        self.encode(&mut out);
        proof {
            assert(Seq::<u8>::empty() + spec_encode(*self) =~= spec_encode(*self));
        }
        out
    }

    /// The reply as write segments for a gather write: concatenated, they
    /// are exactly the reply's RESP bytes.  Bulk and simple replies keep
    /// the header, the payload and the trailer as separate segments.
    pub fn encode_segments(&self) -> (r: Vec<Vec<u8>>)
        ensures
            r@.map_values(|v: Vec<u8>| v@).flatten() == spec_encode(*self),
    {
        let mut segs: Vec<Vec<u8>> = Vec::new();
        match self {
            Reply::Simple(s) => {
                let mut head: Vec<u8> = Vec::new();
                head.push(43);
                segs.push(head);
                segs.push(crate::util::copy_bytes(s));
                let mut tail: Vec<u8> = Vec::new();
                tail.push(13);
                tail.push(10);
                segs.push(tail);
            },
            Reply::Error(s) => {
                let mut head: Vec<u8> = Vec::new();
                head.push(45);
                segs.push(head);
                segs.push(crate::util::copy_bytes(s));
                let mut tail: Vec<u8> = Vec::new();
                tail.push(13);
                tail.push(10);
                segs.push(tail);
            },
            Reply::Bulk(Some(b)) => {
                let mut head: Vec<u8> = Vec::new();
                head.push(36);
                let digits = fmt_usize(b.len());
                append_bytes(&mut head, digits.as_slice());
                head.push(13);
                head.push(10);
                segs.push(head);
                segs.push(crate::util::copy_bytes(b));
                let mut tail: Vec<u8> = Vec::new();
                tail.push(13);
                tail.push(10);
                segs.push(tail);
            },
            _ => {
                segs.push(self.to_bytes());
            },
        }
        proof {
            lemma_flatten_segments(segs@.map_values(|v: Vec<u8>| v@));
            assert(segs@.map_values(|v: Vec<u8>| v@).flatten() =~= spec_encode(*self));
        }
        segs
    }
}

/// Flattening at most three segments, written out.
proof fn lemma_flatten_segments(s: Seq<Seq<u8>>)
    ensures
        s.len() == 1 ==> s.flatten() == s[0] + Seq::<u8>::empty(),
        s.len() == 3 ==> s.flatten() == s[0] + (s[1] + (s[2] + Seq::<u8>::empty())),
{
    if s.len() == 1 {
        assert(s.drop_first() =~= Seq::<Seq<u8>>::empty());
        assert(s.flatten() == s[0] + s.drop_first().flatten());
    }
    if s.len() == 3 {
        let s1 = s.drop_first();
        let s2 = s1.drop_first();
        assert(s2.drop_first() =~= Seq::<Seq<u8>>::empty());
        assert(s.flatten() == s[0] + s1.flatten());
        assert(s1.flatten() == s1[0] + s2.flatten());
        assert(s2.flatten() == s2[0] + s2.drop_first().flatten());
        assert(s1[0] == s[1]);
        assert(s2[0] == s[2]);
    }
}

/// The bulk content of an array element; elements that are not bulks have
/// no content.
pub open spec fn spec_bulk_content(e: Reply) -> Seq<u8> {
    match e {
        Reply::Bulk(Some(b)) => b@,
        _ => Seq::empty(),
    }
}

/// `r` is the simple string `s`.
pub open spec fn reply_is_simple(r: Reply, s: Seq<u8>) -> bool {
    r matches Reply::Simple(v) && v@ == s
}

/// `r` is the error string `s`.
pub open spec fn reply_is_error(r: Reply, s: Seq<u8>) -> bool {
    r matches Reply::Error(v) && v@ == s
}

/// `r` is the integer `n`.
pub open spec fn reply_is_integer(r: Reply, n: int) -> bool {
    r matches Reply::Integer(x) && x == n
}

/// `r` is the bulk (or null bulk) carrying `o`.
pub open spec fn reply_is_bulk(r: Reply, o: Option<Seq<u8>>) -> bool {
    match r {
        Reply::Bulk(Some(v)) => o matches Some(b) && v@ == b,
        Reply::Bulk(None) => o is None,
        _ => false,
    }
}

/// `r` is an array of bulks carrying exactly `items`, in order.
pub open spec fn reply_is_bulk_array(r: Reply, items: Seq<Seq<u8>>) -> bool {
    r matches Reply::Array(elems) && elems@.len() == items.len() && forall|i: int|
        0 <= i < items.len() ==> reply_is_bulk(#[trigger] elems@[i], Some(items[i]))
}

/// `r` is an array of bulks or null bulks carrying exactly `items`, in
/// order.
pub open spec fn reply_is_optbulk_array(r: Reply, items: Seq<Option<Seq<u8>>>) -> bool {
    r matches Reply::Array(elems) && elems@.len() == items.len() && forall|i: int|
        0 <= i < items.len() ==> reply_is_bulk(#[trigger] elems@[i], items[i])
}

/// `r` is an array of bulks carrying the members of `s`, each exactly
/// once, in some order.
pub open spec fn reply_is_members(r: Reply, s: Set<Seq<u8>>) -> bool {
    r matches Reply::Array(elems) && {
        let contents = elems@.map_values(|e: Reply| spec_bulk_content(e));
        &&& forall|i: int|
            0 <= i < elems@.len() ==> ((#[trigger] elems@[i]) matches Reply::Bulk(o) && o is Some)
        &&& contents.to_set() == s
        &&& contents.no_duplicates()
        &&& elems@.len() == s.len()
    }
}

/// An array reply of one bulk per byte string, in order.
pub fn bulk_array(items: Vec<Vec<u8>>) -> (r: Reply)
    ensures
        reply_is_bulk_array(r, items@.map_values(|v: Vec<u8>| v@)),
        r matches Reply::Array(elems) && elems@.map_values(|e: Reply| spec_bulk_content(e))
            == items@.map_values(|v: Vec<u8>| v@),
{
    let ghost its = items@.map_values(|v: Vec<u8>| v@);
    let mut elems: Vec<Reply> = Vec::new();
    let mut i: usize = 0;
    while i < items.len()
        invariant
            i <= its.len(),
            its == items@.map_values(|v: Vec<u8>| v@),
            elems@.len() == i,
            forall|j: int| 0 <= j < i ==> reply_is_bulk(#[trigger] elems@[j], Some(its[j])),
        decreases its.len() - i,
    {
        elems.push(Reply::Bulk(Some(crate::util::copy_bytes(&items[i]))));
        i = i + 1;
    }
    let r = Reply::Array(elems);
    proof {
        let elems2 = r->Array_0;
        assert(elems2@.map_values(|e: Reply| spec_bulk_content(e)) =~= its);
    }
    r
}

/// An array reply of one bulk or null bulk per optional byte string, in
/// order.
pub fn optbulk_array(items: Vec<Option<Vec<u8>>>) -> (r: Reply)
    ensures
        reply_is_optbulk_array(
            r,
            items@.map_values(
                |o: Option<Vec<u8>>|
                    match o {
                        Some(v) => Some(v@),
                        None => None,
                    },
            ),
        ),
{
    let ghost its = items@.map_values(
        |o: Option<Vec<u8>>|
            match o {
                Some(v) => Some(v@),
                None => None,
            },
    );
    let mut elems: Vec<Reply> = Vec::new();
    let mut i: usize = 0;
    while i < items.len()
        invariant
            i <= its.len(),
            its == items@.map_values(
                |o: Option<Vec<u8>>|
                    match o {
                        Some(v) => Some(v@),
                        None => None,
                    },
            ),
            its.len() == items@.len(),
            elems@.len() == i,
            forall|j: int| 0 <= j < i ==> reply_is_bulk(#[trigger] elems@[j], its[j]),
        decreases its.len() - i,
    {
        let one: Reply = match &items[i] {
            Some(v) => Reply::Bulk(Some(crate::util::copy_bytes(v))),
            None => Reply::Bulk(None),
        };
        elems.push(one);
        i = i + 1;
    }
    Reply::Array(elems)
}

/// The integer a counting command replies with: the count, held to the
/// wire integer's range.
pub open spec fn int_reply(n: nat) -> int {
    if n > i64::MAX {
        i64::MAX as int
    } else {
        n as int
    }
}

/// An integer reply carrying a count.
pub fn integer_reply(n: usize) -> (r: Reply)
    ensures
        reply_is_integer(r, int_reply(n as nat)),
{
    if n as u64 > i64::MAX as u64 {
        Reply::Integer(i64::MAX)
    } else {
        Reply::Integer(n as i64)
    }
}

} // verus!
