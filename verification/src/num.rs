//! Decimal numerals on the wire: parsing and formatting, with the
//! round-trip facts the codec proofs need.

use vstd::prelude::*;

verus! {

/// `b` is an ASCII decimal digit.
pub open spec fn is_digit(b: u8) -> bool {
    48 <= b && b <= 57
}

/// Every byte of `s` is a digit.
pub open spec fn all_digits(s: Seq<u8>) -> bool {
    forall|i: int| 0 <= i < s.len() ==> is_digit(#[trigger] s[i])
}

/// `s` is a well-formed unsigned numeral: nonempty, digits only.
pub open spec fn is_numeral(s: Seq<u8>) -> bool {
    s.len() > 0 && all_digits(s)
}

/// Value of a digit string, most significant first.
pub open spec fn dec_val(s: Seq<u8>) -> nat
    decreases s.len(),
{
    if s.len() == 0 {
        0
    } else {
        dec_val(s.drop_last()) * 10 + (s.last() - 48) as nat
    }
}

/// Canonical numeral of `n`: no leading zeros.
pub open spec fn dec_rep(n: nat) -> Seq<u8>
    decreases n,
{
    if n < 10 {
        seq![(48 + n) as u8]
    } else {
        dec_rep(n / 10).push((48 + n % 10) as u8)
    }
}

/// `s` is a well-formed signed numeral: an optional minus sign, then digits.
pub open spec fn is_signed_numeral(s: Seq<u8>) -> bool {
    if s.len() > 0 && s[0] == 45 {
        is_numeral(s.skip(1))
    } else {
        is_numeral(s)
    }
}

/// Value of a signed numeral.
pub open spec fn signed_val(s: Seq<u8>) -> int {
    if s.len() > 0 && s[0] == 45 {
        -(dec_val(s.skip(1)) as int)
    } else {
        dec_val(s) as int
    }
}

/// Canonical signed numeral of `i`.
pub open spec fn signed_rep(i: int) -> Seq<u8> {
    if i < 0 {
        seq![45u8] + dec_rep((-i) as nat)
    } else {
        dec_rep(i as nat)
    }
}

/// The value of a digit string never shrinks when more digits follow.
pub proof fn lemma_dec_val_prefix(s: Seq<u8>, i: int)
    requires
        0 <= i <= s.len(),
    ensures
        dec_val(s.take(i)) <= dec_val(s),
    decreases s.len() - i,
{
    if i < s.len() {
        assert(s.take(i + 1).drop_last() =~= s.take(i));
        assert(dec_val(s.take(i + 1)) == dec_val(s.take(i)) * 10 + (s.take(i + 1).last()
            - 48) as nat);
        lemma_dec_val_prefix(s, i + 1);
        assert(s.take(s.len() as int) =~= s);
    } else {
        assert(s.take(i) =~= s);
    }
}

/// A canonical numeral is made of digits and never starts with a zero
/// unless it is exactly "0".
pub proof fn lemma_dec_rep_wf(n: nat)
    ensures
        is_numeral(dec_rep(n)),
        dec_val(dec_rep(n)) == n,
        n >= 10 ==> dec_rep(n)[0] != 48,
        n >= 1 ==> dec_rep(n)[0] != 48,
    decreases n,
{
    if n < 10 {
        assert(dec_rep(n) =~= seq![(48 + n) as u8]);
        assert(dec_rep(n).drop_last() =~= Seq::<u8>::empty());
        assert(dec_val(dec_rep(n)) == dec_val(dec_rep(n).drop_last()) * 10 + (dec_rep(n).last()
            - 48) as nat);
        assert(dec_val(dec_rep(n)) == n);
    } else {
        lemma_dec_rep_wf(n / 10);
        assert(dec_rep(n) == dec_rep(n / 10).push((48 + n % 10) as u8));
        assert(dec_rep(n).drop_last() =~= dec_rep(n / 10));
        assert(dec_val(dec_rep(n)) == dec_val(dec_rep(n / 10)) * 10 + n % 10);
        vstd::arithmetic::div_mod::lemma_fundamental_div_mod(n as int, 10);
        assert(forall|i: int| 0 <= i < dec_rep(n).len() ==> is_digit(#[trigger] dec_rep(n)[i]));
    }
}

/// Parse an unsigned numeral into a `usize`; `None` on malformed input or
/// a value out of range.
pub fn parse_usize(s: &[u8]) -> (r: Option<usize>)
    ensures
        match r {
            Some(v) => is_numeral(s@) && dec_val(s@) == v,
            None => !(is_numeral(s@) && dec_val(s@) <= usize::MAX),
        },
{
    if s.len() == 0 {
        return None;
    }
    let mut acc: usize = 0;
    let mut i: usize = 0;
    while i < s.len()
        invariant
            i <= s@.len(),
            all_digits(s@.take(i as int)),
            acc == dec_val(s@.take(i as int)),
        decreases s@.len() - i,
    {
        let b = s[i];
        if b < 48 || b > 57 {
            return None;
        }
        let d = (b - 48) as usize;
        proof {
            assert(s@.take(i + 1).drop_last() =~= s@.take(i as int));
        }
        if acc > (usize::MAX - d) / 10 {
            proof {
                lemma_dec_val_prefix(s@, i + 1);
            }
            return None;
        }
        acc = acc * 10 + d;
        i = i + 1;
    }
    proof {
        assert(s@.take(s@.len() as int) =~= s@);
    }
    Some(acc)
}

/// Parse an unsigned numeral into a `u64`.
pub fn parse_u64(s: &[u8]) -> (r: Option<u64>)
    ensures
        match r {
            Some(v) => is_numeral(s@) && dec_val(s@) == v,
            None => !(is_numeral(s@) && dec_val(s@) <= u64::MAX),
        },
{
    if s.len() == 0 {
        return None;
    }
    let mut acc: u64 = 0;
    let mut i: usize = 0;
    while i < s.len()
        invariant
            i <= s@.len(),
            all_digits(s@.take(i as int)),
            acc == dec_val(s@.take(i as int)),
        decreases s@.len() - i,
    {
        let b = s[i];
        if b < 48 || b > 57 {
            return None;
        }
        let d = (b - 48) as u64;
        proof {
            assert(s@.take(i + 1).drop_last() =~= s@.take(i as int));
        }
        if acc > (u64::MAX - d) / 10 {
            proof {
                lemma_dec_val_prefix(s@, i + 1);
            }
            return None;
        }
        acc = acc * 10 + d;
        i = i + 1;
    }
    proof {
        assert(s@.take(s@.len() as int) =~= s@);
    }
    Some(acc)
}

/// Parse an unsigned numeral into a `u128`.
pub fn parse_u128(s: &[u8]) -> (r: Option<u128>)
    ensures
        match r {
            Some(v) => is_numeral(s@) && dec_val(s@) == v,
            None => !(is_numeral(s@) && dec_val(s@) <= u128::MAX),
        },
{
    if s.len() == 0 {
        return None;
    }
    let mut acc: u128 = 0;
    let mut i: usize = 0;
    while i < s.len()
        invariant
            i <= s@.len(),
            all_digits(s@.take(i as int)),
            acc == dec_val(s@.take(i as int)),
        decreases s@.len() - i,
    {
        let b = s[i];
        if b < 48 || b > 57 {
            return None;
        }
        let d = (b - 48) as u128;
        proof {
            assert(s@.take(i + 1).drop_last() =~= s@.take(i as int));
        }
        if acc > (u128::MAX - d) / 10 {
            proof {
                lemma_dec_val_prefix(s@, i + 1);
            }
            return None;
        }
        acc = acc * 10 + d;
        i = i + 1;
    }
    proof {
        assert(s@.take(s@.len() as int) =~= s@);
    }
    Some(acc)
}

/// Parse a signed numeral into an `i64`.
pub fn parse_i64(s: &[u8]) -> (r: Option<i64>)
    ensures
        match r {
            Some(v) => is_signed_numeral(s@) && signed_val(s@) == v,
            None => !(is_signed_numeral(s@) && i64::MIN <= signed_val(s@) <= i64::MAX),
        },
{
    if s.len() == 0 {
        return None;
    }
    if s[0] == 45 {
        let rest = vstd::slice::slice_subrange(s, 1, s.len());
        match parse_u64(rest) {
            Some(m) => {
                if m <= i64::MAX as u64 {
                    Some(-(m as i64))
                } else if m == i64::MAX as u64 + 1 {
                    Some(i64::MIN)
                } else {
                    None
                }
            },
            None => None,
        }
    } else {
        match parse_u64(s) {
            Some(m) => {
                if m <= i64::MAX as u64 {
                    Some(m as i64)
                } else {
                    None
                }
            },
            None => None,
        }
    }
}

/// Format `n` as its canonical numeral.
pub fn fmt_u64(n: u64) -> (r: Vec<u8>)
    ensures
        r@ == dec_rep(n as nat),
{
    let mut out: Vec<u8> = Vec::new();
    let mut m: u64 = n;
    if m < 10 {
        out.push(48 + (m as u8));
        return out;
    }
    out.insert(0, 48 + ((m % 10) as u8));
    m = m / 10;
    while m >= 10
        invariant
            dec_rep(n as nat) == dec_rep(m as nat) + out@,
        decreases m,
    {
        proof {
            assert(dec_rep(m as nat) == dec_rep((m / 10) as nat).push((48 + m % 10) as u8));
            assert(dec_rep((m / 10) as nat).push((48 + m % 10) as u8) =~= dec_rep((m / 10) as nat)
                + seq![(48 + m % 10) as u8]);
            assert(dec_rep((m / 10) as nat) + seq![(48 + m % 10) as u8] + out@ =~= dec_rep(
                (m / 10) as nat,
            ) + (seq![(48 + m % 10) as u8] + out@));
        }
        out.insert(0, 48 + ((m % 10) as u8));
        m = m / 10;
    }
    proof {
        assert(dec_rep(m as nat) =~= seq![(48 + m) as u8]);
        assert(seq![(48 + m) as u8] + out@ =~= out@.insert(0, (48 + m) as u8));
    }
    out.insert(0, 48 + (m as u8));
    out
}

/// Format `n` as its canonical numeral.
pub fn fmt_usize(n: usize) -> (r: Vec<u8>)
    ensures
        r@ == dec_rep(n as nat),
{
    fmt_u64(n as u64)
}

/// Format `i` as its canonical signed numeral.
pub fn fmt_i64(i: i64) -> (r: Vec<u8>)
    ensures
        r@ == signed_rep(i as int),
{
    if i >= 0 {
        let r = fmt_u64(i as u64);
        r
    } else {
        let mag: u64 = if i == i64::MIN {
            i64::MAX as u64 + 1
        } else {
            (-i) as u64
        };
        let mut r = fmt_u64(mag);
        r.insert(0, 45);
        proof {
            assert(r@ =~= seq![45u8] + dec_rep(mag as nat));
        }
        r
    }
}

} // verus!
