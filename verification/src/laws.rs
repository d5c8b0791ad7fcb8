//! Store-level laws: facts that relate several operations, stated over the
//! same model functions the operations' own contracts use.

use vstd::prelude::*;

use crate::database::{
    store_get, store_list_at, store_llen, store_lpop, store_lpush, store_lrange, store_mget,
    store_mget_one, store_rpop, store_rpush, store_sadd, store_scard, store_set, store_smembers,
};
use crate::list::{spec_lrange, spec_range, spec_rebase};
use crate::members::spec_sadd;
use crate::value::{TypeError, ValueModel};

verus! {

/// A key holds at most one variant at a time, and a command that needs a
/// different variant is refused; the refusing operations leave the store
/// unchanged, as each operation's own contract states.
pub proof fn lemma_type_invariant(m: Map<Seq<u8>, ValueModel>, k: Seq<u8>, vs: Seq<Seq<u8>>)
    ensures
        m.contains_key(k) && !(m[k] is ListV) ==> store_lpush(m, k, vs) is Err && store_rpush(
            m,
            k,
            vs,
        ) is Err && store_lpop(m, k) is Err && store_rpop(m, k) is Err && store_llen(m, k) is Err
            && store_lrange(m, k, 0, -1) is Err,
        m.contains_key(k) && !(m[k] is SetV) ==> store_sadd(m, k, vs) is Err && store_scard(
            m,
            k,
        ) is Err && store_smembers(m, k) is Err,
        m.contains_key(k) && !(m[k] is Str) ==> store_get(m, k) is Err,
{
}

/// Round trip: after SET stores any byte string, of any content, GET
/// returns exactly that byte string.
pub proof fn lemma_set_then_get(m: Map<Seq<u8>, ValueModel>, k: Seq<u8>, b: Seq<u8>)
    ensures
        store_get(store_set(m, k, b), k) == Ok::<Option<Seq<u8>>, TypeError>(Some(b)),
{
}

/// LPUSH order: after pushing `vs` onto a key with no value, a full-range
/// scan returns `vs` reversed — the last value given comes out first.
pub proof fn lemma_lpush_order(m: Map<Seq<u8>, ValueModel>, k: Seq<u8>, vs: Seq<Seq<u8>>)
    requires
        !m.contains_key(k),
    ensures
        store_lpush(m, k, vs) matches Ok(p) && store_lrange(p.0, k, 0, -1) == Ok::<
            Seq<Seq<u8>>,
            TypeError,
        >(vs.reverse()),
{
    let l = vs.reverse() + Seq::<Seq<u8>>::empty();
    assert(l =~= vs.reverse());
    let p = (m.insert(k, ValueModel::ListV(l)), l.len());
    assert(store_lpush(m, k, vs) == Ok::<(Map<Seq<u8>, ValueModel>, nat), TypeError>(p));
    lemma_full_range(l);
}

/// RPUSH order: after pushing `vs` onto a key with no value, a full-range
/// scan returns `vs` in the order given.
pub proof fn lemma_rpush_order(m: Map<Seq<u8>, ValueModel>, k: Seq<u8>, vs: Seq<Seq<u8>>)
    requires
        !m.contains_key(k),
    ensures
        store_rpush(m, k, vs) matches Ok(p) && store_lrange(p.0, k, 0, -1) == Ok::<
            Seq<Seq<u8>>,
            TypeError,
        >(vs),
{
    let l = Seq::<Seq<u8>>::empty() + vs;
    assert(l =~= vs);
    let p = (m.insert(k, ValueModel::ListV(l)), l.len());
    assert(store_rpush(m, k, vs) == Ok::<(Map<Seq<u8>, ValueModel>, nat), TypeError>(p));
    lemma_full_range(l);
}

/// A scan from 0 to -1 returns the whole list.
pub proof fn lemma_full_range(l: Seq<Seq<u8>>)
    ensures
        spec_lrange(l, 0, -1) == l,
{
    if l.len() == 0 {
        assert(spec_lrange(l, 0, -1) =~= l);
    } else {
        assert(spec_range(l.len() as int, 0, -1) == (0int, l.len() as int));
        assert(l.subrange(0, l.len() as int) =~= l);
    }
}

/// Range clamping: a scan returns exactly
/// `max(0, min(stop', n - 1) - max(start', 0) + 1)` elements, where the
/// primed values are the indices after negative rewriting against the list
/// length `n`.
pub proof fn lemma_range_clamping(s: Seq<Seq<u8>>, start: int, stop: int)
    ensures
        spec_lrange(s, start, stop).len() == vstd::math::max(
            0,
            vstd::math::min(spec_rebase(stop, s.len() as int), s.len() as int - 1)
                - vstd::math::max(spec_rebase(start, s.len() as int), 0) + 1,
        ),
{
    let n = s.len() as int;
    let e = spec_rebase(stop, n);
    let st = spec_rebase(start, n);
    if st >= n || e < 0 || e < st {
        assert(spec_lrange(s, start, stop).len() == 0);
    }
}

/// SADD idempotence: adding one member to a key with no value reports one
/// new member; adding it again reports none; the cardinality is one.
pub proof fn lemma_sadd_idempotent(m: Map<Seq<u8>, ValueModel>, k: Seq<u8>, x: Seq<u8>)
    requires
        !m.contains_key(k),
    ensures
        store_sadd(m, k, seq![x]) matches Ok(p1) && p1.1 == 1 && (store_sadd(p1.0, k, seq![x])
            matches Ok(p2) && p2.1 == 0 && store_scard(p2.0, k) == Ok::<nat, TypeError>(1)),
{
    broadcast use vstd::set::group_set_axioms;

    let s0 = Set::<Seq<u8>>::empty();
    assert(seq![x][0] == x);
    assert(seq![x].skip(1) =~= Seq::<Seq<u8>>::empty());
    assert(!s0.contains(x));
    let s1 = s0.insert(x);
    assert(spec_sadd(s1, Seq::<Seq<u8>>::empty()) == (s1, 0nat));
    assert(spec_sadd(s0, seq![x]) == (s1, 1nat));
    assert(s1.contains(x));
    assert(s1.insert(x) =~= s1);
    assert(spec_sadd(s1, seq![x]) == (s1, 0nat));
    assert(s1.len() == 1);
}

/// MGET totality: the reply has exactly one entry per key, and each entry
/// is the string stored under its key, or nothing when the key is absent
/// or holds another variant.
pub proof fn lemma_mget_totality(m: Map<Seq<u8>, ValueModel>, ks: Seq<Seq<u8>>)
    ensures
        store_mget(m, ks).len() == ks.len(),
        forall|i: int|
            0 <= i < ks.len() ==> #[trigger] store_mget(m, ks)[i] == store_mget_one(m, ks[i]),
        forall|i: int|
            0 <= i < ks.len() ==> (store_mget_one(m, #[trigger] ks[i]) matches Some(b)
                ==> m.contains_key(ks[i]) && m[ks[i]] == ValueModel::Str(b)),
        forall|i: int|
            0 <= i < ks.len() ==> (store_mget_one(m, #[trigger] ks[i]) is None ==> !m.contains_key(
                ks[i],
            ) || !(m[ks[i]] is Str)),
{
}

/// The sequential core of the concurrent counting property: one push of
/// `vs` onto a list-typed or absent key grows the observable length by
/// exactly `vs.len()`.  Each push is atomic at the store, so any
/// interleaving of pushes adds its values' count.
pub proof fn lemma_lpush_llen(m: Map<Seq<u8>, ValueModel>, k: Seq<u8>, vs: Seq<Seq<u8>>)
    requires
        store_list_at(m, k) is Ok,
    ensures
        store_lpush(m, k, vs) matches Ok(p) && store_llen(p.0, k) == Ok::<nat, TypeError>(
            (store_list_at(m, k)->Ok_0.len() + vs.len()) as nat,
        ),
{
}

/// The store after `count` single-value pushes onto one key, one command
/// at a time.
pub open spec fn repeat_lpush(
    m: Map<Seq<u8>, ValueModel>,
    k: Seq<u8>,
    v: Seq<u8>,
    count: nat,
) -> Map<Seq<u8>, ValueModel>
    decreases count,
{
    if count == 0 {
        m
    } else {
        store_lpush(repeat_lpush(m, k, v, (count - 1) as nat), k, seq![v])->Ok_0.0
    }
}

/// The counting property behind concurrent pushes: `count` single-value
/// pushes onto a list-typed or absent key each succeed, and the observable
/// length afterwards is the starting length plus exactly `count`.  Each
/// push is atomic at the store, so any interleaving of pushes from many
/// clients applies them in some order this law covers.
pub proof fn lemma_repeated_lpush_count(
    m: Map<Seq<u8>, ValueModel>,
    k: Seq<u8>,
    v: Seq<u8>,
    count: nat,
)
    requires
        store_list_at(m, k) is Ok,
    ensures
        store_list_at(repeat_lpush(m, k, v, count), k) matches Ok(l) && l.len() == store_list_at(
            m,
            k,
        )->Ok_0.len() + count,
        store_llen(repeat_lpush(m, k, v, count), k) == Ok::<nat, TypeError>(
            (store_list_at(m, k)->Ok_0.len() + count) as nat,
        ),
    decreases count,
{
    if count == 0 {
    } else {
        lemma_repeated_lpush_count(m, k, v, (count - 1) as nat);
        let m1 = repeat_lpush(m, k, v, (count - 1) as nat);
        let l1 = store_list_at(m1, k)->Ok_0;
        assert(seq![v].reverse() =~= seq![v]);
        assert(store_lpush(m1, k, seq![v]) matches Ok(p) && p.0 == m1.insert(
            k,
            ValueModel::ListV(seq![v] + l1),
        ));
    }
}

} // verus!
