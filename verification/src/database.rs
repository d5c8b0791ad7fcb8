//! The sharded store: a fixed array of independently held shards, routing
//! each key by a checksum of its bytes, with typed dispatch per command.

use vstd::prelude::*;

use crate::key::Key;
use crate::list::List;
use crate::members::SetMembers;
use crate::slot::Slot;
use crate::strings::Strings;
use crate::value::{Item, TypeError, Value, ValueModel};

verus! {

/// Number of shards; fixed at startup.
pub const SLOT_LEN: u32 = 32;

/// Checksum a key routes by.
///
/// Relies on crc32fast::hash producing the CRC-32 (IEEE) checksum, a
/// function of the bytes alone.
pub uninterp spec fn crc32_of(bytes: Seq<u8>) -> u32;

/// Relies on crc32fast::hash: the CRC-32 (IEEE) checksum of the bytes.
#[verifier::external_body]
fn crc32(bytes: &[u8]) -> (r: u32)
    ensures
        r == crc32_of(bytes@),
{
    crc32fast::hash(bytes)
}

/// The shard index a key routes to.
pub open spec fn spec_point(k: Seq<u8>) -> int {
    (crc32_of(k) % 32) as int
}

/// The whole store as one mathematical map from key bytes to value content.
pub open spec fn empty_store() -> Map<Seq<u8>, ValueModel> {
    Map::empty()
}

/// Does an optional byte string carry exactly the optional content `so`?
pub open spec fn opt_bytes_is(o: Option<Vec<u8>>, so: Option<Seq<u8>>) -> bool {
    match o {
        Some(v) => so matches Some(b) && v@ == b,
        None => so is None,
    }
}

/// What GET returns against a store: the string under the key, `None` when
/// absent, a type error when another variant lives there.
pub open spec fn store_get(m: Map<Seq<u8>, ValueModel>, k: Seq<u8>) -> Result<
    Option<Seq<u8>>,
    TypeError,
> {
    if !m.contains_key(k) {
        Ok(None)
    } else {
        match m[k] {
            ValueModel::Str(b) => Ok(Some(b)),
            _ => Err(TypeError),
        }
    }
}

/// What SET does to a store: the key now holds the string, whatever was
/// there before.
pub open spec fn store_set(m: Map<Seq<u8>, ValueModel>, k: Seq<u8>, b: Seq<u8>) -> Map<
    Seq<u8>,
    ValueModel,
> {
    m.insert(k, ValueModel::Str(b))
}

/// What LLEN returns against a store.
pub open spec fn store_llen(m: Map<Seq<u8>, ValueModel>, k: Seq<u8>) -> Result<nat, TypeError> {
    if !m.contains_key(k) {
        Ok(0)
    } else {
        match m[k] {
            ValueModel::ListV(l) => Ok(l.len()),
            _ => Err(TypeError),
        }
    }
}

/// What LRANGE returns against a store.
pub open spec fn store_lrange(m: Map<Seq<u8>, ValueModel>, k: Seq<u8>, start: int, stop: int) -> Result<
    Seq<Seq<u8>>,
    TypeError,
> {
    if !m.contains_key(k) {
        Ok(Seq::empty())
    } else {
        match m[k] {
            ValueModel::ListV(l) => Ok(crate::list::spec_lrange(l, start, stop)),
            _ => Err(TypeError),
        }
    }
}

/// What SCARD returns against a store.
pub open spec fn store_scard(m: Map<Seq<u8>, ValueModel>, k: Seq<u8>) -> Result<nat, TypeError> {
    if !m.contains_key(k) {
        Ok(0)
    } else {
        match m[k] {
            ValueModel::SetV(s) => Ok(s.len()),
            _ => Err(TypeError),
        }
    }
}

/// What SMEMBERS returns against a store: the member set; its enumeration
/// order on the wire is unspecified.
pub open spec fn store_smembers(m: Map<Seq<u8>, ValueModel>, k: Seq<u8>) -> Result<
    Set<Seq<u8>>,
    TypeError,
> {
    if !m.contains_key(k) {
        Ok(Set::empty())
    } else {
        match m[k] {
            ValueModel::SetV(s) => Ok(s),
            _ => Err(TypeError),
        }
    }
}

/// What MGET returns for one key: the string under it, `None` when absent
/// or when another variant lives there; never an error.
pub open spec fn store_mget_one(m: Map<Seq<u8>, ValueModel>, k: Seq<u8>) -> Option<Seq<u8>> {
    if m.contains_key(k) && m[k] matches ValueModel::Str(b) {
        Some(m[k]->Str_0)
    } else {
        None
    }
}

/// What MGET returns: one entry per key, aligned with the input.
pub open spec fn store_mget(m: Map<Seq<u8>, ValueModel>, ks: Seq<Seq<u8>>) -> Seq<Option<Seq<u8>>> {
    Seq::new(ks.len(), |i: int| store_mget_one(m, ks[i]))
}

/// What DEL does: each present key removed, and how many were present.
pub open spec fn store_del(m: Map<Seq<u8>, ValueModel>, ks: Seq<Seq<u8>>) -> (
    Map<Seq<u8>, ValueModel>,
    nat,
)
    decreases ks.len(),
{
    if ks.len() == 0 {
        (m, 0)
    } else {
        let hit: nat = if m.contains_key(ks[0]) {
            1
        } else {
            0
        };
        let rest = store_del(m.remove(ks[0]), ks.skip(1));
        (rest.0, hit + rest.1)
    }
}

/// What MSET does: each pair written in order, later pairs winning.
pub open spec fn store_mset(m: Map<Seq<u8>, ValueModel>, ps: Seq<(Seq<u8>, Seq<u8>)>) -> Map<
    Seq<u8>,
    ValueModel,
>
    decreases ps.len(),
{
    if ps.len() == 0 {
        m
    } else {
        store_mset(m.insert(ps[0].0, ValueModel::Str(ps[0].1)), ps.skip(1))
    }
}

/// The list a push-style command starts from: the stored list, the empty
/// list for an absent key, a type error for any other variant.
pub open spec fn store_list_at(m: Map<Seq<u8>, ValueModel>, k: Seq<u8>) -> Result<
    Seq<Seq<u8>>,
    TypeError,
> {
    if !m.contains_key(k) {
        Ok(Seq::empty())
    } else {
        match m[k] {
            ValueModel::ListV(l) => Ok(l),
            _ => Err(TypeError),
        }
    }
}

/// What LPUSH does: each value prepended in order, so the last value given
/// ends up at the head; the result carries the new length.
pub open spec fn store_lpush(m: Map<Seq<u8>, ValueModel>, k: Seq<u8>, vs: Seq<Seq<u8>>) -> Result<
    (Map<Seq<u8>, ValueModel>, nat),
    TypeError,
> {
    match store_list_at(m, k) {
        Ok(l) => {
            let nl = vs.reverse() + l;
            Ok((m.insert(k, ValueModel::ListV(nl)), nl.len()))
        },
        Err(e) => Err(e),
    }
}

/// What RPUSH does: each value appended in order.
pub open spec fn store_rpush(m: Map<Seq<u8>, ValueModel>, k: Seq<u8>, vs: Seq<Seq<u8>>) -> Result<
    (Map<Seq<u8>, ValueModel>, nat),
    TypeError,
> {
    match store_list_at(m, k) {
        Ok(l) => {
            let nl = l + vs;
            Ok((m.insert(k, ValueModel::ListV(nl)), nl.len()))
        },
        Err(e) => Err(e),
    }
}

/// What LPOP does: the head element leaves the list; an absent key or an
/// empty list yields `None` and no change.
pub open spec fn store_lpop(m: Map<Seq<u8>, ValueModel>, k: Seq<u8>) -> Result<
    (Map<Seq<u8>, ValueModel>, Option<Seq<u8>>),
    TypeError,
> {
    if !m.contains_key(k) {
        Ok((m, None))
    } else {
        match m[k] {
            ValueModel::ListV(l) => if l.len() == 0 {
                Ok((m, None))
            } else {
                Ok((m.insert(k, ValueModel::ListV(l.skip(1))), Some(l[0])))
            },
            _ => Err(TypeError),
        }
    }
}

/// What RPOP does: the tail element leaves the list.
pub open spec fn store_rpop(m: Map<Seq<u8>, ValueModel>, k: Seq<u8>) -> Result<
    (Map<Seq<u8>, ValueModel>, Option<Seq<u8>>),
    TypeError,
> {
    if !m.contains_key(k) {
        Ok((m, None))
    } else {
        match m[k] {
            ValueModel::ListV(l) => if l.len() == 0 {
                Ok((m, None))
            } else {
                Ok((m.insert(k, ValueModel::ListV(l.drop_last())), Some(l.last())))
            },
            _ => Err(TypeError),
        }
    }
}

/// What SADD does: each member inserted, counting those that were new; an
/// absent key starts from the empty set.
pub open spec fn store_sadd(m: Map<Seq<u8>, ValueModel>, k: Seq<u8>, ms: Seq<Seq<u8>>) -> Result<
    (Map<Seq<u8>, ValueModel>, nat),
    TypeError,
> {
    let base: Result<Set<Seq<u8>>, TypeError> = if !m.contains_key(k) {
        Ok(Set::empty())
    } else {
        match m[k] {
            ValueModel::SetV(s) => Ok(s),
            _ => Err(TypeError),
        }
    };
    match base {
        Ok(s) => {
            let p = crate::members::spec_sadd(s, ms);
            Ok((m.insert(k, ValueModel::SetV(p.0)), p.1))
        },
        Err(e) => Err(e),
    }
}

/// How an LPUSH result and store change relate to the model.
pub open spec fn lpush_post(
    pre: Map<Seq<u8>, ValueModel>,
    post: Map<Seq<u8>, ValueModel>,
    k: Seq<u8>,
    vs: Seq<Seq<u8>>,
    r: Result<usize, TypeError>,
) -> bool {
    match store_lpush(pre, k, vs) {
        Ok(p) => r matches Ok(n) && n == p.1 && post == p.0,
        Err(_) => r is Err && post == pre,
    }
}

/// How an RPUSH result and store change relate to the model.
pub open spec fn rpush_post(
    pre: Map<Seq<u8>, ValueModel>,
    post: Map<Seq<u8>, ValueModel>,
    k: Seq<u8>,
    vs: Seq<Seq<u8>>,
    r: Result<usize, TypeError>,
) -> bool {
    match store_rpush(pre, k, vs) {
        Ok(p) => r matches Ok(n) && n == p.1 && post == p.0,
        Err(_) => r is Err && post == pre,
    }
}

/// How an LPOP result and store change relate to the model.
pub open spec fn lpop_post(
    pre: Map<Seq<u8>, ValueModel>,
    post: Map<Seq<u8>, ValueModel>,
    k: Seq<u8>,
    r: Result<Option<Vec<u8>>, TypeError>,
) -> bool {
    match store_lpop(pre, k) {
        Ok(p) => r matches Ok(o) && opt_bytes_is(o, p.1) && post == p.0,
        Err(_) => r is Err && post == pre,
    }
}

/// How an RPOP result and store change relate to the model.
pub open spec fn rpop_post(
    pre: Map<Seq<u8>, ValueModel>,
    post: Map<Seq<u8>, ValueModel>,
    k: Seq<u8>,
    r: Result<Option<Vec<u8>>, TypeError>,
) -> bool {
    match store_rpop(pre, k) {
        Ok(p) => r matches Ok(o) && opt_bytes_is(o, p.1) && post == p.0,
        Err(_) => r is Err && post == pre,
    }
}

/// How an SADD result and store change relate to the model.
pub open spec fn sadd_post(
    pre: Map<Seq<u8>, ValueModel>,
    post: Map<Seq<u8>, ValueModel>,
    k: Seq<u8>,
    ms: Seq<Seq<u8>>,
    r: Result<usize, TypeError>,
) -> bool {
    match store_sadd(pre, k, ms) {
        Ok(p) => r matches Ok(n) && n == p.1 && post == p.0,
        Err(_) => r is Err && post == pre,
    }
}

/// The sharded key space: a handle over the fixed shard array.
pub struct Database {
    slots: Vec<Slot>,
}

impl Default for Database {
    /// An empty store.
    fn default() -> (r: Database)
        ensures
            r.wf(),
            r@ == empty_store(),
    {
        Database::new()
    }
}

impl Database {
    /// Everything the store holds, as one map.
    pub closed spec fn view(&self) -> Map<Seq<u8>, ValueModel> {
        Map::new(
            |k: Seq<u8>| self.slots@[spec_point(k)]@.contains_key(k),
            |k: Seq<u8>| self.slots@[spec_point(k)]@[k]@,
        )
    }

    /// Well-formedness: the shard array has its fixed size, every key sits
    /// in the shard it routes to, and every stored value is sound.
    pub closed spec fn wf(&self) -> bool {
        &&& self.slots@.len() == 32
        &&& forall|i: int, k: Seq<u8>|
            0 <= i < 32 && #[trigger] self.slots@[i]@.contains_key(k) ==> spec_point(k) == i
                && self.slots@[i]@[k].inv()
    }

    /// An empty store with all its shards allocated.
    pub fn new() -> (r: Database)
        ensures
            r.wf(),
            r@ == empty_store(),
    {
        let mut slots: Vec<Slot> = Vec::new();
        let mut i: usize = 0;
        while i < SLOT_LEN as usize
            invariant
                i <= 32,
                slots@.len() == i,
                forall|j: int| 0 <= j < i ==> #[trigger] slots@[j]@ == crate::keymap::empty_map_view(),
            decreases 32 - i,
        {
            slots.push(Slot::new());
            i = i + 1;
        }
        let r = Database { slots };
        proof {
            assert(r@ =~= empty_store());
        }
        r
    }

    /// The shard index for a key.
    fn find_point(key: &[u8]) -> (r: usize)
        ensures
            r == spec_point(key@),
            r < 32,
    {
        (crc32(key) % SLOT_LEN) as usize
    }

    /// The string stored under `key`; `None` when the key is absent, a type
    /// error when the key holds a list or a set.
    pub fn get(&self, key: &Key) -> (r: Result<Option<Vec<u8>>, TypeError>)
        requires
            self.wf(),
        ensures
            match r {
                Ok(o) => store_get(self@, key@) matches Ok(so) && opt_bytes_is(o, so),
                Err(_) => store_get(self@, key@) is Err,
            },
    {
        let point = Self::find_point(key.as_bytes());
        proof {
            lemma_store_at(*self, key@);
        }
        match self.slots[point].get(key) {
            None => Ok(None),
            Some(v) => match v.with_string() {
                Ok(s) => Ok(Some(s.get())),
                Err(e) => Err(e),
            },
        }
    }

    /// Store `value` under `key`, replacing any previous value of any type.
    /// The expiry arguments are decoded by the command layer but not
    /// enforced: values live until deleted or overwritten.
    #[allow(unused_variables)]
    pub fn set(
        &mut self,
        key: Key,
        value: Vec<u8>,
        expire_seconds: Option<u64>,
        expire_milliseconds: Option<u128>,
    )
        requires
            old(self).wf(),
        ensures
            final(self).wf(),
            final(self)@ == store_set(old(self)@, key@, value@),
    {
        let point = Self::find_point(key.as_bytes());
        let ghost pre = *self;
        let ghost gk = key@;
        let v = Value::new_string(Strings::set(value));
        let ghost gv = v;
        self.slots[point].insert(key, v);
        proof {
            lemma_store_insert(pre, *self, gk, gv);
        }
    }

    /// The length of the list under `key`; 0 when absent, a type error
    /// when another variant lives there.
    pub fn llen(&self, key: &Key) -> (r: Result<usize, TypeError>)
        requires
            self.wf(),
        ensures
            match r {
                Ok(n) => store_llen(self@, key@) == Ok::<nat, TypeError>(n as nat),
                Err(_) => store_llen(self@, key@) is Err,
            },
    {
        let point = Self::find_point(key.as_bytes());
        proof {
            lemma_store_at(*self, key@);
        }
        match self.slots[point].get(key) {
            None => Ok(0),
            Some(v) => match v.with_list() {
                Ok(l) => Ok(l.llen()),
                Err(e) => Err(e),
            },
        }
    }

    /// The elements of the list under `key` between `start` and `stop`
    /// after range normalization; empty when the key is absent.
    pub fn lrange(&self, key: &Key, start: i64, stop: i64) -> (r: Result<
        Vec<Vec<u8>>,
        TypeError,
    >)
        requires
            self.wf(),
        ensures
            match r {
                Ok(items) => store_lrange(self@, key@, start as int, stop as int) matches Ok(l)
                    && items@.map_values(|v: Vec<u8>| v@) == l,
                Err(_) => store_lrange(self@, key@, start as int, stop as int) is Err,
            },
    {
        let point = Self::find_point(key.as_bytes());
        proof {
            lemma_store_at(*self, key@);
        }
        match self.slots[point].get(key) {
            None => {
                let items: Vec<Vec<u8>> = Vec::new();
                proof {
                    assert(items@.map_values(|v: Vec<u8>| v@) =~= Seq::<Seq<u8>>::empty());
                }
                Ok(items)
            },
            Some(v) => match v.with_list() {
                Ok(l) => Ok(l.lrange(start, stop)),
                Err(e) => Err(e),
            },
        }
    }

    /// The cardinality of the set under `key`; 0 when absent.
    pub fn scard(&self, key: &Key) -> (r: Result<usize, TypeError>)
        requires
            self.wf(),
        ensures
            match r {
                Ok(n) => store_scard(self@, key@) == Ok::<nat, TypeError>(n as nat),
                Err(_) => store_scard(self@, key@) is Err,
            },
    {
        let point = Self::find_point(key.as_bytes());
        proof {
            lemma_store_at(*self, key@);
        }
        match self.slots[point].get(key) {
            None => Ok(0),
            Some(v) => match v.with_set() {
                Ok(s) => Ok(s.scard()),
                Err(e) => Err(e),
            },
        }
    }

    /// The members of the set under `key`, each exactly once, in
    /// unspecified order; empty when the key is absent.
    pub fn smembers(&self, key: &Key) -> (r: Result<Vec<Vec<u8>>, TypeError>)
        requires
            self.wf(),
        ensures
            match r {
                Ok(items) => store_smembers(self@, key@) matches Ok(s) && items@.map_values(
                    |v: Vec<u8>| v@,
                ).to_set() == s && items@.map_values(|v: Vec<u8>| v@).no_duplicates()
                    && items@.len() == s.len(),
                Err(_) => store_smembers(self@, key@) is Err,
            },
    {
        let point = Self::find_point(key.as_bytes());
        proof {
            lemma_store_at(*self, key@);
        }
        match self.slots[point].get(key) {
            None => {
                let items: Vec<Vec<u8>> = Vec::new();
                proof {
                    assert(items@.map_values(|v: Vec<u8>| v@) =~= Seq::<Seq<u8>>::empty());
                    assert(items@.map_values(|v: Vec<u8>| v@).to_set() =~= Set::<Seq<u8>>::empty());
                }
                Ok(items)
            },
            Some(v) => match v.with_set() {
                Ok(s) => Ok(s.smembers()),
                Err(e) => Err(e),
            },
        }
    }

    /// One entry per key, aligned with the input: the string under the key,
    /// or `None` when the key is absent or holds another variant.  Never an
    /// error.
    pub fn mget(&self, keys: &Vec<Key>) -> (r: Vec<Option<Vec<u8>>>)
        requires
            self.wf(),
        ensures
            r@.len() == keys@.len(),
            forall|i: int|
                0 <= i < r@.len() ==> opt_bytes_is(
                    #[trigger] r@[i],
                    store_mget(self@, keys@.map_values(|k: Key| k@))[i],
                ),
    {
        let ghost ks = keys@.map_values(|k: Key| k@);
        let mut r: Vec<Option<Vec<u8>>> = Vec::new();
        let mut i: usize = 0;
        while i < keys.len()
            invariant
                self.wf(),
                i <= keys@.len(),
                ks == keys@.map_values(|k: Key| k@),
                r@.len() == i,
                forall|j: int|
                    0 <= j < i ==> opt_bytes_is(#[trigger] r@[j], store_mget_one(self@, ks[j])),
            decreases keys@.len() - i,
        {
            let key = &keys[i];
            let point = Self::find_point(key.as_bytes());
            proof {
                lemma_store_at(*self, key@);
            }
            let one: Option<Vec<u8>> = match self.slots[point].get(key) {
                None => None,
                Some(v) => match v.with_string() {
                    Ok(s) => Some(s.get()),
                    Err(_) => None,
                },
            };
            r.push(one);
            i = i + 1;
        }
        r
    }

    /// Remove each present key; the result counts how many were removed.
    pub fn delete(&mut self, keys: Vec<Key>) -> (r: usize)
        requires
            old(self).wf(),
        ensures
            final(self).wf(),
            final(self)@ == store_del(old(self)@, keys@.map_values(|k: Key| k@)).0,
            r == store_del(old(self)@, keys@.map_values(|k: Key| k@)).1,
    {
        let ghost ks = keys@.map_values(|k: Key| k@);
        let mut count: usize = 0;
        let mut i: usize = 0;
        proof {
            assert(ks.skip(0) =~= ks);
        }
        while i < keys.len()
            invariant
                self.wf(),
                i <= ks.len(),
                ks == keys@.map_values(|k: Key| k@),
                count <= i,
                store_del(old(self)@, ks).0 == store_del(self@, ks.skip(i as int)).0,
                store_del(old(self)@, ks).1 == count + store_del(self@, ks.skip(i as int)).1,
            decreases ks.len() - i,
        {
            let key = &keys[i];
            let point = Self::find_point(key.as_bytes());
            let ghost pre = *self;
            proof {
                lemma_store_at(*self, key@);
                assert(ks.skip(i as int)[0] == ks[i as int]);
                assert(ks.skip(i as int).skip(1) =~= ks.skip(i + 1));
            }
            match self.slots[point].remove(key) {
                Some(_) => {
                    proof {
                        lemma_store_remove(pre, *self, key@);
                    }
                    count = count + 1;
                },
                None => {
                    proof {
                        lemma_store_unchanged(pre, *self);
                        assert(pre@.remove(key@) =~= pre@);
                    }
                },
            }
            i = i + 1;
        }
        proof {
            assert(ks.skip(ks.len() as int) =~= Seq::<Seq<u8>>::empty());
        }
        count
    }

    /// Prepend each value to the list under `key`, creating an empty list
    /// first when the key is absent; the result is the new length.  A key
    /// holding another variant is left unchanged and reported as a type
    /// error.
    pub fn lpush(&mut self, key: Key, values: Vec<Vec<u8>>) -> (r: Result<usize, TypeError>)
        requires
            old(self).wf(),
        ensures
            final(self).wf(),
            lpush_post(old(self)@, final(self)@, key@, values@.map_values(|v: Vec<u8>| v@), r),
    {
        let point = Self::find_point(key.as_bytes());
        proof {
            lemma_store_at(*self, key@);
        }
        let listy: bool = match self.slots[point].get(&key) {
            None => true,
            Some(v) => match v.with_list() {
                Ok(_) => true,
                Err(_) => false,
            },
        };
        if !listy {
            return Err(TypeError);
        }
        let ghost pre = *self;
        let mut l: List = match self.slots[point].remove(&key) {
            None => {
                proof {
                    lemma_store_unchanged(pre, *self);
                    assert(pre@.remove(key@) =~= pre@);
                }
                List::new()
            },
            Some(v) => {
                proof {
                    lemma_store_remove(pre, *self, key@);
                }
                match v.into_item() {
                    Item::List(l0) => l0,
                    Item::String(_) => {
                        proof {
                            assert(false);
                        }
                        List::new()
                    },
                    Item::Sets(_) => {
                        proof {
                            assert(false);
                        }
                        List::new()
                    },
                }
            },
        };
        let n = l.lpush(values);
        let ghost mid = *self;
        let vv = Value::new_list(l);
        let ghost gvv = vv;
        self.slots[point].insert(key, vv);
        proof {
            lemma_store_insert(mid, *self, key@, gvv);
            assert(pre@.remove(key@).insert(key@, gvv@) =~= pre@.insert(key@, gvv@));
        }
        Ok(n)
    }

    /// Append each value to the list under `key`, creating an empty list
    /// first when the key is absent; the result is the new length.
    pub fn rpush(&mut self, key: Key, values: Vec<Vec<u8>>) -> (r: Result<usize, TypeError>)
        requires
            old(self).wf(),
        ensures
            final(self).wf(),
            rpush_post(old(self)@, final(self)@, key@, values@.map_values(|v: Vec<u8>| v@), r),
    {
        let point = Self::find_point(key.as_bytes());
        proof {
            lemma_store_at(*self, key@);
        }
        let listy: bool = match self.slots[point].get(&key) {
            None => true,
            Some(v) => match v.with_list() {
                Ok(_) => true,
                Err(_) => false,
            },
        };
        if !listy {
            return Err(TypeError);
        }
        let ghost pre = *self;
        let mut l: List = match self.slots[point].remove(&key) {
            None => {
                proof {
                    lemma_store_unchanged(pre, *self);
                    assert(pre@.remove(key@) =~= pre@);
                }
                List::new()
            },
            Some(v) => {
                proof {
                    lemma_store_remove(pre, *self, key@);
                }
                match v.into_item() {
                    Item::List(l0) => l0,
                    Item::String(_) => {
                        proof {
                            assert(false);
                        }
                        List::new()
                    },
                    Item::Sets(_) => {
                        proof {
                            assert(false);
                        }
                        List::new()
                    },
                }
            },
        };
        let n = l.rpush(values);
        let ghost mid = *self;
        let vv = Value::new_list(l);
        let ghost gvv = vv;
        self.slots[point].insert(key, vv);
        proof {
            lemma_store_insert(mid, *self, key@, gvv);
            assert(pre@.remove(key@).insert(key@, gvv@) =~= pre@.insert(key@, gvv@));
        }
        Ok(n)
    }

    /// Remove and return the head of the list under `key`; `None` when the
    /// key is absent or the list is empty.
    pub fn lpop(&mut self, key: &Key) -> (r: Result<Option<Vec<u8>>, TypeError>)
        requires
            old(self).wf(),
        ensures
            final(self).wf(),
            lpop_post(old(self)@, final(self)@, key@, r),
    {
        let point = Self::find_point(key.as_bytes());
        proof {
            lemma_store_at(*self, key@);
        }
        match self.slots[point].get(key) {
            None => {
                return Ok(None);
            },
            Some(v) => match v.with_list() {
                Ok(_) => (),
                Err(e) => {
                    return Err(e);
                },
            },
        }
        let ghost pre = *self;
        let mut l: List = match self.slots[point].remove(key) {
            None => {
                proof {
                    assert(false);
                }
                List::new()
            },
            Some(v) => {
                proof {
                    lemma_store_remove(pre, *self, key@);
                }
                match v.into_item() {
                    Item::List(l0) => l0,
                    Item::String(_) => {
                        proof {
                            assert(false);
                        }
                        List::new()
                    },
                    Item::Sets(_) => {
                        proof {
                            assert(false);
                        }
                        List::new()
                    },
                }
            },
        };
        let popped = l.lpop();
        let ghost mid = *self;
        let vv = Value::new_list(l);
        let ghost gvv = vv;
        self.slots[point].insert(Key::new(key_bytes_owned(key)), vv);
        proof {
            lemma_store_insert(mid, *self, key@, gvv);
            assert(pre@.remove(key@).insert(key@, gvv@) =~= pre@.insert(key@, gvv@));
            if pre@[key@]->ListV_0.len() == 0 {
                assert(pre@.insert(key@, gvv@) =~= pre@);
            }
        }
        Ok(popped)
    }

    /// Remove and return the tail of the list under `key`.
    pub fn rpop(&mut self, key: &Key) -> (r: Result<Option<Vec<u8>>, TypeError>)
        requires
            old(self).wf(),
        ensures
            final(self).wf(),
            rpop_post(old(self)@, final(self)@, key@, r),
    {
        let point = Self::find_point(key.as_bytes());
        proof {
            lemma_store_at(*self, key@);
        }
        match self.slots[point].get(key) {
            None => {
                return Ok(None);
            },
            Some(v) => match v.with_list() {
                Ok(_) => (),
                Err(e) => {
                    return Err(e);
                },
            },
        }
        let ghost pre = *self;
        let mut l: List = match self.slots[point].remove(key) {
            None => {
                proof {
                    assert(false);
                }
                List::new()
            },
            Some(v) => {
                proof {
                    lemma_store_remove(pre, *self, key@);
                }
                match v.into_item() {
                    Item::List(l0) => l0,
                    Item::String(_) => {
                        proof {
                            assert(false);
                        }
                        List::new()
                    },
                    Item::Sets(_) => {
                        proof {
                            assert(false);
                        }
                        List::new()
                    },
                }
            },
        };
        let popped = l.rpop();
        let ghost mid = *self;
        let vv = Value::new_list(l);
        let ghost gvv = vv;
        self.slots[point].insert(Key::new(key_bytes_owned(key)), vv);
        proof {
            lemma_store_insert(mid, *self, key@, gvv);
            assert(pre@.remove(key@).insert(key@, gvv@) =~= pre@.insert(key@, gvv@));
            if pre@[key@]->ListV_0.len() == 0 {
                assert(pre@.insert(key@, gvv@) =~= pre@);
            }
        }
        Ok(popped)
    }

    /// Insert each member into the set under `key`, creating an empty set
    /// first when the key is absent; the result counts the members that
    /// were new.
    pub fn sadd(&mut self, key: Key, members: Vec<Vec<u8>>) -> (r: Result<usize, TypeError>)
        requires
            old(self).wf(),
        ensures
            final(self).wf(),
            sadd_post(old(self)@, final(self)@, key@, members@.map_values(|v: Vec<u8>| v@), r),
    {
        let point = Self::find_point(key.as_bytes());
        proof {
            lemma_store_at(*self, key@);
        }
        let setty: bool = match self.slots[point].get(&key) {
            None => true,
            Some(v) => match v.with_set() {
                Ok(_) => true,
                Err(_) => false,
            },
        };
        if !setty {
            return Err(TypeError);
        }
        let ghost pre = *self;
        let mut s: SetMembers = match self.slots[point].remove(&key) {
            None => {
                proof {
                    lemma_store_unchanged(pre, *self);
                    assert(pre@.remove(key@) =~= pre@);
                }
                SetMembers::new()
            },
            Some(v) => {
                proof {
                    lemma_store_remove(pre, *self, key@);
                }
                match v.into_item() {
                    Item::Sets(s0) => s0,
                    Item::String(_) => {
                        proof {
                            assert(false);
                        }
                        SetMembers::new()
                    },
                    Item::List(_) => {
                        proof {
                            assert(false);
                        }
                        SetMembers::new()
                    },
                }
            },
        };
        let n = s.sadd(members);
        let ghost mid = *self;
        let vv = Value::new_set(s);
        let ghost gvv = vv;
        self.slots[point].insert(key, vv);
        proof {
            lemma_store_insert(mid, *self, key@, gvv);
            assert(pre@.remove(key@).insert(key@, gvv@) =~= pre@.insert(key@, gvv@));
        }
        Ok(n)
    }

    /// Write each pair in order: every key ends up holding its string.
    pub fn mset(&mut self, pairs: Vec<(Key, Vec<u8>)>)
        requires
            old(self).wf(),
        ensures
            final(self).wf(),
            final(self)@ == store_mset(
                old(self)@,
                pairs@.map_values(|p: (Key, Vec<u8>)| (p.0@, p.1@)),
            ),
    {
        let ghost ps = pairs@.map_values(|p: (Key, Vec<u8>)| (p.0@, p.1@));
        let mut pairs = pairs;
        let mut i: usize = 0;
        proof {
            assert(ps.skip(0) =~= ps);
            vstd::std_specs::vec::axiom_spec_len(&pairs);
        }
        while pairs.len() > 0
            invariant
                self.wf(),
                i <= ps.len(),
                ps.len() <= usize::MAX,
                i + pairs@.len() == ps.len(),
                pairs@.map_values(|p: (Key, Vec<u8>)| (p.0@, p.1@)) =~= ps.skip(i as int),
                store_mset(old(self)@, ps) == store_mset(self@, ps.skip(i as int)),
            decreases pairs@.len(),
        {
            let ghost pre = *self;
            let ghost prev_pairs = pairs@;
            let (key, value) = pairs.remove(0);
            proof {
                assert(pairs@ =~= prev_pairs.skip(1));
            }
            let point = Self::find_point(key.as_bytes());
            let ghost gk = key@;
            let v = Value::new_string(Strings::set(value));
            let ghost gv = v;
            self.slots[point].insert(key, v);
            proof {
                lemma_store_insert(pre, *self, gk, gv);
                assert(ps.skip(i as int)[0] == ps[i as int]);
                assert(ps.skip(i as int).skip(1) =~= ps.skip(i + 1));
                assert(pairs@.map_values(|p: (Key, Vec<u8>)| (p.0@, p.1@)) =~= ps.skip(i + 1));
            }
            i = i + 1;
        }
        proof {
            assert(ps.skip(ps.len() as int) =~= Seq::<(Seq<u8>, Seq<u8>)>::empty());
        }
    }
}

/// A copy of the key's bytes.
fn key_bytes_owned(key: &Key) -> (r: Vec<u8>)
    ensures
        r@ == key@,
{
    vstd::slice::slice_to_vec(key.as_bytes())
}

/// A store whose shards all kept their content is the same store.
proof fn lemma_store_unchanged(pre: Database, post: Database)
    requires
        pre.wf(),
        post.slots@.len() == 32,
        forall|j: int| 0 <= j < 32 ==> post.slots@[j]@ == pre.slots@[j]@,
    ensures
        post.wf(),
        post@ == pre@,
{
    assert(post@ =~= pre@);
}

/// Routing one entry into its shard changes the store model by exactly that
/// entry.
proof fn lemma_store_insert(pre: Database, post: Database, k: Seq<u8>, v: Value)
    requires
        pre.wf(),
        v.inv(),
        post.slots@.len() == 32,
        forall|j: int| 0 <= j < 32 && j != spec_point(k) ==> post.slots@[j] == pre.slots@[j],
        post.slots@[spec_point(k)]@ == pre.slots@[spec_point(k)]@.insert(k, v),
    ensures
        post.wf(),
        post@ == pre@.insert(k, v@),
{
    assert forall|i: int, k2: Seq<u8>|
        0 <= i < 32 && #[trigger] post.slots@[i]@.contains_key(k2) implies spec_point(k2) == i
        && post.slots@[i]@[k2].inv() by {
        if i == spec_point(k) {
            if k2 != k {
                assert(pre.slots@[i]@.contains_key(k2));
            }
        } else {
            assert(post.slots@[i] == pre.slots@[i]);
        }
    }
    assert forall|k2: Seq<u8>| true implies #[trigger] post@.contains_key(k2) == pre@.insert(
        k,
        v@,
    ).contains_key(k2) && (post@.contains_key(k2) ==> post@[k2] == pre@.insert(k, v@)[k2]) by {
        if k2 == k {
        } else {
            if spec_point(k2) != spec_point(k) {
                assert(post.slots@[spec_point(k2)] == pre.slots@[spec_point(k2)]);
            }
        }
    }
    assert(post@ =~= pre@.insert(k, v@));
}

/// Taking one entry out of its shard changes the store model by exactly
/// that entry.
proof fn lemma_store_remove(pre: Database, post: Database, k: Seq<u8>)
    requires
        pre.wf(),
        post.slots@.len() == 32,
        forall|j: int| 0 <= j < 32 && j != spec_point(k) ==> post.slots@[j] == pre.slots@[j],
        post.slots@[spec_point(k)]@ == pre.slots@[spec_point(k)]@.remove(k),
    ensures
        post.wf(),
        post@ == pre@.remove(k),
{
    assert forall|i: int, k2: Seq<u8>|
        0 <= i < 32 && #[trigger] post.slots@[i]@.contains_key(k2) implies spec_point(k2) == i
        && post.slots@[i]@[k2].inv() by {
        if i == spec_point(k) {
            assert(pre.slots@[i]@.contains_key(k2));
        } else {
            assert(post.slots@[i] == pre.slots@[i]);
        }
    }
    assert forall|k2: Seq<u8>| true implies #[trigger] post@.contains_key(k2) == pre@.remove(
        k,
    ).contains_key(k2) && (post@.contains_key(k2) ==> post@[k2] == pre@.remove(k)[k2]) by {
        if k2 != k && spec_point(k2) != spec_point(k) {
            assert(post.slots@[spec_point(k2)] == pre.slots@[spec_point(k2)]);
        }
    }
    assert(post@ =~= pre@.remove(k));
}

/// What the store model says at one key, read off the key's shard.
proof fn lemma_store_at(db: Database, k: Seq<u8>)
    requires
        db.wf(),
    ensures
        db@.contains_key(k) == db.slots@[spec_point(k)]@.contains_key(k),
        db@.contains_key(k) ==> db@[k] == db.slots@[spec_point(k)]@[k]@
            && db.slots@[spec_point(k)]@[k].inv(),
{
}

} // verus!
