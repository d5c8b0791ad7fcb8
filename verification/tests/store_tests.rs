//! Tests of the sharded store's typed dispatch, through the Database API.

use respkv::database::Database;
use respkv::key::Key;

fn k(s: &[u8]) -> Key {
    Key::new(s.to_vec())
}

#[test]
fn set_then_get_round_trips() {
    let mut db = Database::new();
    db.set(k(b"foo"), b"bar".to_vec(), None, None);
    assert_eq!(db.get(&k(b"foo")).unwrap(), Some(b"bar".to_vec()));
}

#[test]
fn get_missing_is_none() {
    let db = Database::new();
    assert_eq!(db.get(&k(b"absent")).unwrap(), None);
}

#[test]
fn set_replaces_any_variant() {
    let mut db = Database::new();
    assert_eq!(db.lpush(k(b"k"), vec![b"x".to_vec()]).unwrap(), 1);
    db.set(k(b"k"), b"v".to_vec(), None, None);
    assert_eq!(db.get(&k(b"k")).unwrap(), Some(b"v".to_vec()));
}

#[test]
fn binary_values_round_trip() {
    let mut db = Database::new();
    let value = vec![0u8, 13, 10, 255, 36, 42, 0];
    db.set(k(b"bin"), value.clone(), None, None);
    assert_eq!(db.get(&k(b"bin")).unwrap(), Some(value));
}

#[test]
fn wrong_type_is_refused_and_preserves_value() {
    let mut db = Database::new();
    db.set(k(b"k"), b"v".to_vec(), None, None);
    assert!(db.lpush(k(b"k"), vec![b"x".to_vec()]).is_err());
    assert!(db.rpush(k(b"k"), vec![b"x".to_vec()]).is_err());
    assert!(db.lpop(&k(b"k")).is_err());
    assert!(db.rpop(&k(b"k")).is_err());
    assert!(db.llen(&k(b"k")).is_err());
    assert!(db.lrange(&k(b"k"), 0, -1).is_err());
    assert!(db.sadd(k(b"k"), vec![b"x".to_vec()]).is_err());
    assert!(db.scard(&k(b"k")).is_err());
    assert!(db.smembers(&k(b"k")).is_err());
    assert_eq!(db.get(&k(b"k")).unwrap(), Some(b"v".to_vec()));
}

#[test]
fn lpush_prepends_in_order() {
    let mut db = Database::new();
    assert_eq!(db.lpush(k(b"l"), vec![b"a".to_vec(), b"b".to_vec(), b"c".to_vec()]).unwrap(), 3);
    let items = db.lrange(&k(b"l"), 0, -1).unwrap();
    assert_eq!(items, vec![b"c".to_vec(), b"b".to_vec(), b"a".to_vec()]);
}

#[test]
fn rpush_appends_in_order() {
    let mut db = Database::new();
    assert_eq!(db.rpush(k(b"l"), vec![b"a".to_vec(), b"b".to_vec(), b"c".to_vec()]).unwrap(), 3);
    let items = db.lrange(&k(b"l"), 0, -1).unwrap();
    assert_eq!(items, vec![b"a".to_vec(), b"b".to_vec(), b"c".to_vec()]);
}

#[test]
fn pops_take_head_and_tail() {
    let mut db = Database::new();
    db.rpush(k(b"l"), vec![b"a".to_vec(), b"b".to_vec(), b"c".to_vec()]).unwrap();
    assert_eq!(db.lpop(&k(b"l")).unwrap(), Some(b"a".to_vec()));
    assert_eq!(db.rpop(&k(b"l")).unwrap(), Some(b"c".to_vec()));
    assert_eq!(db.llen(&k(b"l")).unwrap(), 1);
    assert_eq!(db.lpop(&k(b"l")).unwrap(), Some(b"b".to_vec()));
    assert_eq!(db.lpop(&k(b"l")).unwrap(), None);
    assert_eq!(db.rpop(&k(b"l")).unwrap(), None);
    assert_eq!(db.lpop(&k(b"missing")).unwrap(), None);
}

#[test]
fn llen_of_absent_key_is_zero() {
    let db = Database::new();
    assert_eq!(db.llen(&k(b"nope")).unwrap(), 0);
}

#[test]
fn lrange_clamps_like_the_formula() {
    let mut db = Database::new();
    db.rpush(
        k(b"l"),
        vec![b"0".to_vec(), b"1".to_vec(), b"2".to_vec(), b"3".to_vec(), b"4".to_vec()],
    )
    .unwrap();
    // Inside the list.
    assert_eq!(db.lrange(&k(b"l"), 1, 3).unwrap().len(), 3);
    // Clamped on both sides.
    assert_eq!(db.lrange(&k(b"l"), -100, 100).unwrap().len(), 5);
    // Negative rewriting.
    assert_eq!(db.lrange(&k(b"l"), -2, -1).unwrap(), vec![b"3".to_vec(), b"4".to_vec()]);
    // Start past the end, inverted bounds, stop before the start.
    assert!(db.lrange(&k(b"l"), 5, 10).unwrap().is_empty());
    assert!(db.lrange(&k(b"l"), 3, 1).unwrap().is_empty());
    assert!(db.lrange(&k(b"l"), 0, -6).unwrap().is_empty());
    // Absent key scans empty.
    assert!(db.lrange(&k(b"none"), 0, -1).unwrap().is_empty());
    // Extreme indices do not trip the normalization.
    assert!(db.lrange(&k(b"l"), i64::MIN, i64::MAX).unwrap().len() == 5);
}

#[test]
fn sadd_counts_new_members_only() {
    let mut db = Database::new();
    assert_eq!(db.sadd(k(b"s"), vec![b"a".to_vec()]).unwrap(), 1);
    assert_eq!(db.sadd(k(b"s"), vec![b"a".to_vec()]).unwrap(), 0);
    assert_eq!(db.scard(&k(b"s")).unwrap(), 1);
    assert_eq!(db.sadd(k(b"s"), vec![b"a".to_vec(), b"b".to_vec(), b"b".to_vec()]).unwrap(), 1);
    assert_eq!(db.scard(&k(b"s")).unwrap(), 2);
}

#[test]
fn smembers_enumerates_each_member_once() {
    let mut db = Database::new();
    db.sadd(k(b"s"), vec![b"x".to_vec(), b"y".to_vec(), b"z".to_vec(), b"x".to_vec()]).unwrap();
    let mut members = db.smembers(&k(b"s")).unwrap();
    members.sort();
    assert_eq!(members, vec![b"x".to_vec(), b"y".to_vec(), b"z".to_vec()]);
    assert!(db.smembers(&k(b"no")).unwrap().is_empty());
    assert_eq!(db.scard(&k(b"no")).unwrap(), 0);
}

#[test]
fn delete_counts_present_keys() {
    let mut db = Database::new();
    db.set(k(b"a"), b"1".to_vec(), None, None);
    db.rpush(k(b"b"), vec![b"1".to_vec()]).unwrap();
    let n = db.delete(vec![k(b"a"), k(b"b"), k(b"c"), k(b"a")]);
    assert_eq!(n, 2);
    assert_eq!(db.get(&k(b"a")).unwrap(), None);
    assert_eq!(db.llen(&k(b"b")).unwrap(), 0);
}

#[test]
fn mget_is_total_and_aligned() {
    let mut db = Database::new();
    db.set(k(b"a"), b"1".to_vec(), None, None);
    db.rpush(k(b"wrong"), vec![b"x".to_vec()]).unwrap();
    let got = db.mget(&vec![k(b"a"), k(b"missing"), k(b"wrong"), k(b"a")]);
    assert_eq!(
        got,
        vec![Some(b"1".to_vec()), None, None, Some(b"1".to_vec())]
    );
}

#[test]
fn mset_writes_every_pair_in_order() {
    let mut db = Database::new();
    db.mset(vec![
        (k(b"a"), b"1".to_vec()),
        (k(b"b"), b"2".to_vec()),
        (k(b"a"), b"3".to_vec()),
    ]);
    assert_eq!(db.get(&k(b"a")).unwrap(), Some(b"3".to_vec()));
    assert_eq!(db.get(&k(b"b")).unwrap(), Some(b"2".to_vec()));
}

#[test]
fn many_keys_route_to_their_own_shards() {
    let mut db = Database::new();
    for i in 0..200u32 {
        let key = format!("key-{}", i).into_bytes();
        db.set(Key::new(key), format!("v{}", i).into_bytes(), None, None);
    }
    for i in 0..200u32 {
        let key = format!("key-{}", i).into_bytes();
        assert_eq!(db.get(&Key::new(key)).unwrap(), Some(format!("v{}", i).into_bytes()));
    }
}
