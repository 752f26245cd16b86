use std::collections::VecDeque;
use std::time::{SystemTime, UNIX_EPOCH};

use indexeddb::engine::{process_transaction, write_reply, BatchOutcome, KvsTransaction};
use indexeddb::StoreRegistry;
use indexeddb::kv::KvEnv;
use indexeddb::{AsyncOperation, IndexedDBKeyType, IndexedDBThreadReturnType, IndexedDBTxnMode, StoreDescription};
use rkv::backend::{BackendEnvironmentBuilder, SafeMode};
use rkv::Rkv;

const URL: &str = "https://a.example/index.html";
const ORIGIN: &str = "https://a.example";

fn fresh_env(tag: &str) -> KvEnv {
    let nanos = SystemTime::now().duration_since(UNIX_EPOCH).unwrap().as_nanos();
    let path = std::path::PathBuf::from(format!("/tmp/indexeddb-tests/{}-{}", tag, nanos));
    let mut builder = Rkv::environment_builder::<SafeMode>();
    builder.set_make_dir_if_needed(true);
    builder.set_max_dbs(16);
    Rkv::from_builder(&path, builder).unwrap()
}

fn registry_with(env: &KvEnv, stores: &[&str]) -> StoreRegistry {
    let mut reg = StoreRegistry::new();
    for name in stores {
        reg.create_store(env, StoreDescription::new(ORIGIN.to_string(), name.to_string()), false)
            .unwrap();
    }
    reg
}

fn get(ch: u32, store: &str, key: &[u8]) -> AsyncOperation<u32> {
    AsyncOperation::GetItem(ch, URL.to_string(), store.to_string(), key.to_vec())
}

fn put(ch: u32, store: &str, key: IndexedDBKeyType, value: &[u8], overwrite: bool) -> AsyncOperation<u32> {
    AsyncOperation::PutItem(ch, URL.to_string(), store.to_string(), key, value.to_vec(), overwrite)
}

fn remove(ch: u32, store: &str, key: &[u8]) -> AsyncOperation<u32> {
    AsyncOperation::RemoveItem(ch, URL.to_string(), store.to_string(), key.to_vec())
}

fn run(env: &KvEnv, reg: &StoreRegistry, mode: IndexedDBTxnMode, ops: Vec<AsyncOperation<u32>>) -> BatchOutcome<u32> {
    let requests: VecDeque<AsyncOperation<u32>> = ops.into_iter().collect();
    process_transaction(env, reg, KvsTransaction { mode, requests })
}

fn kv(bytes: Option<&[u8]>) -> IndexedDBThreadReturnType {
    IndexedDBThreadReturnType::KVResult(bytes.map(|b| b.to_vec()))
}

fn read_one(env: &KvEnv, reg: &StoreRegistry, store: &str, key: &[u8]) -> IndexedDBThreadReturnType {
    let mut out = run(env, reg, IndexedDBTxnMode::Readonly, vec![get(99, store, key)]);
    assert!(out.completed);
    out.replies.pop().unwrap().1
}

#[test]
fn create_and_read_back() {
    let env = fresh_env("read-back");
    let reg = registry_with(&env, &["s"]);
    let out = run(&env, &reg, IndexedDBTxnMode::Readwrite,
        vec![put(1, "s", IndexedDBKeyType::String(b"\x01k".to_vec()), b"\xAA", true)]);
    assert!(out.completed);
    assert_eq!(out.replies, vec![(1, kv(Some(b"\x01k")))]);
    let out = run(&env, &reg, IndexedDBTxnMode::Readonly, vec![get(2, "s", b"\x01k")]);
    assert_eq!(out.replies, vec![(2, kv(Some(b"\xAA")))]);
}

#[test]
fn add_keeps_existing_value() {
    let env = fresh_env("add-existing");
    let reg = registry_with(&env, &["s"]);
    run(&env, &reg, IndexedDBTxnMode::Readwrite,
        vec![put(1, "s", IndexedDBKeyType::String(b"\x01k".to_vec()), b"\xAA", true)]);
    let out = run(&env, &reg, IndexedDBTxnMode::Readwrite,
        vec![put(3, "s", IndexedDBKeyType::String(b"\x01k".to_vec()), b"\xBB", false)]);
    assert_eq!(out.replies, vec![(3, kv(None))]);
    assert_eq!(read_one(&env, &reg, "s", b"\x01k"), kv(Some(b"\xAA")));
}

#[test]
fn add_stores_absent_key() {
    let env = fresh_env("add-absent");
    let reg = registry_with(&env, &["s"]);
    let out = run(&env, &reg, IndexedDBTxnMode::Readwrite,
        vec![put(1, "s", IndexedDBKeyType::Number(b"n1".to_vec()), b"\x10", false)]);
    assert_eq!(out.replies, vec![(1, kv(Some(b"n1")))]);
    assert_eq!(read_one(&env, &reg, "s", b"n1"), kv(Some(b"\x10")));
}

#[test]
fn remove_is_unconditional() {
    let env = fresh_env("remove");
    let reg = registry_with(&env, &["s"]);
    run(&env, &reg, IndexedDBTxnMode::Readwrite,
        vec![put(1, "s", IndexedDBKeyType::String(b"\x01k".to_vec()), b"\xAA", true)]);
    let out = run(&env, &reg, IndexedDBTxnMode::Readwrite, vec![remove(4, "s", b"\x01k")]);
    assert_eq!(out.replies, vec![(4, kv(Some(b"\x01k")))]);
    let out = run(&env, &reg, IndexedDBTxnMode::Readwrite, vec![remove(5, "s", b"\x01k")]);
    assert_eq!(out.replies, vec![(5, kv(Some(b"\x01k")))]);
    assert_eq!(read_one(&env, &reg, "s", b"\x01k"), kv(None));
}

#[test]
fn remove_of_absent_key_then_get() {
    let env = fresh_env("remove-absent");
    let reg = registry_with(&env, &["s"]);
    let out = run(&env, &reg, IndexedDBTxnMode::Readwrite, vec![remove(1, "s", b"never"), get(2, "s", b"never")]);
    assert_eq!(out.replies, vec![(1, kv(Some(b"never"))), (2, kv(None))]);
}

#[test]
fn put_twice_same_as_once() {
    let env = fresh_env("put-twice");
    let reg = registry_with(&env, &["s"]);
    let key = || IndexedDBKeyType::String(b"k".to_vec());
    let out = run(&env, &reg, IndexedDBTxnMode::Readwrite,
        vec![put(1, "s", key(), b"v", true), put(2, "s", key(), b"v", true)]);
    assert_eq!(out.replies, vec![(1, kv(Some(b"k"))), (2, kv(Some(b"k")))]);
    assert_eq!(read_one(&env, &reg, "s", b"k"), kv(Some(b"v")));
}

#[test]
fn replies_follow_request_order() {
    let env = fresh_env("order");
    let reg = registry_with(&env, &["s"]);
    let out = run(&env, &reg, IndexedDBTxnMode::Readwrite, vec![
        put(10, "s", IndexedDBKeyType::String(b"a".to_vec()), b"1", true),
        get(11, "s", b"a"),
        put(12, "s", IndexedDBKeyType::String(b"a".to_vec()), b"2", true),
        get(13, "s", b"a"),
        remove(14, "s", b"a"),
        get(15, "s", b"a"),
    ]);
    assert!(out.completed);
    assert!(!out.refused);
    assert_eq!(out.replies, vec![
        (10, kv(Some(b"a"))),
        (11, kv(Some(b"1"))),
        (12, kv(Some(b"a"))),
        (13, kv(Some(b"2"))),
        (14, kv(Some(b"a"))),
        (15, kv(None)),
    ]);
}

#[test]
fn two_readonly_batches_of_gets() {
    let env = fresh_env("readers");
    let reg = registry_with(&env, &["s"]);
    let n: u32 = 5;
    let puts = (0..n).map(|i| put(i, "s", IndexedDBKeyType::Number(vec![i as u8]), &[100 + i as u8], true)).collect();
    run(&env, &reg, IndexedDBTxnMode::Readwrite, puts);
    let gets_a: Vec<_> = (0..n).map(|i| get(i, "s", &[i as u8])).collect();
    let gets_b: Vec<_> = (0..n).rev().map(|i| get(i, "s", &[i as u8])).collect();
    let a = run(&env, &reg, IndexedDBTxnMode::Readonly, gets_a);
    let b = run(&env, &reg, IndexedDBTxnMode::Readonly, gets_b);
    assert!(a.completed && b.completed);
    let want_a: Vec<_> = (0..n).map(|i| (i, kv(Some(&[100 + i as u8])))).collect();
    let want_b: Vec<_> = (0..n).rev().map(|i| (i, kv(Some(&[100 + i as u8])))).collect();
    assert_eq!(a.replies, want_a);
    assert_eq!(b.replies, want_b);
}

#[test]
fn empty_transaction_completes() {
    let env = fresh_env("empty");
    let reg = registry_with(&env, &["s"]);
    let out = run(&env, &reg, IndexedDBTxnMode::Readwrite, vec![]);
    assert!(out.completed);
    assert!(out.replies.is_empty());
    let out = run(&env, &reg, IndexedDBTxnMode::Readonly, vec![]);
    assert!(out.completed);
    assert!(out.replies.is_empty());
}

#[test]
fn unknown_store_gets_empty_reply() {
    let env = fresh_env("unknown");
    let reg = registry_with(&env, &["s"]);
    let out = run(&env, &reg, IndexedDBTxnMode::Readwrite, vec![
        put(1, "missing", IndexedDBKeyType::String(b"k".to_vec()), b"v", true),
        remove(2, "missing", b"k"),
        get(3, "missing", b"k"),
    ]);
    assert_eq!(out.replies, vec![(1, kv(None)), (2, kv(None)), (3, kv(None))]);
}

#[test]
fn readonly_batch_refuses_writes() {
    let env = fresh_env("ro-write");
    let reg = registry_with(&env, &["s"]);
    let out = run(&env, &reg, IndexedDBTxnMode::Readonly, vec![
        put(1, "s", IndexedDBKeyType::String(b"k".to_vec()), b"v", true),
        remove(2, "s", b"k"),
    ]);
    assert_eq!(out.replies, vec![(1, kv(None)), (2, kv(None))]);
    assert_eq!(read_one(&env, &reg, "s", b"k"), kv(None));
}

#[test]
fn keys_collide_by_bytes_only() {
    let env = fresh_env("bytes");
    let reg = registry_with(&env, &["s"]);
    // The number 1 and the string "1" encode to different bytes.
    run(&env, &reg, IndexedDBTxnMode::Readwrite, vec![
        put(1, "s", IndexedDBKeyType::Number(vec![0x3f, 0xf0, 0, 0, 0, 0, 0, 0]), b"num", true),
        put(2, "s", IndexedDBKeyType::String(b"1".to_vec()), b"str", true),
    ]);
    assert_eq!(read_one(&env, &reg, "s", &[0x3f, 0xf0, 0, 0, 0, 0, 0, 0]), kv(Some(b"num")));
    assert_eq!(read_one(&env, &reg, "s", b"1"), kv(Some(b"str")));
    // The same bytes under another tag are the same key.
    let out = run(&env, &reg, IndexedDBTxnMode::Readwrite,
        vec![put(3, "s", IndexedDBKeyType::Number(b"1".to_vec()), b"again", false)]);
    assert_eq!(out.replies, vec![(3, kv(None))]);
}

#[test]
fn disjoint_transactions_in_either_order() {
    let t1 = || vec![put(1, "alpha", IndexedDBKeyType::String(b"a".to_vec()), b"x", true), remove(2, "alpha", b"b")];
    let t2 = || vec![put(3, "beta", IndexedDBKeyType::String(b"c".to_vec()), b"y", false), get(4, "beta", b"c")];
    let env_a = fresh_env("disjoint-a");
    let reg_a = registry_with(&env_a, &["alpha", "beta"]);
    let a1 = run(&env_a, &reg_a, IndexedDBTxnMode::Readwrite, t1());
    let a2 = run(&env_a, &reg_a, IndexedDBTxnMode::Readwrite, t2());
    let env_b = fresh_env("disjoint-b");
    let reg_b = registry_with(&env_b, &["alpha", "beta"]);
    let b2 = run(&env_b, &reg_b, IndexedDBTxnMode::Readwrite, t2());
    let b1 = run(&env_b, &reg_b, IndexedDBTxnMode::Readwrite, t1());
    assert_eq!(a1.replies, b1.replies);
    assert_eq!(a2.replies, b2.replies);
    for (store, key) in [("alpha", &b"a"[..]), ("alpha", &b"b"[..]), ("beta", &b"c"[..])] {
        assert_eq!(read_one(&env_a, &reg_a, store, key), read_one(&env_b, &reg_b, store, key));
    }
    assert_eq!(read_one(&env_a, &reg_a, "alpha", b"a"), kv(Some(b"x")));
    assert_eq!(read_one(&env_a, &reg_a, "beta", b"c"), kv(Some(b"y")));
}

#[test]
fn stores_are_separate() {
    let env = fresh_env("separate");
    let reg = registry_with(&env, &["alpha", "beta"]);
    run(&env, &reg, IndexedDBTxnMode::Readwrite,
        vec![put(1, "alpha", IndexedDBKeyType::String(b"k".to_vec()), b"one", true)]);
    assert_eq!(read_one(&env, &reg, "beta", b"k"), kv(None));
}

#[test]
fn registry_records_key_generator() {
    let env = fresh_env("keygen");
    let mut reg = StoreRegistry::new();
    let d = || StoreDescription::new(ORIGIN.to_string(), "auto".to_string());
    assert!(!reg.contains(&d().to_string()));
    reg.create_store(&env, d(), true).unwrap();
    assert!(reg.contains(&d().to_string()));
    assert!(reg.has_key_generator(&d()));
    reg.create_store(&env, d(), false).unwrap();
    assert!(!reg.has_key_generator(&d()));
    assert!(reg.handle(&"https://a.example::other".to_string()).is_none());
}

#[test]
fn registry_resolves_by_origin() {
    let env = fresh_env("resolve");
    let reg = registry_with(&env, &["s"]);
    assert!(reg.resolve(&"https://a.example/deep/page?q=1".to_string(), &"s".to_string()).is_some());
    assert!(reg.resolve(&"https://b.example/".to_string(), &"s".to_string()).is_none());
    assert!(reg.resolve(&"not a url".to_string(), &"s".to_string()).is_none());
}

#[test]
fn write_reply_reports_refusal() {
    assert_eq!(write_reply(b"k".to_vec(), Ok(())), kv(Some(b"k")));
    assert_eq!(write_reply(b"k".to_vec(), Err(rkv::StoreError::KeyValuePairNotFound)), kv(None));
}

#[test]
fn store_creation_refused_while_reading() {
    let env = fresh_env("busy");
    let mut reg = registry_with(&env, &["s"]);
    let reader = env.read().unwrap();
    let refused = reg.create_store(&env, StoreDescription::new(ORIGIN.to_string(), "late".to_string()), false);
    assert!(refused.is_err());
    assert!(!reg.contains(&"https://a.example::late".to_string()));
    assert!(reg.contains(&"https://a.example::s".to_string()));
    // A store created before is kept as it is, reader or not.
    reg.create_store(&env, StoreDescription::new(ORIGIN.to_string(), "s".to_string()), true).unwrap();
    drop(reader);
    reg.create_store(&env, StoreDescription::new(ORIGIN.to_string(), "late".to_string()), false).unwrap();
    assert!(reg.contains(&"https://a.example::late".to_string()));
}

#[test]
fn recreating_a_store_keeps_it() {
    let env = fresh_env("recreate");
    let mut reg = registry_with(&env, &["s"]);
    let d = || StoreDescription::new(ORIGIN.to_string(), "s".to_string());
    let before = reg.handle(&d().to_string()).unwrap();
    run(&env, &reg, IndexedDBTxnMode::Readwrite,
        vec![put(1, "s", IndexedDBKeyType::String(b"k".to_vec()), b"v", true)]);
    reg.create_store(&env, d(), true).unwrap();
    assert!(reg.handle(&d().to_string()).unwrap() == before);
    assert!(reg.has_key_generator(&d()));
    assert_eq!(read_one(&env, &reg, "s", b"k"), kv(Some(b"v")));
}

#[test]
fn removals_are_never_refused() {
    let env = fresh_env("removals");
    let reg = registry_with(&env, &["s"]);
    let out = run(&env, &reg, IndexedDBTxnMode::Readwrite, vec![remove(1, "s", b"k"), remove(2, "s", b"k")]);
    assert!(out.completed && !out.refused);
    assert_eq!(out.replies, vec![(1, kv(Some(b"k"))), (2, kv(Some(b"k")))]);
}
