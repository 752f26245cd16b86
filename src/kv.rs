//! The transactional key-value store underneath the engine: rkv in its
//! pure-Rust backend. What a reader or a writer sees of one store is named
//! by `reader_holds` and `writer_holds`: the keys whose value is a blob,
//! each mapped to the blob's bytes.
use vstd::prelude::*;
use rkv::backend::{SafeModeDatabase, SafeModeEnvironment, SafeModeRoTransaction, SafeModeRwTransaction};
use rkv::{Reader, Rkv, SingleStore, StoreError, Writer};

verus! {

#[verifier::external_type_specification]
#[verifier::external_body]
#[verifier::reject_recursive_types(E)]
pub struct ExRkv<E>(Rkv<E>);

#[verifier::external_type_specification]
#[verifier::external_body]
pub struct ExSafeModeEnvironment(SafeModeEnvironment);

#[verifier::external_type_specification]
#[verifier::external_body]
pub struct ExSafeModeDatabase(SafeModeDatabase);

#[verifier::external_type_specification]
#[verifier::external_body]
pub struct ExSafeModeRwTransaction<'t>(SafeModeRwTransaction<'t>);

#[verifier::external_type_specification]
#[verifier::external_body]
pub struct ExSafeModeRoTransaction<'t>(SafeModeRoTransaction<'t>);

#[verifier::external_type_specification]
#[verifier::external_body]
#[verifier::reject_recursive_types(D)]
pub struct ExSingleStore<D>(SingleStore<D>);

#[verifier::external_type_specification]
#[verifier::external_body]
#[verifier::reject_recursive_types(T)]
pub struct ExWriter<T>(Writer<T>);

#[verifier::external_type_specification]
#[verifier::external_body]
#[verifier::reject_recursive_types(T)]
pub struct ExReader<T>(Reader<T>);

#[verifier::external_type_specification]
#[verifier::external_body]
pub struct ExStoreError(StoreError);

/// An environment: the on-disk root that holds every store.
pub type KvEnv = Rkv<SafeModeEnvironment>;

/// A handle on one named store of an environment.
pub type StoreHandle = SingleStore<SafeModeDatabase>;

/// A snapshot of the environment, taken when the reader began.
pub type KvReader<'e> = Reader<SafeModeRoTransaction<'e>>;

/// A write transaction on the environment.
pub type KvWriter<'e> = Writer<SafeModeRwTransaction<'e>>;

/// The blobs of store `s` as writer `w` sees them; empty where `w` holds
/// no snapshot of `s`.
pub uninterp spec fn writer_holds(w: Writer<SafeModeRwTransaction>, s: SingleStore<SafeModeDatabase>) -> Map<Seq<u8>, Seq<u8>>;

/// Relies on rkv::SingleStore::put on a writer: the key's value is replaced
/// in that store's snapshot; its failures (a handle foreign to the writer,
/// a value that cannot be encoded) change nothing.
#[verifier::external_body]
pub(crate) fn writer_put(w: &mut KvWriter, s: &StoreHandle, key: &[u8], value: &[u8]) -> (r: Result<(), StoreError>)
    ensures
        r is Ok ==> writer_holds(*final(w), *s) == writer_holds(*old(w), *s).insert(key@, value@),
        r is Err ==> writer_holds(*final(w), *s) == writer_holds(*old(w), *s),
        forall|o: StoreHandle| o != *s ==> writer_holds(*final(w), o) == writer_holds(*old(w), o),
{
    s.put(w, key, &rkv::Value::Blob(value))
}

/// The blobs of store `s` in reader `r`'s snapshot; empty where `r` holds
/// no snapshot of `s`.
pub uninterp spec fn reader_holds(r: Reader<SafeModeRoTransaction>, s: SingleStore<SafeModeDatabase>) -> Map<Seq<u8>, Seq<u8>>;

/// The blob stored under `key`, if there is one, as a spec value.
pub open spec fn lookup(m: Map<Seq<u8>, Seq<u8>>, key: Seq<u8>) -> Option<Seq<u8>> {
    if m.contains_key(key) {
        Some(m[key])
    } else {
        None
    }
}

/// What a read returned, as a spec value: the bytes found, or nothing.
pub open spec fn read_view(r: Result<Option<Vec<u8>>, StoreError>) -> Option<Seq<u8>> {
    match r {
        Ok(Some(v)) => Some(v@),
        _ => None,
    }
}

/// Relies on rkv::Rkv::open_single with StoreOptions::create(): opens the
/// store of that name, creating it where it does not exist yet.
#[verifier::external_body]
pub(crate) fn open_store(env: &KvEnv, name: &str) -> (r: Result<StoreHandle, StoreError>) {
    env.open_single(name, rkv::StoreOptions::create())
}

/// Relies on rkv::Rkv::read: a reader over a snapshot of every store.
#[verifier::external_body]
pub(crate) fn begin_read<'e>(env: &'e KvEnv) -> (r: Result<KvReader<'e>, StoreError>) {
    env.read()
}

/// Relies on rkv::Rkv::write: a write transaction over a snapshot of every
/// store. It does not wait for other writers: whoever begins one must hold
/// the environment's writer lock.
#[verifier::external_body]
pub(crate) fn begin_write<'e>(env: &'e KvEnv) -> (r: Result<KvWriter<'e>, StoreError>) {
    env.write()
}

/// Relies on rkv::Writer::commit: makes the writer's stores the
/// environment's and writes them to disk.
#[verifier::external_body]
pub(crate) fn commit(w: KvWriter) -> (r: Result<(), StoreError>) {
    w.commit()
}

/// Relies on rkv::SingleStore::get on a reader: a key that holds a blob
/// gives `Ok(Some(blob))`, an absent key `Ok(None)`. A value of another
/// kind reads as absent.
#[verifier::external_body]
pub(crate) fn reader_get(rd: &KvReader, s: &StoreHandle, key: &[u8]) -> (r: Result<Option<Vec<u8>>, StoreError>)
    ensures
        read_view(r) == lookup(reader_holds(*rd, *s), key@),
{
    match s.get(rd, key) {
        Ok(Some(rkv::Value::Blob(b))) => Ok(Some(b.to_vec())),
        Ok(_) => Ok(None),
        Err(e) => Err(e),
    }
}

/// Relies on rkv::SingleStore::get on a writer, as `reader_get` does.
#[verifier::external_body]
pub(crate) fn writer_get(w: &KvWriter, s: &StoreHandle, key: &[u8]) -> (r: Result<Option<Vec<u8>>, StoreError>)
    ensures
        read_view(r) == lookup(writer_holds(*w, *s), key@),
{
    match s.get(w, key) {
        Ok(Some(rkv::Value::Blob(b))) => Ok(Some(b.to_vec())),
        Ok(_) => Ok(None),
        Err(e) => Err(e),
    }
}

/// Relies on rkv::SingleStore::delete on a writer: the key is gone from
/// that store's snapshot afterwards. Its errors (an absent key, a handle
/// foreign to the writer) change nothing.
#[verifier::external_body]
pub(crate) fn writer_delete(w: &mut KvWriter, s: &StoreHandle, key: &[u8]) -> (r: Result<(), StoreError>)
    ensures
        writer_holds(*final(w), *s) == writer_holds(*old(w), *s).remove(key@),
        forall|o: StoreHandle| o != *s ==> writer_holds(*final(w), o) == writer_holds(*old(w), o),
{
    s.delete(w, key)
}

} // verus!
