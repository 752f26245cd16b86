//! Messages exchanged between client sessions and the manager, and the
//! replies sent back to them.
use vstd::prelude::*;
use crate::model::Request;

verus! {

/// The mode a transaction runs under.
#[derive(Clone, Copy, Debug, PartialEq, Eq, Structural)]
pub enum IndexedDBTxnMode {
    Readonly,
    Readwrite,
    Versionchange,
}

impl IndexedDBTxnMode {
    /// Whether batches of this mode run under the store's single writer.
    pub open spec fn spec_is_writing(self) -> bool {
        !(self is Readonly)
    }

    pub fn is_writing(&self) -> (r: bool)
        ensures
            r == self.spec_is_writing(),
    {
        match self {
            IndexedDBTxnMode::Readonly => false,
            _ => true,
        }
    }
}

/// A key as the client encoded it, tagged with the type it came from.
/// Only the bytes are stored; the tag never takes part in a comparison.
#[derive(Clone, Debug, PartialEq, Eq)]
pub enum IndexedDBKeyType {
    Number(Vec<u8>),
    String(Vec<u8>),
}

impl IndexedDBKeyType {
    /// The bytes under which the key is stored.
    pub open spec fn spec_bytes(&self) -> Seq<u8> {
        match self {
            IndexedDBKeyType::Number(b) => b@,
            IndexedDBKeyType::String(b) => b@,
        }
    }

    pub fn into_bytes(self) -> (r: Vec<u8>)
        ensures
            r@ == self.spec_bytes(),
    {
        match self {
            IndexedDBKeyType::Number(b) => b,
            IndexedDBKeyType::String(b) => b,
        }
    }
}

/// What the manager or a worker sends back on a reply channel.
#[derive(Debug, PartialEq, Eq)]
pub enum IndexedDBThreadReturnType {
    Open(Option<u64>),
    NextSerialNumber(u64),
    StartTransaction(Result<(), ()>),
    Commit(Result<(), ()>),
    Version(u64),
    CreateObjectStore(Option<String>),
    UpgradeVersion(Result<u64, ()>),
    KVResult(Option<Vec<u8>>),
    Exit,
}

/// A request on the data of one store, carrying the channel `R` its reply
/// goes to, the URL of the page that made it and the store's name.
#[derive(Debug)]
pub enum AsyncOperation<R> {
    /// Reads the value stored under a key.
    GetItem(R, String, String, Vec<u8>),
    /// Stores a value under a key; the flag says whether an existing value
    /// may be replaced.
    PutItem(R, String, String, IndexedDBKeyType, Vec<u8>, bool),
    /// Removes a key and its value.
    RemoveItem(R, String, String, Vec<u8>),
}

impl<R> AsyncOperation<R> {
    /// The channel the reply goes to.
    pub open spec fn spec_sender(&self) -> R {
        match self {
            AsyncOperation::GetItem(r, _, _, _) => *r,
            AsyncOperation::PutItem(r, _, _, _, _, _) => *r,
            AsyncOperation::RemoveItem(r, _, _, _) => *r,
        }
    }

    /// The URL of the page that made the request.
    pub open spec fn spec_url(&self) -> Seq<char> {
        match self {
            AsyncOperation::GetItem(_, u, _, _) => u@,
            AsyncOperation::PutItem(_, u, _, _, _, _) => u@,
            AsyncOperation::RemoveItem(_, u, _, _) => u@,
        }
    }

    /// The name of the store it targets.
    pub open spec fn spec_store(&self) -> Seq<char> {
        match self {
            AsyncOperation::GetItem(_, _, s, _) => s@,
            AsyncOperation::PutItem(_, _, s, _, _, _) => s@,
            AsyncOperation::RemoveItem(_, _, s, _) => s@,
        }
    }

    /// What it asks of the store.
    pub open spec fn spec_request(&self) -> Request {
        match self {
            AsyncOperation::GetItem(_, _, _, k) => Request::Get(k@),
            AsyncOperation::PutItem(_, _, _, k, v, o) => Request::Put(k.spec_bytes(), v@, *o),
            AsyncOperation::RemoveItem(_, _, _, k) => Request::Remove(k@),
        }
    }
}

/// The bytes a `KVResult` reply carries, if any.
pub open spec fn kv_bytes(r: IndexedDBThreadReturnType) -> Option<Seq<u8>> {
    match r {
        IndexedDBThreadReturnType::KVResult(Some(b)) => Some(b@),
        _ => None,
    }
}

/// A control request; its reply goes back on the channel it came with,
/// which stays with whoever runs the manager's loop.
#[derive(Clone, Debug, PartialEq, Eq)]
pub enum SyncOperation {
    /// Transaction serial and the new version.
    UpgradeVersion(u64, u64),
    /// URL and store name.
    HasKeyGenerator(String, String),
    /// Transaction serial.
    Commit(u64),
    /// URL, store name and whether the store has a key generator.
    CreateObjectStore(String, String, bool),
    /// URL, database name and the version asked for.
    Open(String, String, Option<u64>),
    RegisterNewTxn,
    /// Transaction serial and mode.
    StartTransaction(u64, IndexedDBTxnMode),
    Version,
    Exit,
}

/// A message to the manager.
#[derive(Debug)]
pub enum IndexedDBThreadMsg<R> {
    Sync(SyncOperation),
    /// Transaction serial, its mode and the request to queue.
    Async(u64, IndexedDBTxnMode, AsyncOperation<R>),
    /// From the engine: the batch of this transaction that was out has
    /// been answered.
    Done(u64),
}

} // verus!
