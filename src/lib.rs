//! Storage engine and transaction manager of an origin-scoped object-store
//! database: the protocol types, the store registry, the batch executor over
//! a transactional key-value store, and the manager's state machine.
pub mod descriptor;
pub mod engine;
pub mod kv;
pub mod manager;
pub mod model;
pub mod protocol;
pub mod registry;
pub mod web;

pub use descriptor::StoreDescription;
pub use engine::{BatchOutcome, KvsTransaction};
pub use registry::StoreRegistry;
pub use manager::{IndexedDBManager, SyncAction};
pub use protocol::{
    AsyncOperation, IndexedDBKeyType, IndexedDBThreadMsg, IndexedDBThreadReturnType,
    IndexedDBTxnMode, SyncOperation,
};
pub use web::{IDBVersionChangeEvent, KeyPath};
