//! Values that the web-facing layer hands to, or builds from, the engine.
use vstd::prelude::*;

verus! {

/// The event fired at a database when its version changes: the version it
/// had, and the version asked for (none when the database is deleted).
pub struct IDBVersionChangeEvent {
    old_version: u64,
    new_version: Option<u64>,
}

impl IDBVersionChangeEvent {
    pub fn new_inherited(old_version: u64, new_version: Option<u64>) -> (r: IDBVersionChangeEvent)
        ensures
            r.spec_old_version() == old_version,
            r.spec_new_version() == new_version,
    {
        IDBVersionChangeEvent { old_version, new_version }
    }

    /// An event not yet initialised: from version 0, to no version.
    pub fn new_uninitialized() -> (r: IDBVersionChangeEvent)
        ensures
            r.spec_old_version() == 0,
            r.spec_new_version() is None,
    {
        IDBVersionChangeEvent::new_inherited(0, None)
    }

    pub closed spec fn spec_old_version(&self) -> u64 {
        self.old_version
    }

    pub closed spec fn spec_new_version(&self) -> Option<u64> {
        self.new_version
    }

    pub fn old_version(&self) -> (r: u64)
        ensures
            r == self.spec_old_version(),
    {
        self.old_version
    }

    pub fn new_version(&self) -> (r: Option<u64>)
        ensures
            r == self.spec_new_version(),
    {
        self.new_version
    }
}

/// Where an object store finds a value's key: one dotted path, or several.
#[derive(Clone, Debug, PartialEq, Eq)]
pub enum KeyPath {
    String(String),
    StringSequence(Vec<String>),
}

} // verus!
