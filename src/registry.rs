//! The registry of open stores: each store's handle and key-generator
//! flag, under its descriptor's string form.
use vstd::prelude::*;
use crate::descriptor::{descriptor_string, origin_of, StoreDescription};
use crate::kv::{open_store, KvEnv, StoreHandle};
use rkv::StoreError;

verus! {

/// What the registry records of one store: its handle, and whether it was
/// created with a key generator.
pub struct StoreEntry {
    pub handle: StoreHandle,
    pub auto_increment: bool,
}

struct OpenStore {
    descriptor: String,
    handle: StoreHandle,
    key_generator: Option<u64>,
}

/// The stores opened so far, each under its descriptor's string form, each
/// at most once.
pub struct StoreRegistry {
    entries: Vec<OpenStore>,
    stores: Ghost<Map<Seq<char>, StoreEntry>>,
}

impl View for StoreRegistry {
    type V = Map<Seq<char>, StoreEntry>;

    closed spec fn view(&self) -> Map<Seq<char>, StoreEntry> {
        self.stores@
    }
}

impl StoreRegistry {
    spec fn entry_of(e: OpenStore) -> StoreEntry {
        StoreEntry { handle: e.handle, auto_increment: e.key_generator is Some }
    }

    /// The entries and the map agree, and no descriptor is listed twice.
    #[verifier::type_invariant]
    spec fn wf(&self) -> bool {
        &&& forall|i: int|
            0 <= i < self.entries@.len() ==> {
                &&& #[trigger] self.stores@.contains_key(self.entries@[i].descriptor@)
                &&& self.stores@[self.entries@[i].descriptor@] == Self::entry_of(self.entries@[i])
            }
        &&& forall|k: Seq<char>|
            #[trigger] self.stores@.contains_key(k) ==> exists|i: int|
                0 <= i < self.entries@.len() && #[trigger] self.entries@[i].descriptor@ == k
        &&& forall|i: int, j: int|
            0 <= i < self.entries@.len() && 0 <= j < self.entries@.len() && i != j
                ==> self.entries@[i].descriptor@ != self.entries@[j].descriptor@
    }

    pub fn new() -> (r: StoreRegistry)
        ensures
            r@ == Map::<Seq<char>, StoreEntry>::empty(),
    {
        StoreRegistry { entries: Vec::new(), stores: Ghost(Map::empty()) }
    }

    fn find(&self, descriptor: &String) -> (r: Option<usize>)
        ensures
            match r {
                Some(i) => i < self.entries@.len() && self.entries@[i as int].descriptor@ == descriptor@,
                None => !self@.contains_key(descriptor@),
            },
    {
        proof {
            use_type_invariant(self);
        }
        let mut i: usize = 0;
        while i < self.entries.len()
            invariant
                i <= self.entries@.len(),
                forall|j: int| 0 <= j < i ==> self.entries@[j].descriptor@ != descriptor@,
            decreases self.entries@.len() - i,
        {
            if self.entries[i].descriptor == *descriptor {
                return Some(i);
            }
            i += 1;
        }
        proof {
            if self@.contains_key(descriptor@) {
                let j = choose|j: int| 0 <= j < self.entries@.len() && #[trigger] self.entries@[j].descriptor@ == descriptor@;
            }
        }
        None
    }

    /// Whether a store of that descriptor string was created.
    pub fn contains(&self, descriptor: &String) -> (r: bool)
        ensures
            r == self@.contains_key(descriptor@),
    {
        proof {
            use_type_invariant(self);
        }
        match self.find(descriptor) {
            Some(i) => {
                assert(self.stores@.contains_key(self.entries@[i as int].descriptor@));
                true
            },
            None => false,
        }
    }

    /// The handle of the store of that descriptor string, if it was created.
    pub fn handle(&self, descriptor: &String) -> (r: Option<StoreHandle>)
        ensures
            match r {
                Some(h) => self@.contains_key(descriptor@) && self@[descriptor@].handle == h,
                None => !self@.contains_key(descriptor@),
            },
    {
        proof {
            use_type_invariant(self);
        }
        match self.find(descriptor) {
            Some(i) => {
                assert(self.stores@.contains_key(self.entries@[i as int].descriptor@));
                Some(self.entries[i].handle)
            },
            None => None,
        }
    }

    /// Whether the store was created with a key generator.
    pub fn has_key_generator(&self, description: &StoreDescription) -> (r: bool)
        requires
            self@.contains_key(description.spec_string()),
        ensures
            r == self@[description.spec_string()].auto_increment,
    {
        proof {
            use_type_invariant(self);
        }
        let descriptor = description.to_string();
        let i = self.find(&descriptor).unwrap();
        assert(self.stores@.contains_key(self.entries@[i as int].descriptor@));
        self.entries[i].key_generator.is_some()
    }

    /// Opens the store in `env`, creating it where it is missing, and records
    /// it, with a key generator iff `auto_increment`. A store created before
    /// keeps its handle, and so its contents: only its key-generator flag is
    /// recorded anew. Where a new store cannot be opened, nothing is
    /// recorded.
    pub fn create_store(&mut self, env: &KvEnv, description: StoreDescription, auto_increment: bool) -> (r: Result<(), StoreError>)
        ensures
            r is Err ==> final(self)@ == old(self)@,
            r is Ok ==> final(self)@ == old(self)@.insert(
                description.spec_string(),
                StoreEntry {
                    handle: final(self)@[description.spec_string()].handle,
                    auto_increment,
                },
            ),
            old(self)@.contains_key(description.spec_string()) ==> r is Ok
                && final(self)@[description.spec_string()].handle == old(self)@[description.spec_string()].handle,
    {
        proof {
            use_type_invariant(&*self);
        }
        let descriptor = description.to_string();
        let found = self.find(&descriptor);
        // A store created before keeps its handle; only a new one is opened.
        let handle = match found {
            Some(i) => {
                assert(self.stores@.contains_key(self.entries@[i as int].descriptor@));
                self.entries[i].handle
            },
            None => match open_store(env, descriptor.as_str()) {
                Ok(h) => h,
                Err(e) => return Err(e),
            },
        };
        let key_generator: Option<u64> = if auto_increment { Some(0) } else { None };
        let ghost d = descriptor@;
        let ghost entry = StoreEntry { handle, auto_increment };
        let mut taken = StoreRegistry::new();
        std::mem::swap(self, &mut taken);
        proof {
            use_type_invariant(&taken);
        }
        let ghost old_entries = taken.entries@;
        let ghost old_map = taken.stores@;
        let StoreRegistry { mut entries, stores } = taken;
        let ghost m = stores@.insert(d, entry);
        match found {
            Some(i) => {
                entries.set(i, OpenStore { descriptor, handle, key_generator });
                assert forall|j: int| 0 <= j < entries@.len() && j != i implies
                    entries@[j].descriptor@ != d && entries@[j] == old_entries[j] by {}
                assert forall|k: Seq<char>| #[trigger] m.contains_key(k) implies exists|j: int|
                    0 <= j < entries@.len() && #[trigger] entries@[j].descriptor@ == k by {
                    if k != d {
                        let j = choose|j: int| 0 <= j < old_entries.len() && #[trigger] old_entries[j].descriptor@ == k;
                        assert(entries@[j].descriptor@ == k);
                    } else {
                        assert(entries@[i as int].descriptor@ == k);
                    }
                }
            },
            None => {
                assert forall|j: int| 0 <= j < old_entries.len() implies old_entries[j].descriptor@ != d by {
                    assert(old_map.contains_key(old_entries[j].descriptor@));
                }
                entries.push(OpenStore { descriptor, handle, key_generator });
                let ghost n = entries@.len() - 1;
                assert forall|j: int| 0 <= j < n implies entries@[j] == old_entries[j] by {}
                assert forall|k: Seq<char>| #[trigger] m.contains_key(k) implies exists|j: int|
                    0 <= j < entries@.len() && #[trigger] entries@[j].descriptor@ == k by {
                    if k != d {
                        let j = choose|j: int| 0 <= j < old_entries.len() && #[trigger] old_entries[j].descriptor@ == k;
                        assert(entries@[j].descriptor@ == k);
                    } else {
                        assert(entries@[n].descriptor@ == k);
                    }
                }
            },
        }
        assert forall|j: int| 0 <= j < entries@.len() implies {
            &&& #[trigger] m.contains_key(entries@[j].descriptor@)
            &&& m[entries@[j].descriptor@] == Self::entry_of(entries@[j])
        } by {
            if entries@[j].descriptor@ != d {
                assert(old_map.contains_key(old_entries[j].descriptor@));
            }
        }
        assert forall|a: int, b: int|
            0 <= a < entries@.len() && 0 <= b < entries@.len() && a != b implies
            entries@[a].descriptor@ != entries@[b].descriptor@ by {
            if entries@[a].descriptor@ != d && entries@[b].descriptor@ != d {
                assert(entries@[a] == old_entries[a] && entries@[b] == old_entries[b]);
            }
        }
        *self = StoreRegistry { entries, stores: Ghost(m) };
        assert(self@[d] == entry);
        Ok(())
    }
}

/// The handle that a request's URL and store name lead to, where that
/// store was created.
pub open spec fn resolve(reg: Map<Seq<char>, StoreEntry>, url: Seq<char>, name: Seq<char>) -> Option<StoreHandle> {
    match origin_of(url) {
        Some(o) => if reg.contains_key(descriptor_string(o, name)) {
            Some(reg[descriptor_string(o, name)].handle)
        } else {
            None
        },
        None => None,
    }
}

impl StoreRegistry {
    /// The handle of the store named `name` of `url`'s origin, where that
    /// store was created.
    pub fn resolve(&self, url: &String, name: &String) -> (r: Option<StoreHandle>)
        ensures
            r == resolve(self@, url@, name@),
    {
        match StoreDescription::from_url(url.as_str(), name.clone()) {
            Some(d) => {
                let s = d.to_string();
                self.handle(&s)
            },
            None => None,
        }
    }
}

} // verus!
