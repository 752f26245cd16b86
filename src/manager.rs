//! The manager: the single owner of the serial counter, the database
//! version, the buffers of transactions not yet handed to the engine, and
//! the set of transactions with a batch out. It decides; whoever runs its
//! loop receives the messages, performs the actions it returns, sends the
//! replies and reports each batch done.
use vstd::prelude::*;
use crate::descriptor::{origin_of, StoreDescription};
use crate::engine::{answers, KvsTransaction};
use crate::protocol::{AsyncOperation, IndexedDBThreadMsg, IndexedDBThreadReturnType, IndexedDBTxnMode, SyncOperation};
use std::collections::{HashMap, HashSet};
use std::collections::VecDeque;

verus! {

broadcast use vstd::std_specs::hash::group_hash_axioms;

/// The manager's state as a spec value.
pub struct ManagerState<R> {
    /// The database version; 0 until a database is opened.
    pub version: u64,
    /// The transaction that last upgraded the version.
    pub upgrade_transaction: Option<u64>,
    /// The last serial handed out.
    pub serial: nat,
    /// The buffered requests of each transaction, not yet handed out.
    pub pending: Map<u64, KvsTransaction<R>>,
    /// The transactions with a batch handed out and not yet reported done.
    pub running: Set<u64>,
}

impl<R> ManagerState<R> {
    /// The state after an open asking for `version`: a database not yet
    /// opened takes that version, or 1; an opened one keeps its own.
    pub open spec fn opened(self, version: Option<u64>) -> Self {
        if self.version == 0 {
            ManagerState {
                version: match version {
                    Some(v) => v,
                    None => 1,
                },
                ..self
            }
        } else {
            self
        }
    }

    /// The state after transaction `txn` upgraded the version to `version`.
    pub open spec fn upgraded(self, txn: u64, version: u64) -> Self {
        ManagerState { version, upgrade_transaction: Some(txn), ..self }
    }

    /// The state after a new serial was handed out.
    pub open spec fn registered(self) -> Self {
        ManagerState { serial: self.serial + 1, ..self }
    }

    /// The state after `n` serials were handed out.
    pub open spec fn registered_n(self, n: nat) -> Self
        decreases n,
    {
        if n == 0 {
            self
        } else {
            self.registered_n((n - 1) as nat).registered()
        }
    }

    /// Hands the buffer of `txn` out as a batch, where there is one and no
    /// batch of `txn` is out: the state after, and the batch.
    pub open spec fn started(self, txn: u64) -> (Self, Option<KvsTransaction<R>>) {
        if self.running.contains(txn) || !self.pending.contains_key(txn) {
            (self, None)
        } else {
            (
                ManagerState { pending: self.pending.remove(txn), running: self.running.insert(txn), ..self },
                Some(self.pending[txn]),
            )
        }
    }

    /// The state once the batch of `txn` that was out is done.
    pub open spec fn finished(self, txn: u64) -> Self {
        ManagerState { running: self.running.remove(txn), ..self }
    }

    /// The requests buffered for `txn`, in the order they came.
    pub open spec fn requests_of(self, txn: u64) -> Seq<AsyncOperation<R>> {
        if self.pending.contains_key(txn) {
            self.pending[txn].requests@
        } else {
            Seq::empty()
        }
    }
}

/// Handing out `n` serials moves the last serial on by `n`.
pub proof fn registered_n_serial<R>(s: ManagerState<R>, n: nat)
    ensures
        s.registered_n(n).serial == s.serial + n,
        s.registered_n(n).version == s.version,
    decreases n,
{
    if n > 0 {
        registered_n_serial(s, (n - 1) as nat);
    }
}

/// Serials are handed out in strictly increasing order: the serial of a
/// later registration is greater than that of an earlier one.
pub proof fn serials_strictly_increase<R>(s: ManagerState<R>, i: nat, j: nat)
    requires
        i < j,
    ensures
        s.registered_n(i).serial < s.registered_n(j).serial,
{
    registered_n_serial(s, i);
    registered_n_serial(s, j);
}

/// After an upgrade to `v` the version is `v`; an open never lowers the
/// version, and neither does an upgrade to a version no lower than the
/// current one.
pub proof fn version_never_decreases<R>(s: ManagerState<R>, txn: u64, v: u64, asked: Option<u64>)
    ensures
        s.upgraded(txn, v).version == v,
        v >= s.version ==> s.upgraded(txn, v).version >= s.version,
        s.opened(asked).version >= s.version,
        s.version != 0 ==> s.opened(asked).version == s.version,
{
}

/// Two operations queued on one transaction, `a` and then `b`, stand in
/// its batch in that order, and a batch's replies, answering its requests
/// one by one, answer `a` before `b`.
pub proof fn replies_in_queue_order<R>(
    before: Seq<AsyncOperation<R>>,
    a: AsyncOperation<R>,
    b: AsyncOperation<R>,
    batch: Seq<AsyncOperation<R>>,
    replies: Seq<(R, IndexedDBThreadReturnType)>,
)
    requires
        batch == before.push(a).push(b),
        replies.len() == batch.len(),
        forall|i: int| 0 <= i < replies.len() ==> #[trigger] answers(batch, replies, i),
    ensures
        replies[before.len() as int].0 == a.spec_sender(),
        replies[before.len() as int + 1].0 == b.spec_sender(),
{
    assert(answers(batch, replies, before.len() as int));
    assert(answers(batch, replies, before.len() as int + 1));
}

/// What the loop must do to finish a control request.
pub enum SyncAction<R> {
    /// Send this reply on the request's channel.
    Reply(IndexedDBThreadReturnType),
    /// Send this serial number on the request's channel.
    Serial(u64),
    /// Send this answer to a key-generator query on the request's channel.
    Flag(bool),
    /// Send on the request's channel whether the engine's store of this
    /// description has a key generator.
    QueryKeyGenerator(StoreDescription),
    /// Create this store in the engine, with a key generator iff the flag
    /// is set, then send the reply as a handshake.
    CreateStore(StoreDescription, bool, IndexedDBThreadReturnType),
    /// Hand this batch, if there is one, to the engine, then send the reply.
    Start(Option<KvsTransaction<R>>, IndexedDBThreadReturnType),
}

/// What a control request does: the state it leaves and the action it
/// asks of the loop.
pub open spec fn sync_outcome<R>(before: ManagerState<R>, op: SyncOperation, after: ManagerState<R>, action: SyncAction<R>) -> bool {
    match op {
        SyncOperation::UpgradeVersion(txn, v) => after == before.upgraded(txn, v)
            && action == SyncAction::<R>::Reply(IndexedDBThreadReturnType::UpgradeVersion(Ok(v))),
        SyncOperation::HasKeyGenerator(url, store) => after == before && match action {
            SyncAction::QueryKeyGenerator(d) => origin_of(url@) == Some(d.origin@) && d.name@ == store@,
            SyncAction::Flag(b) => origin_of(url@) is None && !b,
            _ => false,
        },
        SyncOperation::Commit(_) => after == before
            && action == SyncAction::<R>::Reply(IndexedDBThreadReturnType::Commit(Ok(()))),
        SyncOperation::CreateObjectStore(url, store, auto_increment) => after == before && match action {
            SyncAction::CreateStore(d, a, reply) => origin_of(url@) == Some(d.origin@) && d.name@ == store@
                && a == auto_increment && reply == IndexedDBThreadReturnType::CreateObjectStore(None),
            SyncAction::Reply(reply) => origin_of(url@) is None
                && reply == IndexedDBThreadReturnType::CreateObjectStore(None),
            _ => false,
        },
        SyncOperation::Open(_, _, v) => after == before.opened(v)
            && action == SyncAction::<R>::Reply(IndexedDBThreadReturnType::Open(Some(after.version))),
        SyncOperation::RegisterNewTxn => after == before.registered()
            && action == SyncAction::<R>::Serial(after.serial as u64),
        SyncOperation::StartTransaction(txn, mode) => {
            &&& action matches SyncAction::Start(t, reply)
            &&& reply == IndexedDBThreadReturnType::StartTransaction(Ok(()))
            &&& start_outcome(before, txn, mode, after, t)
        },
        SyncOperation::Version => after == before
            && action == SyncAction::<R>::Reply(IndexedDBThreadReturnType::Version(before.version)),
        SyncOperation::Exit => after == before
            && action == SyncAction::<R>::Reply(IndexedDBThreadReturnType::Exit),
    }
}

/// What an explicit start of `txn` does: while a batch of it is out,
/// nothing; otherwise its buffer is handed out, or, where nothing is
/// buffered, an empty batch of `mode`, and `txn` is marked as out.
pub open spec fn start_outcome<R>(
    before: ManagerState<R>,
    txn: u64,
    mode: IndexedDBTxnMode,
    after: ManagerState<R>,
    batch: Option<KvsTransaction<R>>,
) -> bool {
    if before.running.contains(txn) {
        after == before && batch is None
    } else if before.pending.contains_key(txn) {
        (after, batch) == before.started(txn)
    } else {
        &&& after == (ManagerState { running: before.running.insert(txn), ..before })
        &&& batch matches Some(t)
        &&& t.mode == mode
        &&& t.requests@.len() == 0
    }
}

/// What a data request does: it is appended to its transaction's buffer,
/// made with `mode` where there is none; then, unless a batch of the
/// transaction is out, the buffer leaves at once as the batch returned.
pub open spec fn async_outcome<R>(
    before: ManagerState<R>,
    txn: u64,
    mode: IndexedDBTxnMode,
    op: AsyncOperation<R>,
    after: ManagerState<R>,
    batch: Option<KvsTransaction<R>>,
) -> bool {
    let queued = before.requests_of(txn).push(op);
    let queued_mode = if before.pending.contains_key(txn) { before.pending[txn].mode } else { mode };
    &&& after.version == before.version
    &&& after.upgrade_transaction == before.upgrade_transaction
    &&& after.serial == before.serial
    &&& forall|t: u64| t != txn ==> #[trigger] after.pending.contains_key(t) == before.pending.contains_key(t)
    &&& forall|t: u64| t != txn && before.pending.contains_key(t) ==> #[trigger] after.pending[t] == before.pending[t]
    &&& if before.running.contains(txn) {
        &&& batch is None
        &&& after.running == before.running
        &&& after.pending.contains_key(txn)
        &&& after.requests_of(txn) == queued
        &&& after.pending[txn].mode == queued_mode
    } else {
        &&& batch matches Some(t)
        &&& t.requests@ == queued
        &&& t.mode == queued_mode
        &&& !after.pending.contains_key(txn)
        &&& after.running == before.running.insert(txn)
    }
}

/// The operations of a transaction handed out in `handed`, then those of
/// `batch` where one was handed out.
pub open spec fn with_batch<R>(handed: Seq<AsyncOperation<R>>, batch: Option<KvsTransaction<R>>) -> Seq<AsyncOperation<R>> {
    match batch {
        Some(t) => handed + t.requests@,
        None => handed,
    }
}

/// Queue order is kept. Take a transaction's operations handed out so far,
/// then those still buffered: a data request on it appends its operation to
/// that sequence, and handing a batch out or finishing one leaves the
/// sequence as it was. So the transaction's batches, in the order they are
/// handed out, hold its operations in the order they came.
pub proof fn queue_order_kept<R>(
    s: ManagerState<R>,
    txn: u64,
    handed: Seq<AsyncOperation<R>>,
    mode: IndexedDBTxnMode,
    op: AsyncOperation<R>,
    after: ManagerState<R>,
    batch: Option<KvsTransaction<R>>,
)
    requires
        async_outcome(s, txn, mode, op, after, batch),
    ensures
        with_batch(handed, batch) + after.requests_of(txn) == (handed + s.requests_of(txn)).push(op),
        with_batch(handed, s.started(txn).1) + s.started(txn).0.requests_of(txn) == handed + s.requests_of(txn),
        s.finished(txn).requests_of(txn) == s.requests_of(txn),
{
    let queued = s.requests_of(txn).push(op);
    if s.running.contains(txn) {
        assert(after.requests_of(txn) == queued);
    } else {
        assert(after.requests_of(txn) =~= Seq::<AsyncOperation<R>>::empty());
        assert(handed + queued + Seq::<AsyncOperation<R>>::empty() =~= (handed + s.requests_of(txn)).push(op));
    }
    assert((handed + s.requests_of(txn)).push(op) =~= handed + queued);
    let (s2, b) = s.started(txn);
    if b is Some {
        assert(s2.requests_of(txn) =~= Seq::<AsyncOperation<R>>::empty());
        assert(handed + s.requests_of(txn) + Seq::<AsyncOperation<R>>::empty() =~= handed + s.requests_of(txn));
    } else {
        assert(s.requests_of(txn) =~= s2.requests_of(txn));
    }
}

/// A transaction has at most one batch out: while one is out nothing more
/// of it is handed out, and a batch handed out marks it as out until it is
/// reported done.
pub proof fn one_batch_at_a_time<R>(
    s: ManagerState<R>,
    txn: u64,
    mode: IndexedDBTxnMode,
    after: ManagerState<R>,
    batch: Option<KvsTransaction<R>>,
)
    ensures
        s.running.contains(txn) ==> s.started(txn).1 is None,
        s.started(txn).1 is Some ==> s.started(txn).0.running.contains(txn),
        !s.finished(txn).running.contains(txn),
        start_outcome(s, txn, mode, after, batch) && batch is Some
            ==> !s.running.contains(txn) && after.running.contains(txn),
        start_outcome(s, txn, mode, after, batch) ==> after.requests_of(txn) =~= Seq::<AsyncOperation<R>>::empty()
            || after.requests_of(txn) == s.requests_of(txn),
{
}

/// What the loop must do after a message.
pub enum ManagerAction<R> {
    /// Finish the control request as the action says.
    Sync(SyncAction<R>),
    /// Hand this batch, if there is one, to the engine.
    Dispatch(Option<KvsTransaction<R>>),
}

pub struct IndexedDBManager<R> {
    version: u64,
    upgrade_transaction: Option<u64>,
    transactions: HashMap<u64, KvsTransaction<R>>,
    running: HashSet<u64>,
    serial_number_counter: u64,
}

impl<R> View for IndexedDBManager<R> {
    type V = ManagerState<R>;

    closed spec fn view(&self) -> ManagerState<R> {
        ManagerState {
            version: self.version,
            upgrade_transaction: self.upgrade_transaction,
            serial: self.serial_number_counter as nat,
            pending: self.transactions@,
            running: self.running@,
        }
    }
}

impl<R> IndexedDBManager<R> {
    /// A manager with no database opened, no serial handed out and nothing
    /// buffered.
    pub fn new() -> (r: IndexedDBManager<R>)
        ensures
            r@.version == 0,
            r@.upgrade_transaction is None,
            r@.serial == 0,
            r@.pending == Map::<u64, KvsTransaction<R>>::empty(),
            r@.running == Set::<u64>::empty(),
    {
        IndexedDBManager {
            version: 0,
            upgrade_transaction: None,
            transactions: HashMap::new(),
            running: HashSet::new(),
            serial_number_counter: 0,
        }
    }

    /// The current database version.
    pub fn version(&self) -> (r: u64)
        ensures
            r == self@.version,
    {
        self.version
    }

    /// The last serial handed out.
    pub fn serial_number_counter(&self) -> (r: u64)
        ensures
            r == self@.serial,
    {
        self.serial_number_counter
    }

    /// The transaction that last upgraded the version.
    pub fn upgrade_transaction(&self) -> (r: Option<u64>)
        ensures
            r == self@.upgrade_transaction,
    {
        self.upgrade_transaction
    }

    /// Opens the database: one not yet opened takes the version asked for,
    /// or 1.
    pub fn open_db(&mut self, version: Option<u64>)
        ensures
            final(self)@ == old(self)@.opened(version),
    {
        if self.version == 0 {
            self.version = match version {
                Some(v) => v,
                None => 1,
            };
        }
    }

    /// Records `txn` as the upgrading transaction and takes `version`.
    pub fn upgrade_version(&mut self, txn: u64, version: u64) -> (r: IndexedDBThreadReturnType)
        ensures
            final(self)@ == old(self)@.upgraded(txn, version),
            r == IndexedDBThreadReturnType::UpgradeVersion(Ok(version)),
    {
        self.upgrade_transaction = Some(txn);
        self.version = version;
        IndexedDBThreadReturnType::UpgradeVersion(Ok(self.version))
    }

    /// Hands out the next serial number.
    pub fn register_new_txn(&mut self) -> (r: u64)
        requires
            old(self)@.serial < u64::MAX,
        ensures
            final(self)@ == old(self)@.registered(),
            r == final(self)@.serial,
    {
        self.serial_number_counter = self.serial_number_counter + 1;
        self.serial_number_counter
    }

    /// Appends `operation` to the buffer of `txn`, making the buffer, with
    /// `mode`, where there is none.
    pub fn queue(&mut self, txn: u64, mode: IndexedDBTxnMode, operation: AsyncOperation<R>)
        ensures
            final(self)@.version == old(self)@.version,
            final(self)@.upgrade_transaction == old(self)@.upgrade_transaction,
            final(self)@.serial == old(self)@.serial,
            final(self)@.running == old(self)@.running,
            final(self)@.pending.dom() == old(self)@.pending.dom().insert(txn),
            forall|t: u64| t != txn && old(self)@.pending.contains_key(t) ==> final(self)@.pending[t] == old(self)@.pending[t],
            final(self)@.requests_of(txn) == old(self)@.requests_of(txn).push(operation),
            final(self)@.pending[txn].mode == (if old(self)@.pending.contains_key(txn) {
                old(self)@.pending[txn].mode
            } else {
                mode
            }),
    {
        let transaction = match self.transactions.remove(&txn) {
            Some(mut t) => {
                t.requests.push_back(operation);
                t
            },
            None => {
                let mut requests: VecDeque<AsyncOperation<R>> = VecDeque::new();
                requests.push_back(operation);
                KvsTransaction { mode, requests }
            },
        };
        self.transactions.insert(txn, transaction);
    }

    /// Hands the buffer of `txn` out for the engine to run, where there is
    /// one and no batch of `txn` is out.
    pub fn start_transaction(&mut self, txn: u64) -> (r: Option<KvsTransaction<R>>)
        ensures
            (final(self)@, r) == old(self)@.started(txn),
    {
        if self.running.contains(&txn) {
            return None;
        }
        let r = self.transactions.remove(&txn);
        if r.is_some() {
            self.running.insert(txn);
        }
        proof {
            assert(self@.pending =~= old(self)@.started(txn).0.pending);
        }
        r
    }

    /// Starts `txn` on request: unless a batch of it is out, hands out its
    /// buffer, or an empty batch of `mode` where nothing is buffered.
    pub fn start_explicitly(&mut self, txn: u64, mode: IndexedDBTxnMode) -> (r: Option<KvsTransaction<R>>)
        ensures
            start_outcome(old(self)@, txn, mode, final(self)@, r),
    {
        if self.running.contains(&txn) {
            return None;
        }
        if self.transactions.contains_key(&txn) {
            return self.start_transaction(txn);
        }
        self.running.insert(txn);
        Some(KvsTransaction { mode, requests: VecDeque::new() })
    }

    /// Records that the batch of `txn` that was out is done, and hands out
    /// what was buffered for `txn` meanwhile, if anything.
    pub fn batch_done(&mut self, txn: u64) -> (r: Option<KvsTransaction<R>>)
        ensures
            (final(self)@, r) == old(self)@.finished(txn).started(txn),
    {
        self.running.remove(&txn);
        proof {
            assert(self@ == old(self)@.finished(txn));
        }
        self.start_transaction(txn)
    }

    /// Queues an operation on `txn` and, unless a batch of `txn` is out,
    /// at once hands the transaction's buffer out: the batch returned holds
    /// what was buffered for `txn`, then `operation`.
    pub fn handle_async(&mut self, txn: u64, mode: IndexedDBTxnMode, operation: AsyncOperation<R>) -> (r: Option<KvsTransaction<R>>)
        ensures
            async_outcome(old(self)@, txn, mode, operation, final(self)@, r),
    {
        self.queue(txn, mode, operation);
        self.start_transaction(txn)
    }

    /// Carries out a control request, or says what the loop must do to
    /// carry it out.
    pub fn handle_sync_operation(&mut self, operation: SyncOperation) -> (r: SyncAction<R>)
        requires
            operation is RegisterNewTxn ==> old(self)@.serial < u64::MAX,
        ensures
            sync_outcome(old(self)@, operation, final(self)@, r),
    {
        match operation {
            SyncOperation::UpgradeVersion(txn, version) => SyncAction::Reply(self.upgrade_version(txn, version)),
            SyncOperation::HasKeyGenerator(url, store) => match StoreDescription::from_url(url.as_str(), store) {
                Some(d) => SyncAction::QueryKeyGenerator(d),
                None => SyncAction::Flag(false),
            },
            SyncOperation::Commit(_) => SyncAction::Reply(IndexedDBThreadReturnType::Commit(Ok(()))),
            SyncOperation::CreateObjectStore(url, store, auto_increment) => match StoreDescription::from_url(url.as_str(), store) {
                Some(d) => SyncAction::CreateStore(d, auto_increment, IndexedDBThreadReturnType::CreateObjectStore(None)),
                None => SyncAction::Reply(IndexedDBThreadReturnType::CreateObjectStore(None)),
            },
            SyncOperation::Open(_, _, version) => {
                self.open_db(version);
                SyncAction::Reply(IndexedDBThreadReturnType::Open(Some(self.version)))
            },
            SyncOperation::RegisterNewTxn => SyncAction::Serial(self.register_new_txn()),
            SyncOperation::StartTransaction(txn, mode) => {
                let t = self.start_explicitly(txn, mode);
                SyncAction::Start(t, IndexedDBThreadReturnType::StartTransaction(Ok(())))
            },
            SyncOperation::Version => SyncAction::Reply(IndexedDBThreadReturnType::Version(self.version)),
            SyncOperation::Exit => SyncAction::Reply(IndexedDBThreadReturnType::Exit),
        }
    }

    /// Takes one message: a control request is carried out; a data request
    /// is queued, and its transaction's buffer handed out unless a batch of
    /// it is out; a batch reported done lets the next one of its
    /// transaction go.
    pub fn handle_message(&mut self, message: IndexedDBThreadMsg<R>) -> (r: ManagerAction<R>)
        requires
            message matches IndexedDBThreadMsg::Sync(SyncOperation::RegisterNewTxn) ==> old(self)@.serial < u64::MAX,
        ensures
            match message {
                IndexedDBThreadMsg::Sync(op) => r matches ManagerAction::Sync(a) && sync_outcome(old(self)@, op, final(self)@, a),
                IndexedDBThreadMsg::Async(txn, mode, op) => r matches ManagerAction::Dispatch(b)
                    && async_outcome(old(self)@, txn, mode, op, final(self)@, b),
                IndexedDBThreadMsg::Done(txn) => r matches ManagerAction::Dispatch(b)
                    && (final(self)@, b) == old(self)@.finished(txn).started(txn),
            },
    {
        match message {
            IndexedDBThreadMsg::Sync(operation) => ManagerAction::Sync(self.handle_sync_operation(operation)),
            IndexedDBThreadMsg::Async(txn, mode, operation) => ManagerAction::Dispatch(self.handle_async(txn, mode, operation)),
            IndexedDBThreadMsg::Done(txn) => ManagerAction::Dispatch(self.batch_done(txn)),
        }
    }
}

} // verus!
