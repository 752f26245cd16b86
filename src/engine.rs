//! The storage engine: the execution of a transaction's batch under one
//! reader or one writer, request by request.
use vstd::prelude::*;
use crate::kv::{
    begin_read, begin_write, commit, lookup, reader_get, reader_holds, writer_delete, writer_get,
    writer_holds, writer_put, KvEnv, KvReader, KvWriter, StoreHandle,
};
use crate::model::{
    apply, key_of, other_keys_untouched, put_twice_is_put_once, remove_twice_is_remove_once, step_allowed,
    Contents, Request,
};
use crate::registry::{resolve, StoreEntry, StoreRegistry};
use crate::protocol::{kv_bytes, AsyncOperation, IndexedDBThreadReturnType, IndexedDBTxnMode};
use rkv::StoreError;
use std::collections::VecDeque;

verus! {

/// The bytes found by a read, or none where the read found nothing or failed.
fn found(r: Result<Option<Vec<u8>>, StoreError>) -> (v: Option<Vec<u8>>)
    ensures
        match v {
            Some(b) => r matches Ok(Some(x)) && x@ == b@,
            None => !(r matches Ok(Some(_))),
        },
{
    match r {
        Ok(Some(b)) => Some(b),
        _ => None,
    }
}

/// The reply to a write of `key`: the key where the store took the write,
/// nothing where it refused it.
pub fn write_reply(key: Vec<u8>, r: Result<(), StoreError>) -> (reply: IndexedDBThreadReturnType)
    ensures
        reply is KVResult,
        kv_bytes(reply) == (if r is Ok { Some(key@) } else { None::<Seq<u8>> }),
{
    match r {
        Ok(()) => IndexedDBThreadReturnType::KVResult(Some(key)),
        Err(_) => IndexedDBThreadReturnType::KVResult(None),
    }
}

/// Runs one request of a readonly batch on a reader's snapshot. Only a
/// read of a created store finds anything; any other request is refused
/// with an empty reply.
pub fn execute_read<R>(rd: &KvReader, reg: &StoreRegistry, op: AsyncOperation<R>) -> (r: (R, IndexedDBThreadReturnType))
    ensures
        r.0 == op.spec_sender(),
        r.1 is KVResult,
        kv_bytes(r.1) == match (resolve(reg@, op.spec_url(), op.spec_store()), op.spec_request()) {
            (Some(h), Request::Get(k)) => lookup(reader_holds(*rd, h), k),
            _ => None,
        },
{
    match op {
        AsyncOperation::GetItem(sender, url, store, key) => match reg.resolve(&url, &store) {
            Some(h) => {
                let v = found(reader_get(rd, &h, key.as_slice()));
                (sender, IndexedDBThreadReturnType::KVResult(v))
            },
            None => (sender, IndexedDBThreadReturnType::KVResult(None)),
        },
        AsyncOperation::PutItem(sender, _, _, _, _, _) => (sender, IndexedDBThreadReturnType::KVResult(None)),
        AsyncOperation::RemoveItem(sender, _, _, _) => (sender, IndexedDBThreadReturnType::KVResult(None)),
    }
}

/// Runs one request of a writing batch on the writer. On a created store it
/// does what `step_allowed` admits to that store, and leaves the others
/// alone; the flag returned says the store did what `apply` says, refusing
/// nothing. A request on a store never created changes nothing and gets an
/// empty reply.
pub fn execute_write<R>(w: &mut KvWriter, reg: &StoreRegistry, op: AsyncOperation<R>) -> (r: (R, IndexedDBThreadReturnType, bool))
    ensures
        r.0 == op.spec_sender(),
        r.1 is KVResult,
        match resolve(reg@, op.spec_url(), op.spec_store()) {
            Some(h) => {
                &&& step_allowed(writer_holds(*old(w), h), op.spec_request(), writer_holds(*final(w), h), kv_bytes(r.1))
                &&& r.2 ==> (writer_holds(*final(w), h), kv_bytes(r.1)) == apply(writer_holds(*old(w), h), op.spec_request())
                &&& forall|o: StoreHandle| o != h ==> writer_holds(*final(w), o) == writer_holds(*old(w), o)
            },
            None => {
                &&& kv_bytes(r.1) is None
                &&& forall|o: StoreHandle| writer_holds(*final(w), o) == writer_holds(*old(w), o)
            },
        },
        !r.2 ==> op.spec_request() is Put,
{
    match op {
        AsyncOperation::GetItem(sender, url, store, key) => match reg.resolve(&url, &store) {
            Some(h) => {
                let v = found(writer_get(w, &h, key.as_slice()));
                (sender, IndexedDBThreadReturnType::KVResult(v), true)
            },
            None => (sender, IndexedDBThreadReturnType::KVResult(None), true),
        },
        AsyncOperation::PutItem(sender, url, store, key, value, overwrite) => {
            let key = key.into_bytes();
            match reg.resolve(&url, &store) {
                Some(h) => {
                    if overwrite {
                        let written = writer_put(w, &h, key.as_slice(), value.as_slice());
                        let applied = written.is_ok();
                        (sender, write_reply(key, written), applied)
                    } else {
                        match writer_get(w, &h, key.as_slice()) {
                            Ok(None) => {
                                let written = writer_put(w, &h, key.as_slice(), value.as_slice());
                                let applied = written.is_ok();
                                (sender, write_reply(key, written), applied)
                            },
                            Ok(Some(_)) => (sender, IndexedDBThreadReturnType::KVResult(None), true),
                            Err(_) => (sender, IndexedDBThreadReturnType::KVResult(None), false),
                        }
                    }
                },
                None => (sender, IndexedDBThreadReturnType::KVResult(None), true),
            }
        },
        AsyncOperation::RemoveItem(sender, url, store, key) => match reg.resolve(&url, &store) {
            Some(h) => {
                let _ = writer_delete(w, &h, key.as_slice());
                (sender, IndexedDBThreadReturnType::KVResult(Some(key)), true)
            },
            None => (sender, IndexedDBThreadReturnType::KVResult(None), true),
        },
    }
}

/// The requests of one transaction, in the order they were queued.
pub struct KvsTransaction<R> {
    pub mode: IndexedDBTxnMode,
    pub requests: VecDeque<AsyncOperation<R>>,
}

/// What running a batch produced: one reply per request, in request order,
/// each with the channel it goes to; whether the batch ran to its end (its
/// reader or writer began and, for a writer, committed); whether a store
/// refused a write the batch asked of it; and, as ghosts, the contents of
/// every store as the batch's reader or writer first saw them, and as it
/// left them (what a writer committed).
pub struct BatchOutcome<R> {
    pub replies: Vec<(R, IndexedDBThreadReturnType)>,
    pub completed: bool,
    pub refused: bool,
    pub seen: Ghost<spec_fn(StoreHandle) -> Contents>,
    pub left: Ghost<spec_fn(StoreHandle) -> Contents>,
}

/// Whether the `i`th reply answers the `i`th request on its channel.
pub open spec fn answers<R>(requests: Seq<AsyncOperation<R>>, replies: Seq<(R, IndexedDBThreadReturnType)>, i: int) -> bool {
    &&& replies[i].0 == requests[i].spec_sender()
    &&& replies[i].1 is KVResult
}

/// Whether a batch of `mode` may not carry `op` out: it names no created
/// store, or it would modify a store in a readonly batch.
pub open spec fn refused<R>(reg: Map<Seq<char>, StoreEntry>, mode: IndexedDBTxnMode, op: AsyncOperation<R>) -> bool {
    resolve(reg, op.spec_url(), op.spec_store()) is None || (!mode.spec_is_writing() && !(op.spec_request() is Get))
}

/// The contents of the store behind `h`, from `c`, after the requests of
/// `reqs` that a batch of `mode` carries out on it, in order.
pub open spec fn fold_store<R>(
    c: Contents,
    h: StoreHandle,
    reg: Map<Seq<char>, StoreEntry>,
    mode: IndexedDBTxnMode,
    reqs: Seq<AsyncOperation<R>>,
) -> Contents
    decreases reqs.len(),
{
    if reqs.len() == 0 {
        c
    } else {
        let prev = fold_store(c, h, reg, mode, reqs.drop_last());
        let op = reqs.last();
        if !refused(reg, mode, op) && resolve(reg, op.spec_url(), op.spec_store()) == Some(h) {
            apply(prev, op.spec_request()).0
        } else {
            prev
        }
    }
}

/// The reply bytes to the `i`th request of a batch of `mode` that began with
/// the stores as `seen` gives them and that no store refused.
pub open spec fn model_reply<R>(
    seen: spec_fn(StoreHandle) -> Contents,
    reg: Map<Seq<char>, StoreEntry>,
    mode: IndexedDBTxnMode,
    reqs: Seq<AsyncOperation<R>>,
    i: int,
) -> Option<Seq<u8>> {
    match resolve(reg, reqs[i].spec_url(), reqs[i].spec_store()) {
        Some(h) => if refused(reg, mode, reqs[i]) {
            None
        } else {
            apply(fold_store(seen(h), h, reg, mode, reqs.take(i)), reqs[i].spec_request()).1
        },
        None => None,
    }
}

proof fn readonly_fold_keeps<R>(
    c: Contents,
    h: StoreHandle,
    reg: Map<Seq<char>, StoreEntry>,
    mode: IndexedDBTxnMode,
    reqs: Seq<AsyncOperation<R>>,
)
    requires
        !mode.spec_is_writing(),
    ensures
        fold_store(c, h, reg, mode, reqs) == c,
    decreases reqs.len(),
{
    if reqs.len() > 0 {
        readonly_fold_keeps(c, h, reg, mode, reqs.drop_last());
    }
}

/// In a writing batch, the last request on a key of a store decides what
/// the batch leaves there: a put that may replace leaves its value, a
/// removal leaves the key absent.
pub proof fn last_write_decides<R>(
    c: Contents,
    h: StoreHandle,
    reg: Map<Seq<char>, StoreEntry>,
    mode: IndexedDBTxnMode,
    reqs: Seq<AsyncOperation<R>>,
    i: int,
)
    requires
        mode.spec_is_writing(),
        0 <= i < reqs.len(),
        resolve(reg, reqs[i].spec_url(), reqs[i].spec_store()) == Some(h),
        forall|j: int| i < j < reqs.len() && resolve(reg, reqs[j].spec_url(), reqs[j].spec_store()) == Some(h)
            ==> key_of(#[trigger] reqs[j].spec_request()) != key_of(reqs[i].spec_request()),
    ensures
        reqs[i].spec_request() matches Request::Put(k, v, true) ==> {
            &&& fold_store(c, h, reg, mode, reqs).contains_key(k)
            &&& fold_store(c, h, reg, mode, reqs)[k] == v
        },
        reqs[i].spec_request() matches Request::Remove(k) ==> !fold_store(c, h, reg, mode, reqs).contains_key(k),
    decreases reqs.len(),
{
    let prev = reqs.drop_last();
    if i < reqs.len() - 1 {
        assert forall|j: int| i < j < prev.len() && resolve(reg, prev[j].spec_url(), prev[j].spec_store()) == Some(h)
            implies key_of(#[trigger] prev[j].spec_request()) != key_of(prev[i].spec_request()) by {
            assert(prev[j] == reqs[j]);
        }
        last_write_decides(c, h, reg, mode, prev, i);
        let last = reqs.last();
        if !refused(reg, mode, last) && resolve(reg, last.spec_url(), last.spec_store()) == Some(h) {
            assert(reqs[reqs.len() - 1] == last);
            other_keys_untouched(fold_store(c, h, reg, mode, prev), last.spec_request(), key_of(reqs[i].spec_request()));
        }
    }
}

/// A readonly batch that begins from what a writing batch left reads, on
/// each key, what the writing batch's last request on that key decided: the
/// value of a put that may replace, or nothing after a removal.
pub proof fn later_reads_see_writes<R>(
    c: Contents,
    h: StoreHandle,
    reg: Map<Seq<char>, StoreEntry>,
    mode: IndexedDBTxnMode,
    writes: Seq<AsyncOperation<R>>,
    i: int,
    later: Seq<AsyncOperation<R>>,
    j: int,
)
    requires
        mode.spec_is_writing(),
        0 <= i < writes.len(),
        resolve(reg, writes[i].spec_url(), writes[i].spec_store()) == Some(h),
        forall|x: int| i < x < writes.len() && resolve(reg, writes[x].spec_url(), writes[x].spec_store()) == Some(h)
            ==> key_of(#[trigger] writes[x].spec_request()) != key_of(writes[i].spec_request()),
        0 <= j < later.len(),
        resolve(reg, later[j].spec_url(), later[j].spec_store()) == Some(h),
        later[j].spec_request() == Request::Get(key_of(writes[i].spec_request())),
    ensures
        ({
            let seen = |o: StoreHandle| fold_store(c, o, reg, mode, writes);
            &&& writes[i].spec_request() matches Request::Put(_, v, true)
                ==> model_reply(seen, reg, IndexedDBTxnMode::Readonly, later, j) == Some(v)
            &&& writes[i].spec_request() is Remove
                ==> model_reply(seen, reg, IndexedDBTxnMode::Readonly, later, j) is None
        }),
{
    let seen = |o: StoreHandle| fold_store(c, o, reg, mode, writes);
    last_write_decides(c, h, reg, mode, writes, i);
    readonly_fold_keeps(seen(h), h, reg, IndexedDBTxnMode::Readonly, later.take(j));
}

/// Keys collide by their bytes alone: in a writing batch that puts `v1`
/// under `k1`, then `v2` under `k2`, both replacing, then reads `k1`, all on
/// one store, the read finds `v2` iff the two keys have the same bytes,
/// whatever type each key was tagged with.
pub proof fn batch_keys_collide_by_bytes<R>(
    seen: spec_fn(StoreHandle) -> Contents,
    reg: Map<Seq<char>, StoreEntry>,
    mode: IndexedDBTxnMode,
    reqs: Seq<AsyncOperation<R>>,
    h: StoreHandle,
    k1: Seq<u8>,
    v1: Seq<u8>,
    k2: Seq<u8>,
    v2: Seq<u8>,
)
    requires
        mode.spec_is_writing(),
        reqs.len() == 3,
        forall|i: int| 0 <= i < 3 ==> resolve(reg, #[trigger] reqs[i].spec_url(), reqs[i].spec_store()) == Some(h),
        reqs[0].spec_request() == Request::Put(k1, v1, true),
        reqs[1].spec_request() == Request::Put(k2, v2, true),
        reqs[2].spec_request() == Request::Get(k1),
    ensures
        model_reply(seen, reg, mode, reqs, 2) == (if k1 == k2 { Some(v2) } else { Some(v1) }),
{
    assert(resolve(reg, reqs[0].spec_url(), reqs[0].spec_store()) == Some(h));
    assert(resolve(reg, reqs[1].spec_url(), reqs[1].spec_store()) == Some(h));
    assert(resolve(reg, reqs[2].spec_url(), reqs[2].spec_store()) == Some(h));
    let t0 = reqs.take(0);
    let t1 = reqs.take(1);
    let t2 = reqs.take(2);
    assert(t1.drop_last() =~= t0);
    assert(t2.drop_last() =~= t1);
    assert(t1.last() == reqs[0]);
    assert(t2.last() == reqs[1]);
    assert(t0.len() == 0);
    assert(fold_store(seen(h), h, reg, mode, t0) == seen(h));
    assert(!refused(reg, mode, reqs[0]));
    assert(!refused(reg, mode, reqs[1]));
    let c1 = apply(seen(h), Request::Put(k1, v1, true)).0;
    assert(fold_store(seen(h), h, reg, mode, t1) == c1);
    let c2 = apply(c1, Request::Put(k2, v2, true)).0;
    assert(fold_store(seen(h), h, reg, mode, t2) == c2);
}

/// A writing batch that repeats a put that replaces, or a removal, leaves
/// the store as a batch of one such request does, and both of its replies
/// are that batch's reply.
pub proof fn repeated_write_is_one_write<R>(
    seen: spec_fn(StoreHandle) -> Contents,
    reg: Map<Seq<char>, StoreEntry>,
    mode: IndexedDBTxnMode,
    once: Seq<AsyncOperation<R>>,
    twice: Seq<AsyncOperation<R>>,
    h: StoreHandle,
)
    requires
        mode.spec_is_writing(),
        once.len() == 1,
        twice.len() == 2,
        resolve(reg, once[0].spec_url(), once[0].spec_store()) == Some(h),
        twice[0] == once[0],
        twice[1] == once[0],
        once[0].spec_request() matches Request::Put(_, _, true) || once[0].spec_request() is Remove,
    ensures
        fold_store(seen(h), h, reg, mode, twice) == fold_store(seen(h), h, reg, mode, once),
        model_reply(seen, reg, mode, twice, 0) == model_reply(seen, reg, mode, once, 0),
        model_reply(seen, reg, mode, twice, 1) == model_reply(seen, reg, mode, once, 0),
{
    let req = once[0].spec_request();
    assert(!refused(reg, mode, once[0]));
    assert(once.take(0).len() == 0 && twice.take(0).len() == 0);
    assert(once.take(1) =~= once);
    assert(once.drop_last() =~= once.take(0));
    assert(twice.take(1) =~= once);
    assert(twice.drop_last() =~= once);
    assert(fold_store(seen(h), h, reg, mode, once.take(0)) == seen(h));
    assert(fold_store(seen(h), h, reg, mode, twice.take(0)) == seen(h));
    assert(fold_store(seen(h), h, reg, mode, once.drop_last()) == seen(h));
    let c1 = apply(seen(h), req).0;
    assert(fold_store(seen(h), h, reg, mode, once) == c1);
    match req {
        Request::Put(k, v, o) => {
            put_twice_is_put_once(seen(h), k, v);
        },
        Request::Remove(k) => {
            remove_twice_is_remove_once(seen(h), k);
        },
        Request::Get(_) => {},
    }
}

/// Empty replies to every request, in order.
fn refuse_all<R>(requests: VecDeque<AsyncOperation<R>>) -> (r: Vec<(R, IndexedDBThreadReturnType)>)
    ensures
        r@.len() == requests@.len(),
        forall|i: int| 0 <= i < r@.len() ==> #[trigger] answers(requests@, r@, i),
        forall|i: int| 0 <= i < r@.len() ==> kv_bytes(#[trigger] r@[i].1) is None,
{
    let mut requests = requests;
    let ghost all = requests@;
    let mut replies: Vec<(R, IndexedDBThreadReturnType)> = Vec::new();
    while requests.len() > 0
        invariant
            replies@.len() + requests@.len() == all.len(),
            requests@ == all.subrange(replies@.len() as int, all.len() as int),
            forall|i: int| 0 <= i < replies@.len() ==> #[trigger] answers(all, replies@, i),
            forall|i: int| 0 <= i < replies@.len() ==> kv_bytes(#[trigger] replies@[i].1) is None,
        decreases requests@.len(),
    {
        let ghost prev = replies@;
        let op = requests.pop_front().unwrap();
        assert(op == all[prev.len() as int]);
        let sender = match op {
            AsyncOperation::GetItem(r, _, _, _) => r,
            AsyncOperation::PutItem(r, _, _, _, _, _) => r,
            AsyncOperation::RemoveItem(r, _, _, _) => r,
        };
        replies.push((sender, IndexedDBThreadReturnType::KVResult(None)));
        assert forall|i: int| 0 <= i < replies@.len() implies #[trigger] answers(all, replies@, i) by {
            if i < prev.len() {
                assert(answers(all, prev, i));
            }
        }
    }
    replies
}

/// Runs the requests of a readonly batch, in order, on one reader's
/// snapshot: each reply is the one the requests' meaning gives from that
/// snapshot.
pub fn run_read_batch<R>(rd: &KvReader, reg: &StoreRegistry, requests: VecDeque<AsyncOperation<R>>) -> (r: Vec<(R, IndexedDBThreadReturnType)>)
    ensures
        r@.len() == requests@.len(),
        forall|i: int| 0 <= i < r@.len() ==> #[trigger] answers(requests@, r@, i),
        forall|i: int| 0 <= i < r@.len() ==> kv_bytes(#[trigger] r@[i].1)
            == model_reply(|h: StoreHandle| reader_holds(*rd, h), reg@, IndexedDBTxnMode::Readonly, requests@, i),
{
    let mode = IndexedDBTxnMode::Readonly;
    let mut requests = requests;
    let ghost all = requests@;
    let ghost seen = |h: StoreHandle| reader_holds(*rd, h);
    let mut replies: Vec<(R, IndexedDBThreadReturnType)> = Vec::new();
    while requests.len() > 0
        invariant
            mode == IndexedDBTxnMode::Readonly,
            seen == (|h: StoreHandle| reader_holds(*rd, h)),
            replies@.len() + requests@.len() == all.len(),
            requests@ == all.subrange(replies@.len() as int, all.len() as int),
            forall|i: int| 0 <= i < replies@.len() ==> #[trigger] answers(all, replies@, i),
            forall|i: int| 0 <= i < replies@.len()
                ==> kv_bytes(#[trigger] replies@[i].1) == model_reply(seen, reg@, mode, all, i),
        decreases requests@.len(),
    {
        let ghost prev = replies@;
        let ghost k = prev.len() as int;
        let op = requests.pop_front().unwrap();
        assert(op == all[k]);
        let reply = execute_read(rd, reg, op);
        replies.push(reply);
        proof {
            match resolve(reg@, all[k].spec_url(), all[k].spec_store()) {
                Some(h) => readonly_fold_keeps(seen(h), h, reg@, mode, all.take(k)),
                None => {},
            }
        }
        assert forall|i: int| 0 <= i < replies@.len() implies #[trigger] answers(all, replies@, i) by {
            if i < prev.len() {
                assert(answers(all, prev, i));
            }
        }
    }
    replies
}

/// Runs the requests of a writing batch, in order, on the writer. Unless
/// the flag returned is set, which only a put can cause, each store ends as
/// the requests' meaning folds it and each reply is the one that meaning
/// gives, from the stores as the writer held them before.
pub fn run_write_batch<R>(
    w: &mut KvWriter,
    reg: &StoreRegistry,
    mode: IndexedDBTxnMode,
    requests: VecDeque<AsyncOperation<R>>,
) -> (r: (Vec<(R, IndexedDBThreadReturnType)>, bool))
    requires
        mode.spec_is_writing(),
    ensures
        r.0@.len() == requests@.len(),
        forall|i: int| 0 <= i < r.0@.len() ==> #[trigger] answers(requests@, r.0@, i),
        forall|i: int| 0 <= i < r.0@.len() && refused(reg@, mode, requests@[i])
            ==> kv_bytes(#[trigger] r.0@[i].1) is None,
        !r.1 ==> forall|h: StoreHandle| #[trigger] writer_holds(*final(w), h)
            == fold_store(writer_holds(*old(w), h), h, reg@, mode, requests@),
        !r.1 ==> forall|i: int| 0 <= i < r.0@.len() ==> kv_bytes(#[trigger] r.0@[i].1)
            == model_reply(|h: StoreHandle| writer_holds(*old(w), h), reg@, mode, requests@, i),
        r.1 ==> exists|i: int| 0 <= i < requests@.len() && #[trigger] requests@[i].spec_request() is Put,
{
    let mut requests = requests;
    let ghost all = requests@;
    let ghost w0 = *w;
    let ghost seen = |h: StoreHandle| writer_holds(w0, h);
    let mut replies: Vec<(R, IndexedDBThreadReturnType)> = Vec::new();
    let mut refused_any = false;
    while requests.len() > 0
        invariant
            mode.spec_is_writing(),
            w0 == *old(w),
            seen == (|h: StoreHandle| writer_holds(w0, h)),
            replies@.len() + requests@.len() == all.len(),
            requests@ == all.subrange(replies@.len() as int, all.len() as int),
            forall|i: int| 0 <= i < replies@.len() ==> #[trigger] answers(all, replies@, i),
            forall|i: int| 0 <= i < replies@.len() && refused(reg@, mode, all[i])
                ==> kv_bytes(#[trigger] replies@[i].1) is None,
            !refused_any ==> forall|h: StoreHandle|
                #[trigger] writer_holds(*w, h) == fold_store(seen(h), h, reg@, mode, all.take(replies@.len() as int)),
            !refused_any ==> forall|i: int| 0 <= i < replies@.len()
                ==> kv_bytes(#[trigger] replies@[i].1) == model_reply(seen, reg@, mode, all, i),
            refused_any ==> exists|i: int| 0 <= i < all.len() && #[trigger] all[i].spec_request() is Put,
        decreases requests@.len(),
    {
        let ghost prev = replies@;
        let ghost k = prev.len() as int;
        let ghost before = *w;
        let op = requests.pop_front().unwrap();
        assert(op == all[k]);
        let (sender, reply, applied) = execute_write(w, reg, op);
        replies.push((sender, reply));
        if !applied {
            assert(all[k].spec_request() is Put);
            refused_any = true;
        }
        proof {
            assert(all.take(k + 1).drop_last() =~= all.take(k));
            assert(all.take(k + 1).last() == all[k]);
            if !refused_any {
                assert forall|h: StoreHandle| #[trigger] writer_holds(*w, h)
                    == fold_store(seen(h), h, reg@, mode, all.take(k + 1)) by {
                    assert(writer_holds(before, h) == fold_store(seen(h), h, reg@, mode, all.take(k)));
                }
                assert forall|i: int| 0 <= i < replies@.len() implies
                    kv_bytes(#[trigger] replies@[i].1) == model_reply(seen, reg@, mode, all, i) by {
                    if i < k {
                        assert(replies@[i] == prev[i]);
                    } else {
                        match resolve(reg@, all[k].spec_url(), all[k].spec_store()) {
                            Some(h) => assert(writer_holds(before, h) == fold_store(seen(h), h, reg@, mode, all.take(k))),
                            None => {},
                        }
                    }
                }
            }
        }
        assert forall|i: int| 0 <= i < replies@.len() implies #[trigger] answers(all, replies@, i) by {
            if i < prev.len() {
                assert(answers(all, prev, i));
            }
        }
    }
    proof {
        assert(all.take(all.len() as int) =~= all);
    }
    (replies, refused_any)
}

/// Runs a whole batch on `env`: a readonly batch on one reader's snapshot
/// (`run_read_batch`), any other under the environment's writer
/// (`run_write_batch`), which commits after the last request. Each request
/// is answered, in order, on its own channel; where no store refused a
/// write, each reply is the one the requests' meaning gives, from the stores
/// as the batch first saw them, and the stores are left as that meaning
/// folds them. Where the reader or writer cannot begin, every request gets
/// an empty reply; where the writer cannot commit, the batch is not
/// completed. Writers on one environment do not wait for each other: the
/// caller runs writing batches one at a time.
pub fn process_transaction<R>(env: &KvEnv, reg: &StoreRegistry, transaction: KvsTransaction<R>) -> (out: BatchOutcome<R>)
    ensures
        out.replies@.len() == transaction.requests@.len(),
        forall|i: int| 0 <= i < out.replies@.len() ==> #[trigger] answers(transaction.requests@, out.replies@, i),
        forall|i: int| 0 <= i < out.replies@.len() && refused(reg@, transaction.mode, transaction.requests@[i])
            ==> kv_bytes(#[trigger] out.replies@[i].1) is None,
        out.refused ==> transaction.mode.spec_is_writing(),
        out.refused ==> exists|i: int| 0 <= i < transaction.requests@.len()
            && #[trigger] transaction.requests@[i].spec_request() is Put,
        !out.completed ==> !out.refused,
        out.completed && !out.refused ==> forall|i: int| 0 <= i < out.replies@.len()
            ==> kv_bytes(#[trigger] out.replies@[i].1) == model_reply(out.seen@, reg@, transaction.mode, transaction.requests@, i),
        out.completed && !out.refused ==> forall|h: StoreHandle|
            #[trigger] (out.left@)(h) == fold_store((out.seen@)(h), h, reg@, transaction.mode, transaction.requests@),
        !out.completed && !transaction.mode.spec_is_writing()
            ==> forall|i: int| 0 <= i < out.replies@.len() ==> kv_bytes(#[trigger] out.replies@[i].1) is None,
{
    let mode = transaction.mode;
    let requests = transaction.requests;
    if !mode.is_writing() {
        let reader = match begin_read(env) {
            Ok(rd) => rd,
            Err(_) => return BatchOutcome {
                replies: refuse_all(requests),
                completed: false,
                refused: false,
                seen: Ghost(|h: StoreHandle| Map::empty()),
                left: Ghost(|h: StoreHandle| Map::empty()),
            },
        };
        let ghost all = requests@;
        let ghost seen = |h: StoreHandle| reader_holds(reader, h);
        let replies = run_read_batch(&reader, reg, requests);
        proof {
            assert(mode == IndexedDBTxnMode::Readonly);
            assert forall|h: StoreHandle| #[trigger] seen(h) == fold_store(seen(h), h, reg@, mode, all) by {
                readonly_fold_keeps(seen(h), h, reg@, mode, all);
            }
            assert forall|i: int| 0 <= i < replies@.len() && refused(reg@, mode, all[i])
                implies kv_bytes(#[trigger] replies@[i].1) is None by {
                assert(model_reply(seen, reg@, mode, all, i) is None);
            }
        }
        BatchOutcome { replies, completed: true, refused: false, seen: Ghost(seen), left: Ghost(seen) }
    } else {
        let mut writer = match begin_write(env) {
            Ok(w) => w,
            Err(_) => return BatchOutcome {
                replies: refuse_all(requests),
                completed: false,
                refused: false,
                seen: Ghost(|h: StoreHandle| Map::empty()),
                left: Ghost(|h: StoreHandle| Map::empty()),
            },
        };
        let ghost w0 = writer;
        let ghost seen = |h: StoreHandle| writer_holds(w0, h);
        let (replies, refused_any) = run_write_batch(&mut writer, reg, mode, requests);
        let ghost w_end = writer;
        let ghost left = |h: StoreHandle| writer_holds(w_end, h);
        let completed = commit(writer).is_ok();
        BatchOutcome { replies, completed, refused: completed && refused_any, seen: Ghost(seen), left: Ghost(left) }
    }
}

} // verus!
