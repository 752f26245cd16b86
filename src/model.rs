//! The meaning of a request on one store, as a function on the store's
//! contents, and the laws that follow from it.
use vstd::prelude::*;
use crate::kv::lookup;

verus! {

/// A store's contents: key bytes to value bytes.
pub type Contents = Map<Seq<u8>, Seq<u8>>;

/// A request on one store, as a spec value.
pub enum Request {
    Get(Seq<u8>),
    /// Key, value, and whether an existing value may be replaced.
    Put(Seq<u8>, Seq<u8>, bool),
    Remove(Seq<u8>),
}

/// The contents after a request that the store carried out, and the bytes
/// of its reply: the value read, the key written or removed, or nothing
/// (an absent key read; a key kept because it already held a value).
pub open spec fn apply(c: Contents, req: Request) -> (Contents, Option<Seq<u8>>) {
    match req {
        Request::Get(k) => (c, lookup(c, k)),
        Request::Put(k, v, overwrite) => if overwrite || !c.contains_key(k) {
            (c.insert(k, v), Some(k))
        } else {
            (c, None)
        },
        Request::Remove(k) => (c.remove(k), Some(k)),
    }
}

/// What a request may do to its store: what `apply` says, or, for a write
/// that the store refused, nothing, with an empty reply.
pub open spec fn step_allowed(c: Contents, req: Request, c2: Contents, reply: Option<Seq<u8>>) -> bool {
    (c2, reply) == apply(c, req) || (req is Put && c2 == c && reply is None)
}

/// The key a request names.
pub open spec fn key_of(req: Request) -> Seq<u8> {
    match req {
        Request::Get(k) => k,
        Request::Put(k, _, _) => k,
        Request::Remove(k) => k,
    }
}

/// An add (a put that may not replace) stores its value and answers with
/// the key iff the key was absent; otherwise it keeps the value already
/// there and answers with nothing. Whatever the store does, the key ends
/// with one value.
pub proof fn add_iff_absent(c: Contents, k: Seq<u8>, v: Seq<u8>, c2: Contents, reply: Option<Seq<u8>>)
    requires
        step_allowed(c, Request::Put(k, v, false), c2, reply),
    ensures
        apply(c, Request::Put(k, v, false)).1 == Some(k) <==> !c.contains_key(k),
        reply == Some(k) ==> !c.contains_key(k) && c2 == c.insert(k, v),
        c.contains_key(k) ==> reply is None && c2 == c,
        c2.contains_key(k) ==> c2[k] == (if c.contains_key(k) { c[k] } else { v }),
{
}

/// A value put under a key, replacing what was there, is what a later read
/// of the key finds.
pub proof fn put_then_get(c: Contents, k: Seq<u8>, v: Seq<u8>)
    ensures
        apply(apply(c, Request::Put(k, v, true)).0, Request::Get(k)).1 == Some(v),
{
}

/// Putting the same key and value twice does what putting them once does.
pub proof fn put_twice_is_put_once(c: Contents, k: Seq<u8>, v: Seq<u8>)
    ensures
        apply(apply(c, Request::Put(k, v, true)).0, Request::Put(k, v, true)) == apply(c, Request::Put(k, v, true)),
{
    let c1 = apply(c, Request::Put(k, v, true)).0;
    assert(c1.insert(k, v) =~= c1);
}

/// After a removal, a read of the key finds nothing, whether or not the key
/// was there before.
pub proof fn remove_then_get(c: Contents, k: Seq<u8>)
    ensures
        apply(apply(c, Request::Remove(k)).0, Request::Get(k)).1 is None,
{
}

/// Removing a key twice does what removing it once does.
pub proof fn remove_twice_is_remove_once(c: Contents, k: Seq<u8>)
    ensures
        apply(apply(c, Request::Remove(k)).0, Request::Remove(k)) == apply(c, Request::Remove(k)),
{
    let c1 = apply(c, Request::Remove(k)).0;
    assert(c1.remove(k) =~= c1);
}

/// Keys are told apart by their bytes alone: a request on one key leaves
/// the entry of any key with other bytes as it was.
pub proof fn other_keys_untouched(c: Contents, req: Request, k: Seq<u8>)
    requires
        key_of(req) != k,
    ensures
        apply(c, req).0.contains_key(k) == c.contains_key(k),
        c.contains_key(k) ==> apply(c, req).0[k] == c[k],
{
}

/// Two requests on different keys of one store give the same contents and
/// the same replies in either order.
pub proof fn distinct_keys_commute(c: Contents, a: Request, b: Request)
    requires
        key_of(a) != key_of(b),
    ensures
        apply(apply(c, a).0, b).0 == apply(apply(c, b).0, a).0,
        apply(apply(c, a).0, b).1 == apply(c, b).1,
        apply(apply(c, b).0, a).1 == apply(c, a).1,
{
    let ab = apply(apply(c, a).0, b).0;
    let ba = apply(apply(c, b).0, a).0;
    assert(ab =~= ba);
}

/// The contents of every store, by descriptor string.
pub type World = Map<Seq<char>, Contents>;

/// The contents of store `s`; a store never written is empty.
pub open spec fn contents_of(w: World, s: Seq<char>) -> Contents {
    if w.contains_key(s) {
        w[s]
    } else {
        Map::empty()
    }
}

/// The world after a request on store `s`.
pub open spec fn apply_at(w: World, s: Seq<char>, req: Request) -> World {
    w.insert(s, apply(contents_of(w, s), req).0)
}

/// The world after a sequence of requests, each on its store, in order.
pub open spec fn run(w: World, ops: Seq<(Seq<char>, Request)>) -> World
    decreases ops.len(),
{
    if ops.len() == 0 {
        w
    } else {
        run(apply_at(w, ops[0].0, ops[0].1), ops.drop_first())
    }
}

/// The replies to a sequence of requests, in order.
pub open spec fn replies(w: World, ops: Seq<(Seq<char>, Request)>) -> Seq<Option<Seq<u8>>>
    decreases ops.len(),
{
    if ops.len() == 0 {
        Seq::empty()
    } else {
        seq![apply(contents_of(w, ops[0].0), ops[0].1).1] + replies(apply_at(w, ops[0].0, ops[0].1), ops.drop_first())
    }
}

/// Whether no request of `a` is on a store that a request of `b` is on.
pub open spec fn disjoint_stores(a: Seq<(Seq<char>, Request)>, b: Seq<(Seq<char>, Request)>) -> bool {
    forall|i: int, j: int| 0 <= i < a.len() && 0 <= j < b.len() ==> a[i].0 != b[j].0
}

proof fn apply_at_commutes(w: World, s: Seq<char>, a: Request, t: Seq<char>, b: Request)
    requires
        s != t,
    ensures
        apply_at(apply_at(w, s, a), t, b) == apply_at(apply_at(w, t, b), s, a),
        contents_of(apply_at(w, t, b), s) == contents_of(w, s),
{
    assert(apply_at(apply_at(w, s, a), t, b) =~= apply_at(apply_at(w, t, b), s, a));
}

proof fn run_passes_other_store(w: World, ops: Seq<(Seq<char>, Request)>, s: Seq<char>, req: Request)
    requires
        forall|j: int| 0 <= j < ops.len() ==> ops[j].0 != s,
    ensures
        run(apply_at(w, s, req), ops) == apply_at(run(w, ops), s, req),
        replies(apply_at(w, s, req), ops) == replies(w, ops),
        contents_of(run(w, ops), s) == contents_of(w, s),
    decreases ops.len(),
{
    if ops.len() > 0 {
        let rest = ops.drop_first();
        apply_at_commutes(w, s, req, ops[0].0, ops[0].1);
        assert(contents_of(apply_at(w, s, req), ops[0].0) == contents_of(w, ops[0].0));
        run_passes_other_store(apply_at(w, ops[0].0, ops[0].1), rest, s, req);
    }
}

/// Two transactions on disjoint sets of stores leave the same world, and
/// get the same replies, whichever runs first.
pub proof fn disjoint_transactions_commute(w: World, t1: Seq<(Seq<char>, Request)>, t2: Seq<(Seq<char>, Request)>)
    requires
        disjoint_stores(t1, t2),
    ensures
        run(run(w, t1), t2) == run(run(w, t2), t1),
        replies(run(w, t2), t1) == replies(w, t1),
        replies(run(w, t1), t2) == replies(w, t2),
    decreases t1.len(),
{
    if t1.len() > 0 {
        let (s, a) = t1[0];
        let rest = t1.drop_first();
        assert(disjoint_stores(rest, t2)) by {
            assert forall|i: int, j: int| 0 <= i < rest.len() && 0 <= j < t2.len() implies rest[i].0 != t2[j].0 by {
                assert(rest[i] == t1[i + 1]);
            }
        }
        assert forall|j: int| 0 <= j < t2.len() implies t2[j].0 != s by {
            assert(t1[0].0 != t2[j].0);
        }
        disjoint_transactions_commute(apply_at(w, s, a), rest, t2);
        run_passes_other_store(w, t2, s, a);
        assert(contents_of(run(w, t2), s) == contents_of(w, s));
        replies_after_other_stores(w, t2, rest);
    }
}

proof fn replies_after_other_stores(w: World, t2: Seq<(Seq<char>, Request)>, t1: Seq<(Seq<char>, Request)>)
    requires
        disjoint_stores(t1, t2),
    ensures
        replies(run(w, t2), t1) == replies(w, t1),
    decreases t2.len(),
{
    if t2.len() > 0 {
        let (s, b) = t2[0];
        let rest = t2.drop_first();
        assert forall|j: int| 0 <= j < t1.len() implies t1[j].0 != s by {
            assert(t1[j].0 != t2[0].0);
        }
        assert(disjoint_stores(t1, rest)) by {
            assert forall|i: int, j: int| 0 <= i < t1.len() && 0 <= j < rest.len() implies t1[i].0 != rest[j].0 by {
                assert(rest[j] == t2[j + 1]);
            }
        }
        replies_after_other_stores(apply_at(w, s, b), rest, t1);
        run_passes_other_store(w, t1, s, b);
    }
}

} // verus!
