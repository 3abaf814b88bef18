//! A cache of services, partitioned into a pending set and a ready set.
//!
//! Each service added with [`ReadyCache::push`] enters the _pending_ set.
//! When a pending service becomes ready it is promoted to the _ready_ set
//! ([`ReadyCache::promote_pending`]); if it fails instead it is dropped
//! ([`ReadyCache::fail_pending`]). Readiness can become stale, so a ready
//! service is checked again ([`ReadyCache::check_ready_index`]) right before
//! it is used; once it is called ([`ReadyCache::call_ready_index`]) it goes
//! back to the pending set.
//!
//! The ready set is ordered: removals move the last ready service into the
//! removed one's position, so cached indexes must be discarded after any
//! call that removes a ready service.

use crate::index_set::{
    index_set_get_index,
    index_set_get_index_of,
    index_set_insert_full,
    index_set_keys,
    index_set_len,
    index_set_new,
    index_set_swap_remove_index,
    seq_swap_remove,
};
use crate::readiness::{answered, reported, Call, Readiness};
use indexmap::IndexSet;
use std::hash::RandomState;
use vstd::prelude::*;

verus! {

/// An error indicating that the service with key `.0` failed with error `.1`.
#[derive(Debug)]
pub struct Failed<E>(pub u64, pub E);

/// The keys of a sequence of keyed entries.
pub open spec fn keys_of<S>(entries: Seq<(u64, S)>) -> Seq<u64> {
    entries.map_values(|e: (u64, S)| e.0)
}

/// The pending set after pushing `svc` under `key`: a pending service with
/// the same key is replaced in place; otherwise the entry is appended.
pub open spec fn pending_push<S>(p: Seq<(u64, S)>, key: u64, svc: S) -> Seq<(u64, S)> {
    if keys_of(p).contains(key) {
        p.update(keys_of(p).index_of(key), (key, svc))
    } else {
        p.push((key, svc))
    }
}

/// The ready keys after inserting `key`: a key already present keeps its
/// position; a new key is appended.
pub open spec fn ready_keys_insert(keys: Seq<u64>, key: u64) -> Seq<u64> {
    if keys.contains(key) {
        keys
    } else {
        keys.push(key)
    }
}

/// The ready services after inserting `svc` under `key`: the service of a
/// key already present is replaced in place; a new service is appended.
pub open spec fn ready_services_insert<S>(keys: Seq<u64>, services: Seq<S>, key: u64, svc: S) -> Seq<
    S,
> {
    if keys.contains(key) {
        services.update(keys.index_of(key), svc)
    } else {
        services.push(svc)
    }
}

/// The pending set after a ready service goes back to it: it is pushed
/// unless a newer service with its key is already pending, in which case it
/// is dropped.
pub open spec fn pending_return<S>(p: Seq<(u64, S)>, key: u64, svc: S) -> Seq<(u64, S)> {
    if keys_of(p).contains(key) {
        p
    } else {
        p.push((key, svc))
    }
}

/// The cancellation marks after pushing a service under `key` onto the
/// pending set `p` marked by `c`: a replaced entry is no longer cancelled,
/// and an appended one is not.
pub open spec fn cancelled_push<S>(p: Seq<(u64, S)>, c: Seq<bool>, key: u64) -> Seq<bool> {
    if keys_of(p).contains(key) {
        c.update(keys_of(p).index_of(key), false)
    } else {
        c.push(false)
    }
}

/// The cancellation marks after a ready service under `key` goes back to
/// the pending set `p` marked by `c` (see [`pending_return`]).
pub open spec fn cancelled_return<S>(p: Seq<(u64, S)>, c: Seq<bool>, key: u64) -> Seq<bool> {
    if keys_of(p).contains(key) {
        c
    } else {
        c.push(false)
    }
}

/// Whether the pending entries `p`, marked by `c`, hold `(key, svc)` marked
/// `mark`.
pub open spec fn entry_held<S>(p: Seq<(u64, S)>, c: Seq<bool>, key: u64, svc: S, mark: bool) -> bool {
    exists|m: int| 0 <= m < p.len() && #[trigger] p[m] == (key, svc) && c[m] == mark
}

/// Whether the ready services `ready`, under `keys`, hold `svc` under `key`.
pub open spec fn ready_held<S>(keys: Seq<u64>, ready: Seq<S>, key: u64, svc: S) -> bool {
    exists|j: int| 0 <= j < ready.len() && j < keys.len() && #[trigger] keys[j] == key && ready[j] == svc
}

/// What a poll of the pending services with `poll` made of the pending
/// entry `svc` under `key`, cancelled if `cancelled`, as `after` shows it: a
/// cancelled entry is dropped without being polled; any other is polled
/// once, and what `poll` gives back is ready under `key`, and no longer
/// pending, if it was reported ready, or pending under `key` if it was
/// reported not ready.
pub open spec fn pending_outcome<S, E, P: FnMut(u64, S) -> (S, Readiness<E>)>(
    poll: P,
    key: u64,
    svc: S,
    cancelled: bool,
    after: ReadyCache<S>,
) -> bool {
    ||| cancelled && !after.spec_pending_keys().contains(key)
    ||| !cancelled && !after.spec_pending_keys().contains(key) && exists|s: S|
        #[trigger] answered(poll, key, svc, s, Readiness::<E>::Ready) && after.spec_holds_ready(key, s)
    ||| !cancelled && exists|s: S|
        #[trigger] answered(poll, key, svc, s, Readiness::<E>::Pending) && after.spec_holds_pending(
            key,
            s,
            false,
        )
}

/// Drives readiness over a set of services keyed by `u64`.
pub struct ReadyCache<S> {
    /// Services not yet ready, with distinct keys.
    pending: Vec<(u64, S)>,
    /// Whether each pending service has been evicted; a cancelled service
    /// stays in the pending set until the next [`ReadyCache::poll_pending`]
    /// drops it.
    cancelled: Vec<bool>,
    /// Keys of the ready services, in order of position.
    ready_keys: IndexSet<u64, RandomState>,
    /// Ready services, in the same order as `ready_keys`.
    ready: Vec<S>,
}

pub(crate) proof fn lemma_index_of_unique(s: Seq<u64>, i: int)
    requires
        s.no_duplicates(),
        0 <= i < s.len(),
    ensures
        s.contains(s[i]),
        s.index_of(s[i]) == i,
{
    assert(s.contains(s[i]));
    let j = s.index_of(s[i]);
    assert(0 <= j < s.len() && s[j] == s[i]);
}

proof fn lemma_swap_remove_no_dup(s: Seq<u64>, i: int)
    requires
        s.no_duplicates(),
        0 <= i < s.len(),
    ensures
        seq_swap_remove(s, i).no_duplicates(),
        !seq_swap_remove(s, i).contains(s[i]),
        forall|k: u64| k != s[i] ==> (seq_swap_remove(s, i).contains(k) <==> s.contains(k)),
{
    let r = seq_swap_remove(s, i);
    assert forall|a: int, b: int| 0 <= a < r.len() && 0 <= b < r.len() && a != b implies r[a]
        != r[b] by {
        let sa = if a == i { s.len() - 1 } else { a };
        let sb = if b == i { s.len() - 1 } else { b };
        assert(r[a] == s[sa]);
        assert(r[b] == s[sb]);
    }
    assert forall|k: u64| k != s[i] implies (r.contains(k) <==> s.contains(k)) by {
        if s.contains(k) {
            let j = s.index_of(k);
            if j == s.len() - 1 {
                if i == s.len() - 1 {
                } else {
                    assert(r[i] == k);
                }
            } else {
                assert(r[j] == k);
            }
        }
        if r.contains(k) {
            let j = r.index_of(k);
            let sj = if j == i { s.len() - 1 } else { j };
            assert(s[sj] == k);
        }
    }
    if r.contains(s[i]) {
        let j = r.index_of(s[i]);
        let sj = if j == i { s.len() - 1 } else { j };
        assert(s[sj] == s[i]);
    }
}

proof fn lemma_keys_of_push<S>(p: Seq<(u64, S)>, key: u64, svc: S)
    ensures
        keys_of(p.push((key, svc))) == keys_of(p).push(key),
{
    assert(keys_of(p.push((key, svc))) =~= keys_of(p).push(key));
}

proof fn lemma_keys_of_update<S>(p: Seq<(u64, S)>, i: int, key: u64, svc: S)
    requires
        0 <= i < p.len(),
        p[i].0 == key,
    ensures
        keys_of(p.update(i, (key, svc))) == keys_of(p),
{
    assert(keys_of(p.update(i, (key, svc))) =~= keys_of(p));
}

proof fn lemma_keys_of_update_any<S>(p: Seq<(u64, S)>, i: int)
    requires
        0 <= i < p.len(),
    ensures
        forall|x: S| #[trigger] keys_of(p.update(i, (p[i].0, x))) == keys_of(p),
{
    assert forall|x: S| #[trigger] keys_of(p.update(i, (p[i].0, x))) == keys_of(p) by {
        lemma_keys_of_update(p, i, p[i].0, x);
    }
}

proof fn lemma_keys_of_remove<S>(p: Seq<(u64, S)>, i: int)
    requires
        0 <= i < p.len(),
        keys_of(p).no_duplicates(),
    ensures
        keys_of(p.remove(i)) == keys_of(p).remove(i),
        keys_of(p.remove(i)).no_duplicates(),
        !keys_of(p.remove(i)).contains(p[i].0),
        forall|k: u64| k != p[i].0 ==> (keys_of(p.remove(i)).contains(k) <==> keys_of(p).contains(k)),
{
    let ks = keys_of(p);
    let r = ks.remove(i);
    assert(keys_of(p.remove(i)) =~= r);
    assert forall|a: int, b: int| 0 <= a < r.len() && 0 <= b < r.len() && a != b implies r[a]
        != r[b] by {
        let sa = if a < i { a } else { a + 1 };
        let sb = if b < i { b } else { b + 1 };
        assert(r[a] == ks[sa]);
        assert(r[b] == ks[sb]);
    }
    assert(ks[i] == p[i].0);
    if r.contains(p[i].0) {
        let j = r.index_of(p[i].0);
        let sj = if j < i { j } else { j + 1 };
        assert(ks[sj] == p[i].0);
    }
    assert forall|k: u64| k != p[i].0 implies (r.contains(k) <==> ks.contains(k)) by {
        if ks.contains(k) {
            let j = ks.index_of(k);
            if j < i {
                assert(r[j] == k);
            } else {
                assert(j != i);
                assert(r[j - 1] == k);
            }
        }
        if r.contains(k) {
            let j = r.index_of(k);
            let sj = if j < i { j } else { j + 1 };
            assert(ks[sj] == k);
        }
    }
}

impl<S> ReadyCache<S> {
    /// The pending services with their keys.
    pub closed spec fn spec_pending(&self) -> Seq<(u64, S)> {
        self.pending@
    }

    /// The keys of the ready services, in order of position.
    pub closed spec fn spec_ready_keys(&self) -> Seq<u64> {
        index_set_keys(self.ready_keys)
    }

    /// The ready services, in order of position.
    pub closed spec fn spec_ready(&self) -> Seq<S> {
        self.ready@
    }

    /// Whether each pending service, in the same order, has been evicted.
    pub closed spec fn spec_cancelled(&self) -> Seq<bool> {
        self.cancelled@
    }

    /// Whether a pending service under `key` has been evicted.
    pub open spec fn spec_cancelled_key(&self, key: u64) -> bool {
        self.spec_pending_keys().contains(key) && self.spec_cancelled()[self.spec_pending_keys().index_of(
            key,
        )]
    }

    /// The keys of the pending services.
    pub open spec fn spec_pending_keys(&self) -> Seq<u64> {
        keys_of(self.spec_pending())
    }

    /// Whether the cache holds a service under `key`, ready or pending.
    pub open spec fn spec_tracks(&self, key: u64) -> bool {
        self.spec_ready_keys().contains(key) || self.spec_pending_keys().contains(key)
    }

    /// Whether the pending set holds `svc` under `key`, cancelled if
    /// `cancelled`.
    pub open spec fn spec_holds_pending(&self, key: u64, svc: S, cancelled: bool) -> bool {
        entry_held(self.spec_pending(), self.spec_cancelled(), key, svc, cancelled)
    }

    /// Whether the ready set holds `svc` under `key`.
    pub open spec fn spec_holds_ready(&self, key: u64, svc: S) -> bool {
        ready_held(self.spec_ready_keys(), self.spec_ready(), key, svc)
    }

    /// The cache's invariant: one ready service per ready key, and no key
    /// twice in either set.
    pub open spec fn wf(&self) -> bool {
        &&& self.spec_ready().len() == self.spec_ready_keys().len()
        &&& self.spec_ready_keys().no_duplicates()
        &&& self.spec_pending_keys().no_duplicates()
        &&& self.spec_cancelled().len() == self.spec_pending().len()
    }

    /// An empty cache.
    pub fn new() -> (c: Self)
        ensures
            c.wf(),
            c.spec_pending() == Seq::<(u64, S)>::empty(),
            c.spec_ready_keys() == Seq::<u64>::empty(),
            c.spec_ready() == Seq::<S>::empty(),
            c.spec_cancelled() == Seq::<bool>::empty(),
    {
        let c = ReadyCache {
            pending: Vec::new(),
            cancelled: Vec::new(),
            ready_keys: index_set_new(),
            ready: Vec::new(),
        };
        assert(c.spec_pending_keys() =~= Seq::<u64>::empty());
        c
    }

    /// Returns the number of services in the ready set.
    pub fn ready_len(&self) -> (n: usize)
        requires
            self.wf(),
        ensures
            n == self.spec_ready().len(),
    {
        index_set_len(&self.ready_keys)
    }

    /// Returns the number of services in the pending set.
    pub fn pending_len(&self) -> (n: usize)
        ensures
            n == self.spec_pending().len(),
    {
        self.pending.len()
    }

    /// Returns the total number of services in the cache.
    pub fn len(&self) -> (n: usize)
        requires
            self.wf(),
            self.spec_ready().len() + self.spec_pending().len() <= usize::MAX,
        ensures
            n == self.spec_ready().len() + self.spec_pending().len(),
    {
        self.ready_len() + self.pending_len()
    }

    /// Returns whether or not there are any services in the cache.
    pub fn is_empty(&self) -> (b: bool)
        requires
            self.wf(),
        ensures
            b == (self.spec_ready().len() == 0 && self.spec_pending().len() == 0),
    {
        self.ready_len() == 0 && self.pending.len() == 0
    }

    /// The position of `key` in the pending set, if it is pending.
    fn find_pending(&self, key: u64) -> (r: Option<usize>)
        requires
            self.wf(),
        ensures
            r is None <==> !self.spec_pending_keys().contains(key),
            r matches Some(i) ==> i < self.spec_pending().len() && self.spec_pending()[i as int].0
                == key && self.spec_pending_keys().index_of(key) == i,
    {
        let mut i: usize = 0;
        while i < self.pending.len()
            invariant
                self.wf(),
                i <= self.pending@.len(),
                forall|j: int| 0 <= j < i ==> self.pending@[j].0 != key,
            decreases self.pending@.len() - i,
        {
            if self.pending[i].0 == key {
                proof {
                    assert(self.spec_pending_keys()[i as int] == key);
                    lemma_index_of_unique(self.spec_pending_keys(), i as int);
                }
                return Some(i);
            }
            i = i + 1;
        }
        proof {
            if self.spec_pending_keys().contains(key) {
                let j = self.spec_pending_keys().index_of(key);
                assert(self.pending@[j].0 == key);
            }
        }
        None
    }

    /// Returns true iff the given key is in the pending set.
    pub fn pending_contains(&self, key: u64) -> (b: bool)
        requires
            self.wf(),
        ensures
            b == self.spec_pending_keys().contains(key),
    {
        self.find_pending(key).is_some()
    }

    /// Returns true iff the given key is in the ready set.
    pub fn ready_contains(&self, key: u64) -> (b: bool)
        requires
            self.wf(),
        ensures
            b == self.spec_ready_keys().contains(key),
    {
        index_set_get_index_of(&self.ready_keys, key).is_some()
    }

    /// The position and the service of `key` in the ready set, if ready.
    pub fn get_ready(&self, key: u64) -> (r: Option<(usize, u64, &S)>)
        requires
            self.wf(),
        ensures
            r is None <==> !self.spec_ready_keys().contains(key),
            r matches Some(t) ==> t.0 < self.spec_ready().len() && self.spec_ready_keys()[t.0 as int]
                == key && t.1 == key && *t.2 == self.spec_ready()[t.0 as int],
    {
        match index_set_get_index_of(&self.ready_keys, key) {
            Some(i) => Some((i, key, &self.ready[i])),
            None => None,
        }
    }

    /// The key and the service at position `idx` of the ready set.
    pub fn get_ready_index(&self, idx: usize) -> (r: Option<(u64, &S)>)
        requires
            self.wf(),
        ensures
            idx >= self.spec_ready().len() ==> r is None,
            idx < self.spec_ready().len() ==> (r matches Some(t) && t.0 == self.spec_ready_keys()[
                idx as int] && *t.1 == self.spec_ready()[idx as int]),
    {
        match index_set_get_index(&self.ready_keys, idx) {
            Some(k) => Some((k, &self.ready[idx])),
            None => None,
        }
    }

    /// The ready service at position `idx`.
    pub fn ready_at(&self, idx: usize) -> (r: &S)
        requires
            self.wf(),
            idx < self.spec_ready().len(),
        ensures
            *r == self.spec_ready()[idx as int],
    {
        &self.ready[idx]
    }

    /// A mutable reference to the ready service at position `idx`, to poll
    /// it. Its key and position do not change.
    pub fn get_ready_index_mut(&mut self, idx: usize) -> (r: &mut S)
        requires
            old(self).wf(),
            idx < old(self).spec_ready().len(),
        ensures
            *r == old(self).spec_ready()[idx as int],
            final(self).spec_ready() == old(self).spec_ready().update(idx as int, *final(r)),
            final(self).spec_ready_keys() == old(self).spec_ready_keys(),
            final(self).spec_pending() == old(self).spec_pending(),
            final(self).spec_cancelled() == old(self).spec_cancelled(),
            final(self).wf(),
    {
        &mut self.ready[idx]
    }

    /// The position of the ready service with key `key` and a mutable
    /// reference to it, or `None` if no ready service has that key. Its key
    /// and position do not change.
    pub fn get_ready_mut(&mut self, key: u64) -> (r: Option<(usize, &mut S)>)
        requires
            old(self).wf(),
        ensures
            r is None <==> !old(self).spec_ready_keys().contains(key),
            r is None ==> *final(self) == *old(self),
            r matches Some(t) ==> t.0 < old(self).spec_ready().len() && old(self).spec_ready_keys()[t.0 as int] == key
                && *t.1 == old(self).spec_ready()[t.0 as int]
                && final(self).spec_ready() == old(self).spec_ready().update(t.0 as int, *final(t.1)),
            final(self).spec_ready_keys() == old(self).spec_ready_keys(),
            final(self).spec_pending() == old(self).spec_pending(),
            final(self).spec_cancelled() == old(self).spec_cancelled(),
            final(self).wf(),
    {
        match index_set_get_index_of(&self.ready_keys, key) {
            Some(i) => Some((i, &mut self.ready[i])),
            None => None,
        }
    }

    /// A mutable reference to the pending service at position `idx`, to
    /// poll it. Its key and position do not change.
    pub fn get_pending_index_mut(&mut self, idx: usize) -> (r: &mut S)
        requires
            old(self).wf(),
            idx < old(self).spec_pending().len(),
        ensures
            *r == old(self).spec_pending()[idx as int].1,
            final(self).spec_pending() == old(self).spec_pending().update(
                idx as int,
                (old(self).spec_pending()[idx as int].0, *final(r)),
            ),
            final(self).spec_ready_keys() == old(self).spec_ready_keys(),
            final(self).spec_ready() == old(self).spec_ready(),
            final(self).spec_cancelled() == old(self).spec_cancelled(),
            final(self).wf(),
    {
        proof {
            lemma_keys_of_update_any(self.spec_pending(), idx as int);
        }
        let entry = &mut self.pending[idx];
        &mut entry.1
    }
    /// Removes the ready service at position `i`, moving the last ready
    /// service into its place.
    fn ready_swap_remove(&mut self, i: usize) -> (r: (u64, S))
        requires
            old(self).wf(),
            i < old(self).spec_ready().len(),
        ensures
            final(self).wf(),
            r.0 == old(self).spec_ready_keys()[i as int],
            r.1 == old(self).spec_ready()[i as int],
            final(self).spec_ready_keys() == seq_swap_remove(old(self).spec_ready_keys(), i as int),
            final(self).spec_ready() == seq_swap_remove(old(self).spec_ready(), i as int),
            final(self).spec_pending() == old(self).spec_pending(),
            final(self).spec_cancelled() == old(self).spec_cancelled(),
            !final(self).spec_ready_keys().contains(r.0),
            forall|k: u64|
                k != r.0 ==> (final(self).spec_ready_keys().contains(k) <==> old(self).spec_ready_keys().contains(k)),
    {
        proof {
            lemma_swap_remove_no_dup(self.spec_ready_keys(), i as int);
        }
        let removed = index_set_swap_remove_index(&mut self.ready_keys, i);
        let svc = self.ready.swap_remove(i);
        match removed {
            Some(key) => (key, svc),
            None => {
                proof {
                    assert(false);
                }
                (0, svc)
            },
        }
    }

    /// Adds `svc` under `key` to the pending set, with no check of the
    /// ready set.
    fn push_pending(&mut self, key: u64, svc: S)
        requires
            old(self).wf(),
        ensures
            final(self).wf(),
            final(self).spec_pending() == pending_push(old(self).spec_pending(), key, svc),
            final(self).spec_cancelled() == cancelled_push(
                old(self).spec_pending(),
                old(self).spec_cancelled(),
                key,
            ),
            final(self).spec_ready_keys() == old(self).spec_ready_keys(),
            final(self).spec_ready() == old(self).spec_ready(),
    {
        match self.find_pending(key) {
            Some(i) => {
                proof {
                    lemma_keys_of_update(self.spec_pending(), i as int, key, svc);
                }
                self.pending.set(i, (key, svc));
                self.cancelled.set(i, false);
            },
            None => {
                proof {
                    lemma_keys_of_push(self.spec_pending(), key, svc);
                    let ks = self.spec_pending_keys().push(key);
                    assert forall|a: int, b: int|
                        0 <= a < ks.len() && 0 <= b < ks.len() && a != b implies ks[a] != ks[b] by {
                        if a == ks.len() - 1 {
                            assert(ks[b] == self.spec_pending_keys()[b]);
                        } else if b == ks.len() - 1 {
                            assert(ks[a] == self.spec_pending_keys()[a]);
                        }
                    }
                }
                self.pending.push((key, svc));
                self.cancelled.push(false);
            },
        }
    }

    /// Pushes a new service onto the pending set.
    ///
    /// A pending service with the same key is replaced. This does not
    /// remove a ready service with the same key: it is replaced once the new
    /// service becomes ready, or dropped when it is next used.
    pub fn push(&mut self, key: u64, svc: S)
        requires
            old(self).wf(),
        ensures
            final(self).wf(),
            final(self).spec_pending() == pending_push(old(self).spec_pending(), key, svc),
            final(self).spec_cancelled() == cancelled_push(
                old(self).spec_pending(),
                old(self).spec_cancelled(),
                key,
            ),
            final(self).spec_ready_keys() == old(self).spec_ready_keys(),
            final(self).spec_ready() == old(self).spec_ready(),
    {
        self.push_pending(key, svc);
    }

    /// Promotes the pending service at position `idx`, which has become
    /// ready, to the ready set. A ready service with the same key is
    /// replaced in place; otherwise the service is appended.
    pub fn promote_pending(&mut self, idx: usize)
        requires
            old(self).wf(),
            idx < old(self).spec_pending().len(),
        ensures
            final(self).wf(),
            final(self).spec_pending() == old(self).spec_pending().remove(idx as int),
            final(self).spec_cancelled() == old(self).spec_cancelled().remove(idx as int),
            final(self).spec_ready_keys() == ready_keys_insert(
                old(self).spec_ready_keys(),
                old(self).spec_pending()[idx as int].0,
            ),
            final(self).spec_ready() == ready_services_insert(
                old(self).spec_ready_keys(),
                old(self).spec_ready(),
                old(self).spec_pending()[idx as int].0,
                old(self).spec_pending()[idx as int].1,
            ),
    {
        proof {
            lemma_keys_of_remove(self.spec_pending(), idx as int);
        }
        let (key, svc) = self.pending.remove(idx);
        let _ = self.cancelled.remove(idx);
        let ghost old_keys = self.spec_ready_keys();
        let (pos, added) = index_set_insert_full(&mut self.ready_keys, key);
        if added {
            self.ready.push(svc);
            proof {
                let ks = old_keys.push(key);
                assert forall|a: int, b: int|
                    0 <= a < ks.len() && 0 <= b < ks.len() && a != b implies ks[a] != ks[b] by {
                    if a == ks.len() - 1 {
                        assert(ks[b] == old_keys[b]);
                    } else if b == ks.len() - 1 {
                        assert(ks[a] == old_keys[a]);
                    }
                }
            }
        } else {
            proof {
                lemma_index_of_unique(old_keys, pos as int);
            }
            self.ready.set(pos, svc);
        }
    }

    /// Drops the pending service at position `idx`, which failed to become
    /// ready with `error`, and reports the failure with its key.
    pub fn fail_pending<E>(&mut self, idx: usize, error: E) -> (r: Failed<E>)
        requires
            old(self).wf(),
            idx < old(self).spec_pending().len(),
        ensures
            final(self).wf(),
            final(self).spec_pending() == old(self).spec_pending().remove(idx as int),
            final(self).spec_cancelled() == old(self).spec_cancelled().remove(idx as int),
            final(self).spec_ready_keys() == old(self).spec_ready_keys(),
            final(self).spec_ready() == old(self).spec_ready(),
            r.0 == old(self).spec_pending()[idx as int].0,
            r.1 == error,
    {
        proof {
            lemma_keys_of_remove(self.spec_pending(), idx as int);
        }
        let (key, _svc) = self.pending.remove(idx);
        let _ = self.cancelled.remove(idx);
        Failed(key, error)
    }

    /// Evicts a service from the cache. A ready service is dropped at once;
    /// a pending service is only marked as cancelled, and stays in the
    /// pending set until [`ReadyCache::poll_pending`] drops it. Returns
    /// whether a service was found in either set.
    pub fn evict(&mut self, key: u64) -> (r: bool)
        requires
            old(self).wf(),
        ensures
            final(self).wf(),
            r == (old(self).spec_ready_keys().contains(key) || old(self).spec_pending_keys().contains(
                key,
            )),
            final(self).spec_pending() == old(self).spec_pending(),
            old(self).spec_pending_keys().contains(key) ==> final(self).spec_cancelled() == old(self).spec_cancelled().update(old(self).spec_pending_keys().index_of(key), true),
            !old(self).spec_pending_keys().contains(key) ==> final(self).spec_cancelled() == old(self).spec_cancelled(),
            old(self).spec_ready_keys().contains(key) ==> final(self).spec_ready_keys()
                == seq_swap_remove(
                old(self).spec_ready_keys(),
                old(self).spec_ready_keys().index_of(key),
            ) && final(self).spec_ready() == seq_swap_remove(
                old(self).spec_ready(),
                old(self).spec_ready_keys().index_of(key),
            ),
            !old(self).spec_ready_keys().contains(key) ==> final(self).spec_ready_keys() == old(self).spec_ready_keys() && final(self).spec_ready() == old(self).spec_ready(),
            !final(self).spec_ready_keys().contains(key),
    {
        let canceled = match self.find_pending(key) {
            Some(i) => {
                self.cancelled.set(i, true);
                true
            },
            None => false,
        };
        match index_set_get_index_of(&self.ready_keys, key) {
            Some(i) => {
                proof {
                    lemma_index_of_unique(self.spec_ready_keys(), i as int);
                }
                let _ = self.ready_swap_remove(i);
                true
            },
            None => canceled,
        }
    }

    /// Records the readiness of the ready service at position `index`,
    /// which the caller has just polled.
    ///
    /// If it is still ready, `Ok(true)` is returned. If it is no longer
    /// ready, it moves back to the pending set (unless a newer service with
    /// its key is already pending, in which case it is dropped) and
    /// `Ok(false)` is returned. If it failed, it is removed and the error is
    /// returned with its key. An index out of range gives `Ok(false)`.
    pub fn check_ready_index<E>(&mut self, index: usize, poll: Readiness<E>) -> (r: Result<
        bool,
        Failed<E>,
    >)
        requires
            old(self).wf(),
        ensures
            final(self).wf(),
            index >= old(self).spec_ready().len() ==> (r is Ok && !r->Ok_0) && *final(self) == *old(self),
            index < old(self).spec_ready().len() ==> ({
                let key = old(self).spec_ready_keys()[index as int];
                let svc = old(self).spec_ready()[index as int];
                let keys2 = seq_swap_remove(old(self).spec_ready_keys(), index as int);
                let ready2 = seq_swap_remove(old(self).spec_ready(), index as int);
                &&& poll is Ready ==> (r is Ok && r->Ok_0) && *final(self) == *old(self)
                &&& poll is Pending ==> (r is Ok && !r->Ok_0) && final(self).spec_ready_keys() == keys2
                    && final(self).spec_ready() == ready2 && final(self).spec_pending()
                    == pending_return(old(self).spec_pending(), key, svc)
                    && final(self).spec_cancelled() == cancelled_return(
                    old(self).spec_pending(),
                    old(self).spec_cancelled(),
                    key,
                )
                &&& poll matches Readiness::Failed(e) ==> (r is Err && r->Err_0.0 == key && r->Err_0.1
                    == e) && final(self).spec_ready_keys() == keys2 && final(self).spec_ready()
                    == ready2 && final(self).spec_pending() == old(self).spec_pending()
                    && final(self).spec_cancelled() == old(self).spec_cancelled()
            }),
            forall|k: u64| #[trigger] final(self).spec_tracks(k) ==> old(self).spec_tracks(k),
            !(poll is Failed) ==> forall|k: u64|
                #[trigger] old(self).spec_tracks(k) ==> final(self).spec_tracks(k),
            poll is Failed ==> forall|k: u64|
                #[trigger] old(self).spec_tracks(k) ==> final(self).spec_tracks(k) || (index < old(self).spec_ready().len() && k == old(self).spec_ready_keys()[index as int]),
    {
        if index >= self.ready_len() {
            return Ok(false);
        }
        match poll {
            Readiness::Ready => Ok(true),
            Readiness::Pending => {
                let (key, svc) = self.ready_swap_remove(index);
                let ghost mid = self.spec_pending();
                if !self.pending_contains(key) {
                    self.push_pending(key, svc);
                    proof {
                        lemma_keys_of_push(mid, key, svc);
                    }
                }
                proof {
                    assert(old(self).spec_ready_keys()[index as int] == key);
                    if !keys_of(mid).contains(key) {
                        assert(keys_of(mid).push(key)[keys_of(mid).len() as int] == key);
                    }
                    assert forall|k: u64| #[trigger] old(self).spec_tracks(k) implies self.spec_tracks(k) by {
                        if k == key {
                            assert(self.spec_pending_keys().contains(key));
                        } else if old(self).spec_ready_keys().contains(k) {
                            assert(self.spec_ready_keys().contains(k));
                        } else {
                            assert(keys_of(mid).contains(k));
                            if !keys_of(mid).contains(key) {
                                let j = keys_of(mid).index_of(k);
                                assert(keys_of(mid).push(key)[j] == k);
                            }
                        }
                    }
                    assert forall|k: u64| #[trigger] self.spec_tracks(k) implies old(self).spec_tracks(k) by {
                        if k == key {
                            assert(old(self).spec_ready_keys().contains(k));
                        } else if keys_of(mid).contains(k) {
                        } else {
                            assert(!keys_of(mid).push(key).contains(k) || k == key);
                        }
                    }
                }
                Ok(false)
            },
            Readiness::Failed(e) => {
                let (key, _svc) = self.ready_swap_remove(index);
                Err(Failed(key, e))
            },
        }
    }

    /// Records the readiness of the ready service with key `key`, which the
    /// caller has just polled; see [`ReadyCache::check_ready_index`]. A key
    /// that is not in the ready set gives `Ok(false)`.
    pub fn check_ready<E>(&mut self, key: u64, poll: Readiness<E>) -> (r: Result<bool, Failed<E>>)
        requires
            old(self).wf(),
        ensures
            final(self).wf(),
            !old(self).spec_ready_keys().contains(key) ==> (r is Ok && !r->Ok_0) && *final(self)
                == *old(self),
            old(self).spec_ready_keys().contains(key) ==> ({
                let index = old(self).spec_ready_keys().index_of(key);
                let svc = old(self).spec_ready()[index];
                let keys2 = seq_swap_remove(old(self).spec_ready_keys(), index);
                let ready2 = seq_swap_remove(old(self).spec_ready(), index);
                &&& poll is Ready ==> (r is Ok && r->Ok_0) && *final(self) == *old(self)
                &&& poll is Pending ==> (r is Ok && !r->Ok_0) && final(self).spec_ready_keys() == keys2
                    && final(self).spec_ready() == ready2 && final(self).spec_pending()
                    == pending_return(old(self).spec_pending(), key, svc)
                    && final(self).spec_cancelled() == cancelled_return(
                    old(self).spec_pending(),
                    old(self).spec_cancelled(),
                    key,
                )
                &&& poll matches Readiness::Failed(e) ==> (r is Err && r->Err_0.0 == key && r->Err_0.1
                    == e) && final(self).spec_ready_keys() == keys2 && final(self).spec_ready()
                    == ready2 && final(self).spec_pending() == old(self).spec_pending()
                    && final(self).spec_cancelled() == old(self).spec_cancelled()
            }),
    {
        match index_set_get_index_of(&self.ready_keys, key) {
            Some(index) => {
                proof {
                    lemma_index_of_unique(self.spec_ready_keys(), index as int);
                }
                self.check_ready_index(index, poll)
            },
            None => Ok(false),
        }
    }

    /// Calls the ready service at position `index` with `request`; the
    /// service then goes back to the pending set (unless a newer service
    /// with its key is already pending, in which case it is dropped).
    pub fn call_ready_index<Req>(&mut self, index: usize, request: Req) -> (fut: S::Future) where
        S: Call<Req>,

        requires
            old(self).wf(),
            index < old(self).spec_ready().len(),
        ensures
            final(self).wf(),
            final(self).spec_ready_keys() == seq_swap_remove(
                old(self).spec_ready_keys(),
                index as int,
            ),
            final(self).spec_ready() == seq_swap_remove(old(self).spec_ready(), index as int),
            final(self).spec_cancelled() == cancelled_return(
                old(self).spec_pending(),
                old(self).spec_cancelled(),
                old(self).spec_ready_keys()[index as int],
            ),
            exists|svc: S|
                #![trigger old(self).spec_ready()[index as int].spec_call(request, svc, fut)]
                old(self).spec_ready()[index as int].spec_call(request, svc, fut)
                    && final(self).spec_pending() == pending_return(
                    old(self).spec_pending(),
                    old(self).spec_ready_keys()[index as int],
                    svc,
                ),
    {
        let ghost req = request;
        let (key, mut svc) = self.ready_swap_remove(index);
        let ghost original = svc;
        let fut = svc.call(request);
        let ghost called = svc;
        let ghost before = self.spec_pending();
        if !self.pending_contains(key) {
            self.push_pending(key, svc);
        }
        assert(self.spec_pending() == pending_return(before, key, called));
        assert(original.spec_call(req, called, fut));
        fut
    }

    /// Calls the ready service with key `key`; see
    /// [`ReadyCache::call_ready_index`].
    pub fn call_ready<Req>(&mut self, key: u64, request: Req) -> (fut: S::Future) where
        S: Call<Req>,

        requires
            old(self).wf(),
            old(self).spec_ready_keys().contains(key),
        ensures
            final(self).wf(),
            final(self).spec_ready_keys() == seq_swap_remove(
                old(self).spec_ready_keys(),
                old(self).spec_ready_keys().index_of(key),
            ),
            final(self).spec_ready() == seq_swap_remove(
                old(self).spec_ready(),
                old(self).spec_ready_keys().index_of(key),
            ),
            final(self).spec_cancelled() == cancelled_return(
                old(self).spec_pending(),
                old(self).spec_cancelled(),
                key,
            ),
            exists|svc: S|
                #![trigger old(self).spec_ready()[old(self).spec_ready_keys().index_of(key)].spec_call(request, svc, fut)]
                old(self).spec_ready()[old(self).spec_ready_keys().index_of(key)].spec_call(
                    request,
                    svc,
                    fut,
                ) && final(self).spec_pending() == pending_return(old(self).spec_pending(), key, svc),
    {
        match index_set_get_index_of(&self.ready_keys, key) {
            Some(index) => {
                proof {
                    lemma_index_of_unique(self.spec_ready_keys(), index as int);
                }
                self.call_ready_index(index, request)
            },
            None => {
                proof {
                    assert(false);
                }
                self.call_ready_index(0, request)
            },
        }
    }

    /// Polls the pending service at position `idx` with `poll`, which hands
    /// it back with its readiness. Its key and position do not change.
    fn poll_pending_at<E, P: FnMut(u64, S) -> (S, Readiness<E>)>(&mut self, idx: usize, poll: &mut P) -> (r: Readiness<E>)
        requires
            old(self).wf(),
            idx < old(self).spec_pending().len(),
            forall|k: u64, s: S| call_requires(*old(poll), (k, s)),
        ensures
            final(self).wf(),
            *final(poll) == *old(poll),
            final(self).spec_pending() == old(self).spec_pending().update(
                idx as int,
                (old(self).spec_pending()[idx as int].0, final(self).spec_pending()[idx as int].1),
            ),
            answered(
                *old(poll),
                old(self).spec_pending()[idx as int].0,
                old(self).spec_pending()[idx as int].1,
                final(self).spec_pending()[idx as int].1,
                r,
            ),
            final(self).spec_cancelled() == old(self).spec_cancelled(),
            final(self).spec_ready_keys() == old(self).spec_ready_keys(),
            final(self).spec_ready() == old(self).spec_ready(),
    {
        let (key, svc) = self.pending.remove(idx);
        let (svc2, r) = poll(key, svc);
        self.pending.insert(idx, (key, svc2));
        proof {
            assert(self.pending@ =~= old(self).pending@.update(idx as int, (key, svc2)));
            lemma_keys_of_update(old(self).pending@, idx as int, key, svc2);
        }
        r
    }

    /// Polls the ready service at position `idx` with `poll`, which hands it
    /// back with its readiness. Its key and position do not change; the
    /// readiness is to be recorded with [`ReadyCache::check_ready_index`].
    pub fn poll_ready_at<E, P: FnMut(u64, S) -> (S, Readiness<E>)>(&mut self, idx: usize, poll: &mut P) -> (r: Readiness<E>)
        requires
            old(self).wf(),
            idx < old(self).spec_ready().len(),
            forall|k: u64, s: S| call_requires(*old(poll), (k, s)),
        ensures
            final(self).wf(),
            *final(poll) == *old(poll),
            final(self).spec_ready() == old(self).spec_ready().update(
                idx as int,
                final(self).spec_ready()[idx as int],
            ),
            answered(
                *old(poll),
                old(self).spec_ready_keys()[idx as int],
                old(self).spec_ready()[idx as int],
                final(self).spec_ready()[idx as int],
                r,
            ),
            final(self).spec_ready_keys() == old(self).spec_ready_keys(),
            final(self).spec_pending() == old(self).spec_pending(),
            final(self).spec_cancelled() == old(self).spec_cancelled(),
    {
        let key = match index_set_get_index(&self.ready_keys, idx) {
            Some(k) => k,
            None => {
                proof {
                    assert(false);
                }
                0
            },
        };
        let svc = self.ready.remove(idx);
        let (svc2, r) = poll(key, svc);
        self.ready.insert(idx, svc2);
        proof {
            assert(self.ready@ =~= old(self).ready@.update(idx as int, svc2));
        }
        r
    }

    /// Polls the pending services for readiness with `poll`, in order of
    /// position, promoting each that is ready. `poll` is handed each service
    /// with its key and hands it back with its readiness; what it hands back
    /// takes the service's place. Evicted services are dropped without being
    /// polled.
    ///
    /// The first service that fails is dropped and its failure returned
    /// (`Err`), leaving the services after it unpolled. Otherwise the result
    /// says whether no service is left pending (`Ok(true)`), or some are still
    /// not ready (`Ok(false)`).
    pub fn poll_pending<E, P: FnMut(u64, S) -> (S, Readiness<E>)>(&mut self, poll: &mut P) -> (r: Result<
        bool,
        Failed<E>,
    >)
        requires
            old(self).wf(),
            forall|k: u64, s: S| call_requires(*old(poll), (k, s)),
        ensures
            final(self).wf(),
            *final(poll) == *old(poll),
            r matches Ok(b) ==> b == (final(self).spec_pending().len() == 0),
            final(self).spec_pending().len() <= old(self).spec_pending().len(),
            final(self).spec_ready().len() >= old(self).spec_ready().len(),
            final(self).spec_ready().len() + final(self).spec_pending().len() + if r is Err {
                1int
            } else {
                0int
            } <= old(self).spec_ready().len() + old(self).spec_pending().len(),
            forall|k: u64|
                old(self).spec_ready_keys().contains(k) ==> final(self).spec_ready_keys().contains(k),
            forall|j: int|
                0 <= j < old(self).spec_ready_keys().len() ==> final(self).spec_ready_keys()[j] == old(self).spec_ready_keys()[j],
            r matches Err(f) ==> old(self).spec_pending_keys().contains(f.0),
            r matches Err(f) ==> !final(self).spec_pending_keys().contains(f.0),
            forall|k: u64|
                #![trigger final(self).spec_ready_keys().contains(k)]
                final(self).spec_ready_keys().contains(k) ==> old(self).spec_ready_keys().contains(k)
                    || old(self).spec_pending_keys().contains(k),
            forall|k: u64| #[trigger] final(self).spec_tracks(k) ==> old(self).spec_tracks(k),
            forall|k: u64|
                final(self).spec_pending_keys().contains(k) ==> old(self).spec_pending_keys().contains(k),
            r is Err ==> forall|m: int|
                0 <= m < final(self).spec_pending().len() && #[trigger] final(self).spec_cancelled()[m]
                    ==> old(self).spec_cancelled_key(final(self).spec_pending()[m].0),
            forall|j: int|
                #![trigger old(self).spec_pending()[j]]
                0 <= j < old(self).spec_pending().len() ==> ({
                    let key = old(self).spec_pending()[j].0;
                    let svc = old(self).spec_pending()[j].1;
                    let c = old(self).spec_cancelled()[j];
                    ||| pending_outcome::<S, E, P>(*old(poll), key, svc, c, *final(self))
                    ||| (r matches Err(f) && f.0 == key && !c
                        && !final(self).spec_pending_keys().contains(key) && exists|s: S|
                        #[trigger] answered(*old(poll), key, svc, s, Readiness::<E>::Failed(f.1)))
                    ||| (r is Err && final(self).spec_holds_pending(key, svc, c))
                }),
            forall|m: int|
                #![trigger final(self).spec_pending()[m]]
                0 <= m < final(self).spec_pending().len() ==> (!final(self).spec_cancelled()[m]
                    && reported(
                    *old(poll),
                    final(self).spec_pending()[m].0,
                    final(self).spec_pending()[m].1,
                    Readiness::<E>::Pending,
                )) || (r is Err && old(self).spec_holds_pending(
                    final(self).spec_pending()[m].0,
                    final(self).spec_pending()[m].1,
                    final(self).spec_cancelled()[m],
                )),
            forall|j: int|
                #![trigger final(self).spec_ready()[j]]
                0 <= j < final(self).spec_ready().len() ==> (j < old(self).spec_ready().len()
                    && final(self).spec_ready()[j] == old(self).spec_ready()[j]) || reported(
                    *old(poll),
                    final(self).spec_ready_keys()[j],
                    final(self).spec_ready()[j],
                    Readiness::<E>::Ready,
                ),
            forall|k: u64, s: S|
                #[trigger] old(self).spec_holds_ready(k, s) && !old(self).spec_pending_keys().contains(k)
                    ==> final(self).spec_holds_ready(k, s),
    {
        let mut i: usize = 0;
        let ghost mut o: int = 0;
        while i < self.pending.len()
            invariant
                self.wf(),
                old(self).wf(),
                i <= self.spec_pending().len(),
                forall|k: u64, s: S| call_requires(*poll, (k, s)),
                *poll == *old(poll),
                self.spec_pending().len() <= old(self).spec_pending().len(),
                self.spec_ready().len() >= old(self).spec_ready().len(),
                self.spec_ready().len() + self.spec_pending().len() <= old(self).spec_ready().len()
                    + old(self).spec_pending().len(),
                forall|k: u64|
                    old(self).spec_ready_keys().contains(k) ==> self.spec_ready_keys().contains(k),
                forall|j: int|
                    0 <= j < old(self).spec_ready_keys().len() ==> self.spec_ready_keys()[j] == old(self).spec_ready_keys()[j],
                forall|k: u64|
                    self.spec_pending_keys().contains(k) ==> old(self).spec_pending_keys().contains(k),
                forall|k: u64|
                    #![trigger self.spec_ready_keys().contains(k)]
                    self.spec_ready_keys().contains(k) ==> old(self).spec_ready_keys().contains(k)
                        || old(self).spec_pending_keys().contains(k),
                0 <= o <= old(self).spec_pending().len(),
                aligned_from(
                    self.spec_pending(),
                    self.spec_cancelled(),
                    i as int,
                    old(self).spec_pending(),
                    old(self).spec_cancelled(),
                    o,
                ),
                forall|j: int|
                    #![trigger old(self).spec_pending()[j]]
                    0 <= j < o ==> pending_outcome::<S, E, P>(
                        *old(poll),
                        old(self).spec_pending()[j].0,
                        old(self).spec_pending()[j].1,
                        old(self).spec_cancelled()[j],
                        *self,
                    ),
                forall|m: int| 0 <= m < i ==> !#[trigger] self.spec_cancelled()[m],
                forall|m: int|
                    #![trigger self.spec_pending()[m]]
                    0 <= m < i ==> reported(
                        *old(poll),
                        self.spec_pending()[m].0,
                        self.spec_pending()[m].1,
                        Readiness::<E>::Pending,
                    ),
                forall|j: int|
                    #![trigger self.spec_ready()[j]]
                    0 <= j < self.spec_ready().len() ==> (j < old(self).spec_ready().len()
                        && self.spec_ready()[j] == old(self).spec_ready()[j]) || reported(
                        *old(poll),
                        self.spec_ready_keys()[j],
                        self.spec_ready()[j],
                        Readiness::<E>::Ready,
                    ),
                forall|k: u64, s: S|
                    #[trigger] old(self).spec_holds_ready(k, s) && !old(self).spec_pending_keys().contains(k)
                        ==> self.spec_holds_ready(k, s),
            decreases self.spec_pending().len() - i,
        {
            let ghost before = *self;
            let ghost k = self.spec_pending()[i as int].0;
            let ghost v = self.spec_pending()[i as int].1;
            proof {
                assert(self.spec_pending()[i as int] == old(self).spec_pending()[i - i + o]);
                assert(self.spec_cancelled()[i as int] == old(self).spec_cancelled()[i - i + o]);
                assert(keys_of(old(self).spec_pending())[o] == old(self).spec_pending()[o].0);
                lemma_keys_of_remove(self.spec_pending(), i as int);
                lemma_held_removed(self.spec_pending(), self.spec_cancelled(), i as int);
            }
            if self.cancelled[i] {
                let _ = self.fail_pending(i, ());
                proof {
                    lemma_outcomes_transfer::<S, E, P>(
                        *old(poll),
                        old(self).spec_pending(),
                        old(self).spec_cancelled(),
                        o,
                        before,
                        *self,
                    );
                    lemma_aligned_remove(
                        before.spec_pending(),
                        before.spec_cancelled(),
                        i as int,
                        old(self).spec_pending(),
                        old(self).spec_cancelled(),
                        o,
                    );
                    o = o + 1;
                }
                proof {
                    assert forall|m: int| #![trigger self.spec_pending()[m]] 0 <= m < i implies !self.spec_cancelled()[m] && reported(
                        *old(poll),
                        self.spec_pending()[m].0,
                        self.spec_pending()[m].1,
                        Readiness::<E>::Pending,
                    ) by {
                        assert(self.spec_pending()[m] == before.spec_pending()[m]);
                        assert(self.spec_cancelled()[m] == before.spec_cancelled()[m]);
                    }
                }
                continue;
            }
            let readiness = self.poll_pending_at(i, poll);
            let ghost polled = *self;
            let ghost s1 = self.spec_pending()[i as int].1;
            proof {
                lemma_keys_of_update(before.spec_pending(), i as int, k, s1);
                lemma_held_updated(before.spec_pending(), before.spec_cancelled(), i as int, (k, s1));
                lemma_outcomes_transfer::<S, E, P>(
                    *old(poll),
                    old(self).spec_pending(),
                    old(self).spec_cancelled(),
                    o,
                    before,
                    polled,
                );
                lemma_aligned_update(
                    before.spec_pending(),
                    before.spec_cancelled(),
                    i as int,
                    old(self).spec_pending(),
                    old(self).spec_cancelled(),
                    o,
                    (k, s1),
                );
                lemma_keys_of_remove(polled.spec_pending(), i as int);
                lemma_held_removed(polled.spec_pending(), polled.spec_cancelled(), i as int);
                assert(polled.spec_pending().remove(i as int) =~= before.spec_pending().remove(i as int));
            }
            match readiness {
                Readiness::Ready => {
                    self.promote_pending(i);
                    proof {
                        lemma_ready_inserted(polled.spec_ready_keys(), polled.spec_ready(), k, s1);
                        lemma_outcomes_transfer::<S, E, P>(
                            *old(poll),
                            old(self).spec_pending(),
                            old(self).spec_cancelled(),
                            o,
                            polled,
                            *self,
                        );
                        assert(self.spec_holds_ready(k, s1));
                        assert(pending_outcome::<S, E, P>(
                            *old(poll),
                            old(self).spec_pending()[o].0,
                            old(self).spec_pending()[o].1,
                            old(self).spec_cancelled()[o],
                            *self,
                        ));
                        assert forall|m: int| #![trigger self.spec_pending()[m]] 0 <= m < i implies !self.spec_cancelled()[m] && reported(
                            *old(poll),
                            self.spec_pending()[m].0,
                            self.spec_pending()[m].1,
                            Readiness::<E>::Pending,
                        ) by {
                            assert(self.spec_pending()[m] == before.spec_pending()[m]);
                            assert(self.spec_cancelled()[m] == before.spec_cancelled()[m]);
                        }
                        assert forall|j: int|
                            #![trigger self.spec_ready()[j]]
                            0 <= j < self.spec_ready().len() implies (j < old(self).spec_ready().len()
                                && self.spec_ready()[j] == old(self).spec_ready()[j]) || reported(
                                *old(poll),
                                self.spec_ready_keys()[j],
                                self.spec_ready()[j],
                                Readiness::<E>::Ready,
                            ) by {
                            if j < polled.spec_ready().len() && self.spec_ready()[j] == polled.spec_ready()[j]
                                && self.spec_ready_keys()[j] == polled.spec_ready_keys()[j] {
                                assert(polled.spec_ready()[j] == before.spec_ready()[j]);
                            } else {
                                assert(self.spec_ready_keys()[j] == k && self.spec_ready()[j] == s1);
                                assert(answered(*old(poll), k, v, s1, Readiness::<E>::Ready));
                            }
                        }
                        assert forall|kk: u64|
                            #![trigger self.spec_ready_keys().contains(kk)]
                            self.spec_ready_keys().contains(kk) implies old(self).spec_ready_keys().contains(kk)
                                || old(self).spec_pending_keys().contains(kk) by {
                            if kk == k {
                                assert(old(self).spec_pending_keys()[o] == k);
                            } else {
                                assert(polled.spec_ready_keys().contains(kk));
                            }
                        }
                        assert forall|kk: u64| old(self).spec_ready_keys().contains(kk) implies self.spec_ready_keys().contains(kk) by {
                            assert(polled.spec_ready_keys().contains(kk));
                            let j = polled.spec_ready_keys().index_of(kk);
                            assert(self.spec_ready_keys()[j] == polled.spec_ready_keys()[j]);
                        }
                        o = o + 1;
                    }
                },
                Readiness::Pending => {
                    proof {
                        assert(self.spec_pending()[i as int] == (k, s1));
                        assert(self.spec_holds_pending(k, s1, false));
                        assert(answered(*old(poll), k, v, s1, Readiness::<E>::Pending));
                        assert(pending_outcome::<S, E, P>(
                            *old(poll),
                            old(self).spec_pending()[o].0,
                            old(self).spec_pending()[o].1,
                            old(self).spec_cancelled()[o],
                            *self,
                        ));
                        assert forall|m: int| #![trigger self.spec_pending()[m]] 0 <= m < i + 1 implies !self.spec_cancelled()[m] && reported(
                            *old(poll),
                            self.spec_pending()[m].0,
                            self.spec_pending()[m].1,
                            Readiness::<E>::Pending,
                        ) by {
                            if m < i {
                                assert(self.spec_pending()[m] == before.spec_pending()[m]);
                            }
                        }
                        o = o + 1;
                    }
                    i = i + 1;
                },
                Readiness::Failed(e) => {
                    let f = self.fail_pending(i, e);
                    proof {
                        lemma_outcomes_transfer::<S, E, P>(
                            *old(poll),
                            old(self).spec_pending(),
                            old(self).spec_cancelled(),
                            o,
                            polled,
                            *self,
                        );
                        assert(answered(*old(poll), k, v, s1, Readiness::<E>::Failed(f.1)));
                        assert forall|j: int|
                            #![trigger old(self).spec_pending()[j]]
                            o < j < old(self).spec_pending().len() implies self.spec_holds_pending(
                                old(self).spec_pending()[j].0,
                                old(self).spec_pending()[j].1,
                                old(self).spec_cancelled()[j],
                            ) by {
                            let m = j - o + i - 1;
                            assert(self.spec_pending()[m] == polled.spec_pending()[m + 1]);
                            assert(polled.spec_pending()[m + 1] == before.spec_pending()[m + 1]);
                            assert(before.spec_pending()[m + 1] == old(self).spec_pending()[j]);
                            assert(self.spec_cancelled()[m] == polled.spec_cancelled()[m + 1]);
                        }
                        assert forall|m: int|
                            #![trigger self.spec_pending()[m]]
                            0 <= m < self.spec_pending().len() implies (!self.spec_cancelled()[m]
                                && reported(
                                *old(poll),
                                self.spec_pending()[m].0,
                                self.spec_pending()[m].1,
                                Readiness::<E>::Pending,
                            )) || old(self).spec_holds_pending(
                                self.spec_pending()[m].0,
                                self.spec_pending()[m].1,
                                self.spec_cancelled()[m],
                            ) by {
                            if m < i {
                                assert(self.spec_pending()[m] == before.spec_pending()[m]);
                                assert(self.spec_cancelled()[m] == before.spec_cancelled()[m]);
                            } else {
                                let j = m + 1 - i + o;
                                assert(self.spec_pending()[m] == polled.spec_pending()[m + 1]);
                                assert(polled.spec_pending()[m + 1] == before.spec_pending()[m + 1]);
                                assert(before.spec_pending()[m + 1] == old(self).spec_pending()[j]);
                                assert(self.spec_cancelled()[m] == polled.spec_cancelled()[m + 1]);
                            }
                        }
                        assert forall|m: int|
                            0 <= m < self.spec_pending().len() && #[trigger] self.spec_cancelled()[m]
                                implies old(self).spec_cancelled_key(self.spec_pending()[m].0) by {
                            if m >= i {
                                let j = m + 1 - i + o;
                                assert(self.spec_pending()[m] == polled.spec_pending()[m + 1]);
                                assert(polled.spec_pending()[m + 1] == before.spec_pending()[m + 1]);
                                assert(before.spec_pending()[m + 1] == old(self).spec_pending()[j]);
                                assert(self.spec_cancelled()[m] == polled.spec_cancelled()[m + 1]);
                                assert(old(self).spec_pending_keys()[j] == old(self).spec_pending()[j].0);
                                lemma_index_of_unique(old(self).spec_pending_keys(), j);
                            } else {
                                assert(self.spec_cancelled()[m] == before.spec_cancelled()[m]);
                            }
                        }
                    }
                    return Err(f);
                },
            }
        }
        proof {
            assert forall|j: int|
                #![trigger old(self).spec_pending()[j]]
                0 <= j < old(self).spec_pending().len() implies pending_outcome::<S, E, P>(
                    *old(poll),
                    old(self).spec_pending()[j].0,
                    old(self).spec_pending()[j].1,
                    old(self).spec_cancelled()[j],
                    *self,
                ) by {
                assert(o == old(self).spec_pending().len());
            }
            assert(i == self.spec_pending().len());
            assert forall|m: int|
                #![trigger self.spec_pending()[m]]
                0 <= m < self.spec_pending().len() implies !self.spec_cancelled()[m] && reported(
                    *old(poll),
                    self.spec_pending()[m].0,
                    self.spec_pending()[m].1,
                    Readiness::<E>::Pending,
                ) by {
                assert(m < i);
            }
        }
        Ok(self.pending.len() == 0)
    }
}

/// Whether the pending entries of `p`, marked by `c`, from position `i` on
/// are the entries of `old_p`, marked by `old_c`, from position `o` on.
spec fn aligned_from<S>(
    p: Seq<(u64, S)>,
    c: Seq<bool>,
    i: int,
    old_p: Seq<(u64, S)>,
    old_c: Seq<bool>,
    o: int,
) -> bool {
    &&& p.len() - i == old_p.len() - o
    &&& forall|m: int|
        #![trigger p[m]]
        i <= m < p.len() ==> p[m] == old_p[m - i + o] && c[m] == old_c[m - i + o]
}

proof fn lemma_aligned_remove<S>(
    p: Seq<(u64, S)>,
    c: Seq<bool>,
    i: int,
    old_p: Seq<(u64, S)>,
    old_c: Seq<bool>,
    o: int,
)
    requires
        aligned_from(p, c, i, old_p, old_c, o),
        0 <= i < p.len(),
        c.len() == p.len(),
    ensures
        aligned_from(p.remove(i), c.remove(i), i, old_p, old_c, o + 1),
{
    assert forall|m: int| #![trigger p.remove(i)[m]] i <= m < p.remove(i).len() implies p.remove(i)[m]
        == old_p[m - i + (o + 1)] && c.remove(i)[m] == old_c[m - i + (o + 1)] by {
        assert(p.remove(i)[m] == p[m + 1]);
        assert(c.remove(i)[m] == c[m + 1]);
    }
}

proof fn lemma_aligned_update<S>(
    p: Seq<(u64, S)>,
    c: Seq<bool>,
    i: int,
    old_p: Seq<(u64, S)>,
    old_c: Seq<bool>,
    o: int,
    x: (u64, S),
)
    requires
        aligned_from(p, c, i, old_p, old_c, o),
        0 <= i < p.len(),
        c.len() == p.len(),
    ensures
        aligned_from(p.update(i, x), c, i + 1, old_p, old_c, o + 1),
        aligned_from(p.update(i, x).remove(i), c.remove(i), i, old_p, old_c, o + 1),
{
    assert forall|m: int| #![trigger p.update(i, x)[m]] i + 1 <= m < p.update(i, x).len() implies p.update(i, x)[m]
        == old_p[m - (i + 1) + (o + 1)] && c[m] == old_c[m - (i + 1) + (o + 1)] by {
        assert(p.update(i, x)[m] == p[m]);
    }
    lemma_aligned_remove(p, c, i, old_p, old_c, o);
    assert(p.update(i, x).remove(i) =~= p.remove(i));
}

proof fn lemma_held_removed<S>(p: Seq<(u64, S)>, c: Seq<bool>, i: int)
    requires
        0 <= i < p.len(),
        c.len() == p.len(),
    ensures
        forall|k: u64, s: S, mark: bool|
            k != p[i].0 && #[trigger] entry_held(p, c, k, s, mark) ==> entry_held(
                p.remove(i),
                c.remove(i),
                k,
                s,
                mark,
            ),
{
    assert forall|k: u64, s: S, mark: bool|
        k != p[i].0 && #[trigger] entry_held(p, c, k, s, mark) implies entry_held(
        p.remove(i),
        c.remove(i),
        k,
        s,
        mark,
    ) by {
        let m = choose|m: int| 0 <= m < p.len() && #[trigger] p[m] == (k, s) && c[m] == mark;
        if m < i {
            assert(p.remove(i)[m] == p[m]);
            assert(c.remove(i)[m] == c[m]);
        } else {
            assert(m != i);
            assert(p.remove(i)[m - 1] == p[m]);
            assert(c.remove(i)[m - 1] == c[m]);
        }
    }
}

proof fn lemma_held_updated<S>(p: Seq<(u64, S)>, c: Seq<bool>, i: int, x: (u64, S))
    requires
        0 <= i < p.len(),
        c.len() == p.len(),
    ensures
        forall|k: u64, s: S, mark: bool|
            k != p[i].0 && k != x.0 && #[trigger] entry_held(p, c, k, s, mark) ==> entry_held(
                p.update(i, x),
                c,
                k,
                s,
                mark,
            ),
{
    assert forall|k: u64, s: S, mark: bool|
        k != p[i].0 && k != x.0 && #[trigger] entry_held(p, c, k, s, mark) implies entry_held(
        p.update(i, x),
        c,
        k,
        s,
        mark,
    ) by {
        let m = choose|m: int| 0 <= m < p.len() && #[trigger] p[m] == (k, s) && c[m] == mark;
        assert(m != i);
        assert(p.update(i, x)[m] == p[m]);
    }
}

proof fn lemma_ready_inserted<S>(keys: Seq<u64>, ready: Seq<S>, key: u64, svc: S)
    requires
        keys.len() == ready.len(),
    ensures
        ready_keys_insert(keys, key).len() == ready_services_insert(keys, ready, key, svc).len(),
        ready_held(ready_keys_insert(keys, key), ready_services_insert(keys, ready, key, svc), key, svc),
        forall|k: u64, s: S|
            k != key && #[trigger] ready_held(keys, ready, k, s) ==> ready_held(
                ready_keys_insert(keys, key),
                ready_services_insert(keys, ready, key, svc),
                k,
                s,
            ),
        forall|j: int|
            0 <= j < ready_services_insert(keys, ready, key, svc).len() ==> (j < keys.len()
                && #[trigger] ready_keys_insert(keys, key)[j] == keys[j] && ready_services_insert(
                keys,
                ready,
                key,
                svc,
            )[j] == ready[j]) || (ready_keys_insert(keys, key)[j] == key && ready_services_insert(
                keys,
                ready,
                key,
                svc,
            )[j] == svc),
{
    let nk = ready_keys_insert(keys, key);
    let nr = ready_services_insert(keys, ready, key, svc);
    if keys.contains(key) {
        let x = keys.index_of(key);
        assert(keys[x] == key);
        assert(nk[x] == key && nr[x] == svc);
    } else {
        assert(nk[keys.len() as int] == key);
        assert(nr[keys.len() as int] == svc);
    }
    assert forall|k: u64, s: S| k != key && #[trigger] ready_held(keys, ready, k, s) implies ready_held(
        nk,
        nr,
        k,
        s,
    ) by {
        let j = choose|j: int|
            0 <= j < ready.len() && j < keys.len() && #[trigger] keys[j] == k && ready[j] == s;
        assert(nk[j] == keys[j]);
        if keys.contains(key) {
            let x = keys.index_of(key);
            assert(j != x);
        }
        assert(nr[j] == ready[j]);
    }
}

/// What became of an entry is kept by a change that keeps its key's
/// standing in both sets.
proof fn lemma_outcome_transfer<S, E, P: FnMut(u64, S) -> (S, Readiness<E>)>(
    poll: P,
    key: u64,
    svc: S,
    cancelled: bool,
    before: ReadyCache<S>,
    after: ReadyCache<S>,
)
    requires
        pending_outcome::<S, E, P>(poll, key, svc, cancelled, before),
        after.spec_pending_keys().contains(key) ==> before.spec_pending_keys().contains(key),
        forall|s: S| before.spec_holds_ready(key, s) ==> #[trigger] after.spec_holds_ready(key, s),
        forall|s: S, m: bool|
            before.spec_holds_pending(key, s, m) ==> #[trigger] after.spec_holds_pending(key, s, m),
    ensures
        pending_outcome::<S, E, P>(poll, key, svc, cancelled, after),
{
    if cancelled {
    } else if exists|s: S|
        #[trigger] answered(poll, key, svc, s, Readiness::<E>::Ready) && before.spec_holds_ready(key, s) {
        let s = choose|s: S|
            #[trigger] answered(poll, key, svc, s, Readiness::<E>::Ready) && before.spec_holds_ready(key, s);
        assert(after.spec_holds_ready(key, s));
    } else {
        let s = choose|s: S|
            #[trigger] answered(poll, key, svc, s, Readiness::<E>::Pending) && before.spec_holds_pending(
                key,
                s,
                false,
            );
        assert(after.spec_holds_pending(key, s, false));
    }
}

/// A change that keeps the standing of every key but that of the pending
/// entry `o` of `old_p` keeps what became of the entries before `o`.
proof fn lemma_outcomes_transfer<S, E, P: FnMut(u64, S) -> (S, Readiness<E>)>(
    poll: P,
    old_p: Seq<(u64, S)>,
    old_c: Seq<bool>,
    o: int,
    before: ReadyCache<S>,
    after: ReadyCache<S>,
)
    requires
        keys_of(old_p).no_duplicates(),
        0 <= o < old_p.len(),
        old_c.len() == old_p.len(),
        forall|j: int|
            #![trigger old_p[j]]
            0 <= j < o ==> pending_outcome::<S, E, P>(poll, old_p[j].0, old_p[j].1, old_c[j], before),
        forall|k: u64|
            k != old_p[o].0 && after.spec_pending_keys().contains(k) ==> before.spec_pending_keys().contains(k),
        forall|k: u64, s: S|
            k != old_p[o].0 && #[trigger] before.spec_holds_ready(k, s) ==> after.spec_holds_ready(k, s),
        forall|k: u64, s: S, m: bool|
            k != old_p[o].0 && #[trigger] before.spec_holds_pending(k, s, m) ==> after.spec_holds_pending(
                k,
                s,
                m,
            ),
    ensures
        forall|j: int|
            #![trigger old_p[j]]
            0 <= j < o ==> pending_outcome::<S, E, P>(poll, old_p[j].0, old_p[j].1, old_c[j], after),
{
    assert forall|j: int| #![trigger old_p[j]] 0 <= j < o implies pending_outcome::<S, E, P>(
        poll,
        old_p[j].0,
        old_p[j].1,
        old_c[j],
        after,
    ) by {
        assert(keys_of(old_p)[j] == old_p[j].0);
        assert(keys_of(old_p)[o] == old_p[o].0);
        assert(old_p[j].0 != old_p[o].0);
        lemma_outcome_transfer::<S, E, P>(poll, old_p[j].0, old_p[j].1, old_c[j], before, after);
    }
}

impl<S> Default for ReadyCache<S> {
    fn default() -> (c: Self)
        ensures
            c.wf(),
            c.spec_pending() == Seq::<(u64, S)>::empty(),
            c.spec_ready_keys() == Seq::<u64>::empty(),
            c.spec_ready() == Seq::<S>::empty(),
    {
        ReadyCache::new()
    }
}

/// A service pushed under `key` is pending under that key, with no key
/// twice; once it is promoted it is ready under `key` and no longer pending.
pub proof fn law_push_then_promote<S>(p: Seq<(u64, S)>, ready_keys: Seq<u64>, key: u64, svc: S)
    requires
        keys_of(p).no_duplicates(),
        ready_keys.no_duplicates(),
    ensures
        keys_of(pending_push(p, key, svc)).contains(key),
        keys_of(pending_push(p, key, svc)).no_duplicates(),
        pending_push(p, key, svc)[keys_of(pending_push(p, key, svc)).index_of(key)] == (key, svc),
        !keys_of(
            pending_push(p, key, svc).remove(keys_of(pending_push(p, key, svc)).index_of(key)),
        ).contains(key),
        ready_keys_insert(ready_keys, key).contains(key),
        ready_keys_insert(ready_keys, key).no_duplicates(),
{
    let p2 = pending_push(p, key, svc);
    if keys_of(p).contains(key) {
        let i = keys_of(p).index_of(key);
        lemma_keys_of_update(p, i, key, svc);
        assert(keys_of(p2) == keys_of(p));
        lemma_index_of_unique(keys_of(p), i);
    } else {
        lemma_keys_of_push(p, key, svc);
        let ks = keys_of(p).push(key);
        assert forall|a: int, b: int| 0 <= a < ks.len() && 0 <= b < ks.len() && a != b implies ks[a]
            != ks[b] by {
            if a == ks.len() - 1 {
                assert(ks[b] == keys_of(p)[b]);
            } else if b == ks.len() - 1 {
                assert(ks[a] == keys_of(p)[a]);
            }
        }
        assert(ks[ks.len() - 1] == key);
        lemma_index_of_unique(ks, ks.len() - 1);
    }
    let i = keys_of(p2).index_of(key);
    lemma_keys_of_remove(p2, i);
    if !ready_keys.contains(key) {
        let ks = ready_keys.push(key);
        assert(ks[ks.len() - 1] == key);
        assert forall|a: int, b: int| 0 <= a < ks.len() && 0 <= b < ks.len() && a != b implies ks[a]
            != ks[b] by {
            if a == ks.len() - 1 {
                assert(ks[b] == ready_keys[b]);
            } else if b == ks.len() - 1 {
                assert(ks[a] == ready_keys[a]);
            }
        }
    }
}

/// A ready service that is called or found unready goes back to the
/// pending set: afterwards its key is pending, whether the service itself
/// was pushed or a newer one with its key was already there.
pub proof fn law_returned_key_is_pending<S>(p: Seq<(u64, S)>, key: u64, svc: S)
    ensures
        keys_of(pending_return(p, key, svc)).contains(key),
        keys_of(p).contains(key) ==> pending_return(p, key, svc) == p,
{
    if !keys_of(p).contains(key) {
        lemma_keys_of_push(p, key, svc);
        assert(keys_of(p).push(key)[keys_of(p).len() as int] == key);
    }
}

} // verus!
