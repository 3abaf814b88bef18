//! Power-of-two-choices load balancing over a dynamic set of services.
//!
//! Services are discovered as a stream of [`Change`]s and kept in a
//! [`ReadyCache`]. To select a service, two distinct ready services are
//! drawn at random and the less loaded one is chosen. The selection is
//! checked for readiness right before a request is dispatched, and a
//! removal of any service invalidates it, since removals perturb the order
//! of the ready set.

use crate::discover::Change;
use crate::load::{Load, Metric};
use crate::readiness::{reported, reported_failure, Call, Readiness};
use crate::ready_cache::{Failed, ReadyCache};
use crate::rng::{sample_two_indices, small_rng_from_entropy, small_rng_from_rng};
use rand::rngs::SmallRng;
use vstd::prelude::*;

verus! {

/// What promoting the pending services with `poll` until none fails made
/// of the pending entry under `key`, cancelled if `cancelled`, as `after`
/// shows it: a cancelled entry is dropped; any other is ready under `key`,
/// and no longer pending, with a service that `poll` gave back reported
/// ready, or pending under `key` with a service that `poll` gave back
/// reported not ready, or dropped after `poll` reported it failed.
pub open spec fn promotion_outcome<S, E, P: FnMut(u64, S) -> (S, Readiness<E>)>(
    poll: P,
    key: u64,
    cancelled: bool,
    after: ReadyCache<S>,
) -> bool {
    ||| cancelled && !after.spec_pending_keys().contains(key)
    ||| !cancelled && !after.spec_pending_keys().contains(key) && exists|s: S|
        #[trigger] reported(poll, key, s, Readiness::<E>::Ready) && after.spec_holds_ready(key, s)
    ||| !cancelled && exists|s: S|
        #[trigger] reported(poll, key, s, Readiness::<E>::Pending) && after.spec_holds_pending(
            key,
            s,
            false,
        )
    ||| !cancelled && !after.spec_pending_keys().contains(key) && reported_failure(poll, key)
}

/// An error returned when the balancer's endpoint discovery stream fails.
#[derive(Debug)]
pub struct Discover<E>(pub E);

/// A new generator seeded from `rng`. Seeding a `SmallRng` from another
/// cannot fail.
pub(crate) fn seeded_from(rng: SmallRng) -> SmallRng {
    match small_rng_from_rng(rng) {
        Ok(r) => r,
        Err(_) => {
            proof {
                assert(false);
            }
            small_rng_from_entropy()
        },
    }
}

/// Whether `sel` is a choice that power-of-two-choices may make over the
/// ready services `ready`: the only one, or of two distinct ones, the one
/// whose load is no greater, the first on a tie.
pub open spec fn p2c_choice<S: Load>(ready: Seq<S>, sel: usize) -> bool {
    &&& sel < ready.len()
    &&& ready.len() == 1 ==> sel == 0
    &&& ready.len() >= 2 ==> exists|a: usize, b: usize, la: S::Metric, lb: S::Metric|
        #![trigger ready[a as int].spec_load(la), ready[b as int].spec_load(lb)]
        a != b && a < ready.len() && b < ready.len() && ready[a as int].spec_load(la)
            && ready[b as int].spec_load(lb) && sel == (if la.spec_le(&lb) {
            a
        } else {
            b
        })
}

/// Of two candidates, the one with the lesser load; the first on a tie.
pub fn p2c_choose<M: Metric>(aidx: usize, aload: &M, bidx: usize, bload: &M) -> (chosen: usize)
    ensures
        chosen == if aload.spec_le(bload) {
            aidx
        } else {
            bidx
        },
{
    if aload.le(bload) {
        aidx
    } else {
        bidx
    }
}

/// Efficiently distributes requests across an arbitrary number of services.
pub struct Balance<S> {
    services: ReadyCache<S>,
    ready_index: Option<usize>,
    rng: SmallRng,
}

impl<S> Balance<S> {
    /// The cache of discovered services.
    pub closed spec fn spec_services(&self) -> ReadyCache<S> {
        self.services
    }

    /// The position of the selected ready service, if any.
    pub closed spec fn spec_ready_index(&self) -> Option<usize> {
        self.ready_index
    }

    /// The balancer's invariant: the cache is well formed and a selection
    /// is a valid position in the ready set.
    pub open spec fn wf(&self) -> bool {
        &&& self.spec_services().wf()
        &&& self.spec_ready_index() matches Some(i) ==> i < self.spec_services().spec_ready().len()
    }

    /// Constructs a load balancer that uses operating system entropy.
    pub fn new() -> (b: Self)
        ensures
            b.wf(),
            b.spec_services().spec_pending().len() == 0,
            b.spec_services().spec_ready().len() == 0,
            b.spec_ready_index() is None,
    {
        Balance { services: ReadyCache::new(), ready_index: None, rng: small_rng_from_entropy() }
    }

    /// Constructs a load balancer whose generator is seeded from `rng`.
    pub fn from_rng(rng: SmallRng) -> (b: Self)
        ensures
            b.wf(),
            b.spec_services().spec_pending().len() == 0,
            b.spec_services().spec_ready().len() == 0,
            b.spec_ready_index() is None,
    {
        Balance { services: ReadyCache::new(), ready_index: None, rng: seeded_from(rng) }
    }

    /// Returns the number of endpoints currently tracked by the balancer.
    pub fn len(&self) -> (n: usize)
        requires
            self.wf(),
            self.spec_services().spec_ready().len() + self.spec_services().spec_pending().len()
                <= usize::MAX,
        ensures
            n == self.spec_services().spec_ready().len() + self.spec_services().spec_pending().len(),
    {
        self.services.len()
    }

    /// Returns whether or not the balancer is empty.
    pub fn is_empty(&self) -> (b: bool)
        requires
            self.wf(),
        ensures
            b == (self.spec_services().spec_ready().len() == 0
                && self.spec_services().spec_pending().len() == 0),
    {
        self.services.is_empty()
    }

    /// The cache of discovered services.
    pub fn services(&self) -> (c: &ReadyCache<S>)
        ensures
            *c == self.spec_services(),
    {
        &self.services
    }

    /// The position of the selected ready service, if any.
    pub fn ready_index(&self) -> (r: Option<usize>)
        ensures
            r == self.spec_ready_index(),
    {
        self.ready_index
    }

    /// Applies a change from the discovery stream. An insertion pushes the
    /// service onto the pending set; a removal evicts it and discards the
    /// current selection, since eviction may move another ready service
    /// into the selected position.
    pub fn update(&mut self, change: Change<u64, S>)
        requires
            old(self).wf(),
        ensures
            final(self).wf(),
            change matches Change::Insert(k, s) ==> final(self).spec_services().spec_pending()
                == crate::ready_cache::pending_push(old(self).spec_services().spec_pending(), k, s)
                && final(self).spec_services().spec_ready_keys() == old(self).spec_services().spec_ready_keys() && final(self).spec_services().spec_ready() == old(self).spec_services().spec_ready() && final(self).spec_ready_index() == old(self).spec_ready_index(),
            change matches Change::Remove(k) ==> !final(self).spec_services().spec_ready_keys().contains(
                k,
            ) && final(self).spec_ready_index() is None && final(self).spec_services().spec_pending()
                == old(self).spec_services().spec_pending() && (old(self).spec_services().spec_pending_keys().contains(k)
                ==> final(self).spec_services().spec_cancelled()[old(self).spec_services().spec_pending_keys().index_of(k)]),
            change matches Change::Insert(k, s) ==> final(self).spec_services().spec_cancelled()
                == crate::ready_cache::cancelled_push(
                old(self).spec_services().spec_pending(),
                old(self).spec_services().spec_cancelled(),
                k,
            ),
    {
        match change {
            Change::Insert(key, svc) => {
                self.services.push(key, svc);
            },
            Change::Remove(key) => {
                let _ = self.services.evict(key);
                self.ready_index = None;
            },
        }
    }

    /// A mutable reference to the pending service at position `idx`, to
    /// poll it for readiness.
    pub fn pending_index_mut(&mut self, idx: usize) -> (r: &mut S)
        requires
            old(self).wf(),
            idx < old(self).spec_services().spec_pending().len(),
        ensures
            final(self).wf(),
            *r == old(self).spec_services().spec_pending()[idx as int].1,
            final(self).spec_services().spec_pending() == old(self).spec_services().spec_pending().update(
                idx as int,
                (old(self).spec_services().spec_pending()[idx as int].0, *final(r)),
            ),
            final(self).spec_services().spec_ready_keys() == old(self).spec_services().spec_ready_keys(),
            final(self).spec_services().spec_ready() == old(self).spec_services().spec_ready(),
            final(self).spec_ready_index() == old(self).spec_ready_index(),
    {
        self.services.get_pending_index_mut(idx)
    }

    /// Promotes the pending service at `idx`, which has become ready. This
    /// does not disturb the positions of the ready services, so the
    /// selection stays valid.
    pub fn promote_pending(&mut self, idx: usize)
        requires
            old(self).wf(),
            idx < old(self).spec_services().spec_pending().len(),
        ensures
            final(self).wf(),
            final(self).spec_services().spec_pending() == old(self).spec_services().spec_pending().remove(idx as int),
            final(self).spec_services().spec_ready_keys() == crate::ready_cache::ready_keys_insert(
                old(self).spec_services().spec_ready_keys(),
                old(self).spec_services().spec_pending()[idx as int].0,
            ),
            final(self).spec_services().spec_ready() == crate::ready_cache::ready_services_insert(
                old(self).spec_services().spec_ready_keys(),
                old(self).spec_services().spec_ready(),
                old(self).spec_services().spec_pending()[idx as int].0,
                old(self).spec_services().spec_pending()[idx as int].1,
            ),
            final(self).spec_ready_index() == old(self).spec_ready_index(),
    {
        self.services.promote_pending(idx);
    }

    /// Drops the pending service at `idx`, which failed to become ready.
    pub fn fail_pending<E>(&mut self, idx: usize, error: E) -> (r: Failed<E>)
        requires
            old(self).wf(),
            idx < old(self).spec_services().spec_pending().len(),
        ensures
            final(self).wf(),
            final(self).spec_services().spec_pending() == old(self).spec_services().spec_pending().remove(idx as int),
            final(self).spec_services().spec_ready_keys() == old(self).spec_services().spec_ready_keys(),
            final(self).spec_services().spec_ready() == old(self).spec_services().spec_ready(),
            final(self).spec_ready_index() == old(self).spec_ready_index(),
            r.0 == old(self).spec_services().spec_pending()[idx as int].0,
            r.1 == error,
    {
        self.services.fail_pending(idx, error)
    }

    /// A mutable reference to the ready service at `idx`, to poll it.
    pub fn ready_index_mut(&mut self, idx: usize) -> (r: &mut S)
        requires
            old(self).wf(),
            idx < old(self).spec_services().spec_ready().len(),
        ensures
            final(self).wf(),
            *r == old(self).spec_services().spec_ready()[idx as int],
            final(self).spec_services().spec_ready() == old(self).spec_services().spec_ready().update(idx as int, *final(r)),
            final(self).spec_services().spec_ready_keys() == old(self).spec_services().spec_ready_keys(),
            final(self).spec_services().spec_pending() == old(self).spec_services().spec_pending(),
            final(self).spec_ready_index() == old(self).spec_ready_index(),
    {
        self.services.get_ready_index_mut(idx)
    }

    /// Records the readiness of the selected service, which the caller has
    /// just polled. The selection is kept only if the service is still
    /// ready; otherwise it is handled as [`ReadyCache::check_ready_index`]
    /// says and the selection is discarded.
    pub fn check_selected<E>(&mut self, poll: Readiness<E>) -> (r: Result<bool, Failed<E>>)
        requires
            old(self).wf(),
            old(self).spec_ready_index() is Some,
        ensures
            final(self).wf(),
            r matches Ok(true) ==> final(self).spec_ready_index() == old(self).spec_ready_index()
                && final(self).spec_services() == old(self).spec_services(),
            !(r matches Ok(true)) ==> final(self).spec_ready_index() is None,
            poll is Ready <==> r matches Ok(true),
            poll is Pending ==> r matches Ok(false),
            poll is Failed ==> r is Err,
            r matches Err(f) ==> f.0 == old(self).spec_services().spec_ready_keys()[old(self).spec_ready_index()->0 as int],
            !(r matches Ok(true)) ==> final(self).spec_services().spec_ready().len() == old(self).spec_services().spec_ready().len() - 1,
            !(poll is Ready) ==> final(self).spec_services().spec_ready_keys() == crate::index_set::seq_swap_remove(
                old(self).spec_services().spec_ready_keys(),
                old(self).spec_ready_index()->0 as int,
            ) && final(self).spec_services().spec_ready() == crate::index_set::seq_swap_remove(
                old(self).spec_services().spec_ready(),
                old(self).spec_ready_index()->0 as int,
            ),
            poll is Pending ==> final(self).spec_services().spec_pending() == crate::ready_cache::pending_return(
                old(self).spec_services().spec_pending(),
                old(self).spec_services().spec_ready_keys()[old(self).spec_ready_index()->0 as int],
                old(self).spec_services().spec_ready()[old(self).spec_ready_index()->0 as int],
            ) && final(self).spec_services().spec_cancelled() == crate::ready_cache::cancelled_return(
                old(self).spec_services().spec_pending(),
                old(self).spec_services().spec_cancelled(),
                old(self).spec_services().spec_ready_keys()[old(self).spec_ready_index()->0 as int],
            ),
            poll is Failed ==> final(self).spec_services().spec_pending() == old(self).spec_services().spec_pending()
                && final(self).spec_services().spec_cancelled() == old(self).spec_services().spec_cancelled(),
            forall|k: u64| #[trigger]
                final(self).spec_services().spec_tracks(k) ==> old(self).spec_services().spec_tracks(k),
            !(poll is Failed) ==> forall|k: u64|
                #[trigger] old(self).spec_services().spec_tracks(k) ==> final(self).spec_services().spec_tracks(k),
            forall|k: u64|
                #[trigger] old(self).spec_services().spec_tracks(k) ==> final(self).spec_services().spec_tracks(k)
                    || k == old(self).spec_services().spec_ready_keys()[old(self).spec_ready_index()->0 as int],
    {
        let index = match self.ready_index {
            Some(i) => i,
            None => 0,
        };
        self.ready_index = None;
        let r = self.services.check_ready_index(index, poll);
        match r {
            Ok(true) => {
                self.ready_index = Some(index);
            },
            _ => {},
        }
        r
    }

    /// Dispatches `request` to the selected service, which then goes back
    /// to the pending set. The selection is consumed.
    pub fn call<Req>(&mut self, request: Req) -> (fut: S::Future) where S: Call<Req>
        requires
            old(self).wf(),
            old(self).spec_ready_index() is Some,
        ensures
            final(self).wf(),
            final(self).spec_ready_index() is None,
            final(self).spec_services().spec_ready_keys() == crate::index_set::seq_swap_remove(
                old(self).spec_services().spec_ready_keys(),
                old(self).spec_ready_index()->0 as int,
            ),
            final(self).spec_services().spec_ready() == crate::index_set::seq_swap_remove(
                old(self).spec_services().spec_ready(),
                old(self).spec_ready_index()->0 as int,
            ),
            exists|svc: S|
                #![trigger old(self).spec_services().spec_ready()[old(self).spec_ready_index()->0 as int].spec_call(request, svc, fut)]
                old(self).spec_services().spec_ready()[old(self).spec_ready_index()->0 as int].spec_call(
                    request,
                    svc,
                    fut,
                ) && final(self).spec_services().spec_pending() == crate::ready_cache::pending_return(
                    old(self).spec_services().spec_pending(),
                    old(self).spec_services().spec_ready_keys()[old(self).spec_ready_index()->0 as int],
                    svc,
                ),
    {
        let index = match self.ready_index {
            Some(i) => i,
            None => 0,
        };
        self.ready_index = None;
        self.services.call_ready_index(index, request)
    }
}

impl<S> Balance<S> {
    /// Polls the pending endpoints with `poll` until none fails, promoting
    /// those that are ready; failed endpoints are dropped. `poll` is handed
    /// each endpoint with its key and hands it back with its readiness. The positions of
    /// the ready endpoints, and so the selection, are not disturbed.
    pub fn promote_pending_to_ready<E, P: FnMut(u64, S) -> (S, Readiness<E>)>(&mut self, poll: &mut P)
        requires
            old(self).wf(),
            forall|k: u64, s: S| call_requires(*old(poll), (k, s)),
        ensures
            final(self).wf(),
            *final(poll) == *old(poll),
            final(self).spec_ready_index() == old(self).spec_ready_index(),
            final(self).spec_services().spec_ready().len() >= old(self).spec_services().spec_ready().len(),
            forall|j: int|
                0 <= j < old(self).spec_services().spec_ready_keys().len() ==> final(self).spec_services().spec_ready_keys()[j] == old(self).spec_services().spec_ready_keys()[j],
            forall|k: u64| #[trigger]
                final(self).spec_services().spec_tracks(k) ==> old(self).spec_services().spec_tracks(k),
            forall|j: int|
                #![trigger old(self).spec_services().spec_pending()[j]]
                0 <= j < old(self).spec_services().spec_pending().len() ==> promotion_outcome::<S, E, P>(
                    *old(poll),
                    old(self).spec_services().spec_pending()[j].0,
                    old(self).spec_services().spec_cancelled()[j],
                    final(self).spec_services(),
                ) || final(self).spec_services().spec_holds_pending(
                    old(self).spec_services().spec_pending()[j].0,
                    old(self).spec_services().spec_pending()[j].1,
                    old(self).spec_services().spec_cancelled()[j],
                ),
            forall|m: int|
                0 <= m < final(self).spec_services().spec_pending().len() ==> !#[trigger] final(self).spec_services().spec_cancelled()[m],
            forall|m: int|
                #![trigger final(self).spec_services().spec_pending()[m]]
                0 <= m < final(self).spec_services().spec_pending().len() ==> reported(
                    *old(poll),
                    final(self).spec_services().spec_pending()[m].0,
                    final(self).spec_services().spec_pending()[m].1,
                    Readiness::<E>::Pending,
                ),
            forall|j: int|
                #![trigger final(self).spec_services().spec_ready()[j]]
                0 <= j < final(self).spec_services().spec_ready().len() ==> (j < old(self).spec_services().spec_ready().len()
                    && final(self).spec_services().spec_ready()[j] == old(self).spec_services().spec_ready()[j])
                    || reported(
                    *old(poll),
                    final(self).spec_services().spec_ready_keys()[j],
                    final(self).spec_services().spec_ready()[j],
                    Readiness::<E>::Ready,
                ),
            forall|k: u64|
                #![trigger old(self).spec_services().spec_tracks(k)]
                old(self).spec_services().spec_tracks(k) ==> final(self).spec_services().spec_tracks(k)
                    || old(self).spec_services().spec_cancelled_key(k) || reported_failure(*old(poll), k),
    {
        proof {
            assert forall|m: int|
                0 <= m < old(self).spec_services().spec_pending().len() && #[trigger] old(self).spec_services().spec_cancelled()[m] implies old(self).spec_services().spec_cancelled_key(
                old(self).spec_services().spec_pending()[m].0,
            ) by {
                let ks = old(self).spec_services().spec_pending_keys();
                assert(ks[m] == old(self).spec_services().spec_pending()[m].0);
                crate::ready_cache::lemma_index_of_unique(ks, m);
            }
        }
        loop
            invariant
                self.wf(),
                old(self).wf(),
                forall|k: u64, s: S| call_requires(*poll, (k, s)),
                *poll == *old(poll),
                forall|k: u64| #[trigger]
                    self.spec_services().spec_tracks(k) ==> old(self).spec_services().spec_tracks(k),
                forall|k: u64|
                    self.spec_services().spec_pending_keys().contains(k) ==> old(self).spec_services().spec_pending_keys().contains(k),
                self.spec_ready_index() == old(self).spec_ready_index(),
                self.spec_services().spec_ready().len() >= old(self).spec_services().spec_ready().len(),
                forall|j: int|
                    0 <= j < old(self).spec_services().spec_ready_keys().len() ==> self.spec_services().spec_ready_keys()[j]
                        == old(self).spec_services().spec_ready_keys()[j],
                forall|j: int|
                    #![trigger old(self).spec_services().spec_pending()[j]]
                    0 <= j < old(self).spec_services().spec_pending().len() ==> promotion_outcome::<S, E, P>(
                        *old(poll),
                        old(self).spec_services().spec_pending()[j].0,
                        old(self).spec_services().spec_cancelled()[j],
                        self.spec_services(),
                    ) || self.spec_services().spec_holds_pending(
                        old(self).spec_services().spec_pending()[j].0,
                        old(self).spec_services().spec_pending()[j].1,
                        old(self).spec_services().spec_cancelled()[j],
                    ),
                forall|m: int|
                    #![trigger self.spec_services().spec_pending()[m]]
                    0 <= m < self.spec_services().spec_pending().len() ==> (!self.spec_services().spec_cancelled()[m]
                        && reported(
                        *old(poll),
                        self.spec_services().spec_pending()[m].0,
                        self.spec_services().spec_pending()[m].1,
                        Readiness::<E>::Pending,
                    )) || old(self).spec_services().spec_holds_pending(
                        self.spec_services().spec_pending()[m].0,
                        self.spec_services().spec_pending()[m].1,
                        self.spec_services().spec_cancelled()[m],
                    ),
                forall|m: int|
                    0 <= m < self.spec_services().spec_pending().len()
                        && #[trigger] self.spec_services().spec_cancelled()[m]
                        ==> old(self).spec_services().spec_cancelled_key(
                        self.spec_services().spec_pending()[m].0,
                    ),
                forall|j: int|
                    #![trigger self.spec_services().spec_ready()[j]]
                    0 <= j < self.spec_services().spec_ready().len() ==> (j < old(self).spec_services().spec_ready().len()
                        && self.spec_services().spec_ready()[j] == old(self).spec_services().spec_ready()[j])
                        || reported(
                        *old(poll),
                        self.spec_services().spec_ready_keys()[j],
                        self.spec_services().spec_ready()[j],
                        Readiness::<E>::Ready,
                    ),
            ensures
                forall|m: int|
                    0 <= m < self.spec_services().spec_pending().len() ==> !#[trigger] self.spec_services().spec_cancelled()[m],
                forall|m: int|
                    #![trigger self.spec_services().spec_pending()[m]]
                    0 <= m < self.spec_services().spec_pending().len() ==> reported(
                        *old(poll),
                        self.spec_services().spec_pending()[m].0,
                        self.spec_services().spec_pending()[m].1,
                        Readiness::<E>::Pending,
                    ),
            decreases self.spec_services().spec_ready().len() + self.spec_services().spec_pending().len(),
        {
            let ghost mid = self.spec_services();
            let r = self.services.poll_pending(poll);
            proof {
                let after = self.spec_services();
                assert forall|j: int|
                    #![trigger old(self).spec_services().spec_pending()[j]]
                    0 <= j < old(self).spec_services().spec_pending().len() implies promotion_outcome::<S, E, P>(
                        *old(poll),
                        old(self).spec_services().spec_pending()[j].0,
                        old(self).spec_services().spec_cancelled()[j],
                        after,
                    ) || after.spec_holds_pending(
                        old(self).spec_services().spec_pending()[j].0,
                        old(self).spec_services().spec_pending()[j].1,
                        old(self).spec_services().spec_cancelled()[j],
                    ) by {
                    lemma_round_outcome::<S, E, P>(
                        *old(poll),
                        old(self).spec_services().spec_pending()[j].0,
                        old(self).spec_services().spec_pending()[j].1,
                        old(self).spec_services().spec_cancelled()[j],
                        mid,
                        after,
                        r,
                    );
                }
                assert forall|m: int|
                    #![trigger after.spec_pending()[m]]
                    0 <= m < after.spec_pending().len() implies (!after.spec_cancelled()[m]
                        && reported(
                        *old(poll),
                        after.spec_pending()[m].0,
                        after.spec_pending()[m].1,
                        Readiness::<E>::Pending,
                    )) || old(self).spec_services().spec_holds_pending(
                        after.spec_pending()[m].0,
                        after.spec_pending()[m].1,
                        after.spec_cancelled()[m],
                    ) by {
                    if !(!after.spec_cancelled()[m] && reported(
                        *old(poll),
                        after.spec_pending()[m].0,
                        after.spec_pending()[m].1,
                        Readiness::<E>::Pending,
                    )) {
                        let e = after.spec_pending()[m];
                        assert(mid.spec_holds_pending(e.0, e.1, after.spec_cancelled()[m]));
                        let m2 = choose|m2: int|
                            0 <= m2 < mid.spec_pending().len() && #[trigger] mid.spec_pending()[m2] == (e.0, e.1)
                                && mid.spec_cancelled()[m2] == after.spec_cancelled()[m];
                        assert(mid.spec_pending()[m2] == e);
                    }
                }
                assert forall|m: int|
                    0 <= m < after.spec_pending().len() && #[trigger] after.spec_cancelled()[m]
                        implies old(self).spec_services().spec_cancelled_key(after.spec_pending()[m].0) by {
                    let k = after.spec_pending()[m].0;
                    assert(mid.spec_cancelled_key(k));
                    let idx = mid.spec_pending_keys().index_of(k);
                    assert(mid.spec_cancelled()[idx]);
                    assert(mid.spec_pending_keys()[idx] == k);
                    assert(mid.spec_pending()[idx].0 == k);
                }
                assert forall|j: int|
                    #![trigger after.spec_ready()[j]]
                    0 <= j < after.spec_ready().len() implies (j < old(self).spec_services().spec_ready().len()
                        && after.spec_ready()[j] == old(self).spec_services().spec_ready()[j])
                        || reported(
                        *old(poll),
                        after.spec_ready_keys()[j],
                        after.spec_ready()[j],
                        Readiness::<E>::Ready,
                    ) by {
                    if j < mid.spec_ready().len() && after.spec_ready()[j] == mid.spec_ready()[j] {
                        assert(after.spec_ready_keys()[j] == mid.spec_ready_keys()[j]);
                        assert(mid.spec_ready()[j] == mid.spec_ready()[j]);
                    }
                }
            }
            match r {
                Ok(_) => {
                    break ;
                },
                Err(_failed) => {},
            }
        }
        proof {
            let after = self.spec_services();
            assert forall|k: u64|
                #![trigger old(self).spec_services().spec_tracks(k)]
                old(self).spec_services().spec_tracks(k) implies after.spec_tracks(k)
                    || old(self).spec_services().spec_cancelled_key(k) || reported_failure(*old(poll), k) by {
                let o = old(self).spec_services();
                if o.spec_ready_keys().contains(k) {
                    let j = o.spec_ready_keys().index_of(k);
                    assert(after.spec_ready_keys()[j] == k);
                } else {
                    let j = o.spec_pending_keys().index_of(k);
                    assert(o.spec_pending_keys()[j] == k);
                    assert(o.spec_pending()[j].0 == k);
                    crate::ready_cache::lemma_index_of_unique(o.spec_pending_keys(), j);
                    if after.spec_holds_pending(k, o.spec_pending()[j].1, o.spec_cancelled()[j]) {
                        lemma_holds_tracks(after, k, o.spec_pending()[j].1, o.spec_cancelled()[j]);
                    } else {
                        assert(promotion_outcome::<S, E, P>(*old(poll), k, o.spec_cancelled()[j], after));
                        if exists|s: S| #[trigger] reported(*old(poll), k, s, Readiness::<E>::Ready) && after.spec_holds_ready(k, s) {
                            let s = choose|s: S| #[trigger] reported(*old(poll), k, s, Readiness::<E>::Ready) && after.spec_holds_ready(k, s);
                            lemma_holds_ready_tracks(after, k, s);
                        } else if exists|s: S| #[trigger] reported(*old(poll), k, s, Readiness::<E>::Pending) && after.spec_holds_pending(k, s, false) {
                            let s = choose|s: S| #[trigger] reported(*old(poll), k, s, Readiness::<E>::Pending) && after.spec_holds_pending(k, s, false);
                            lemma_holds_tracks(after, k, s, false);
                        }
                    }
                }
            }
        }
    }
}

/// A pending entry held under `key` keeps `key` tracked.
proof fn lemma_holds_tracks<S>(c: ReadyCache<S>, key: u64, svc: S, cancelled: bool)
    requires
        c.spec_holds_pending(key, svc, cancelled),
    ensures
        c.spec_pending_keys().contains(key),
{
    let m = choose|m: int|
        0 <= m < c.spec_pending().len() && #[trigger] c.spec_pending()[m] == (key, svc) && c.spec_cancelled()[m]
            == cancelled;
    assert(c.spec_pending_keys()[m] == key);
}

/// A ready service held under `key` keeps `key` tracked.
proof fn lemma_holds_ready_tracks<S>(c: ReadyCache<S>, key: u64, svc: S)
    requires
        c.spec_holds_ready(key, svc),
    ensures
        c.spec_ready_keys().contains(key),
{
    let j = choose|j: int|
        0 <= j < c.spec_ready().len() && j < c.spec_ready_keys().len() && #[trigger] c.spec_ready_keys()[j] == key
            && c.spec_ready()[j] == svc;
    assert(c.spec_ready_keys()[j] == key);
}

/// One round of polling the pending services carries what became of an
/// entry under `key` so far: an entry still pending is polled (or left as
/// it was), and one already settled stays settled.
proof fn lemma_round_outcome<S, E, P: FnMut(u64, S) -> (S, Readiness<E>)>(
    poll: P,
    key: u64,
    svc: S,
    cancelled: bool,
    mid: ReadyCache<S>,
    after: ReadyCache<S>,
    r: Result<bool, Failed<E>>,
)
    requires
        mid.wf(),
        promotion_outcome::<S, E, P>(poll, key, cancelled, mid) || mid.spec_holds_pending(key, svc, cancelled),
        forall|m: int|
            #![trigger mid.spec_pending()[m]]
            0 <= m < mid.spec_pending().len() ==> ({
                let k = mid.spec_pending()[m].0;
                let v = mid.spec_pending()[m].1;
                let c = mid.spec_cancelled()[m];
                ||| crate::ready_cache::pending_outcome::<S, E, P>(poll, k, v, c, after)
                ||| (r matches Err(f) && f.0 == k && !c && !after.spec_pending_keys().contains(k)
                    && exists|s: S|
                    #[trigger] crate::readiness::answered(poll, k, v, s, Readiness::<E>::Failed(f.1)))
                ||| (r is Err && after.spec_holds_pending(k, v, c))
            }),
        forall|k: u64|
            after.spec_pending_keys().contains(k) ==> mid.spec_pending_keys().contains(k),
        forall|k: u64, s: S|
            #[trigger] mid.spec_holds_ready(k, s) && !mid.spec_pending_keys().contains(k)
                ==> after.spec_holds_ready(k, s),
    ensures
        promotion_outcome::<S, E, P>(poll, key, cancelled, after) || after.spec_holds_pending(key, svc, cancelled),
{
    let pend = exists|s: S|
        #[trigger] reported(poll, key, s, Readiness::<E>::Pending) && mid.spec_holds_pending(key, s, false);
    if !cancelled && pend {
        let w = choose|s: S|
            #[trigger] reported(poll, key, s, Readiness::<E>::Pending) && mid.spec_holds_pending(key, s, false);
        lemma_round_entry::<S, E, P>(poll, key, w, false, mid, after, r);
        if after.spec_holds_pending(key, w, false) {
            assert(promotion_outcome::<S, E, P>(poll, key, cancelled, after));
        }
    } else if mid.spec_holds_pending(key, svc, cancelled) {
        lemma_round_entry::<S, E, P>(poll, key, svc, cancelled, mid, after, r);
    } else {
        if !cancelled && exists|s: S|
            #[trigger] reported(poll, key, s, Readiness::<E>::Ready) && mid.spec_holds_ready(key, s) {
            let s = choose|s: S|
                #[trigger] reported(poll, key, s, Readiness::<E>::Ready) && mid.spec_holds_ready(key, s);
            assert(after.spec_holds_ready(key, s));
        }
    }
}

/// One round of polling the pending services settles, or leaves as it
/// was, the pending entry `svc` under `key`.
proof fn lemma_round_entry<S, E, P: FnMut(u64, S) -> (S, Readiness<E>)>(
    poll: P,
    key: u64,
    svc: S,
    cancelled: bool,
    mid: ReadyCache<S>,
    after: ReadyCache<S>,
    r: Result<bool, Failed<E>>,
)
    requires
        mid.wf(),
        mid.spec_holds_pending(key, svc, cancelled),
        forall|m: int|
            #![trigger mid.spec_pending()[m]]
            0 <= m < mid.spec_pending().len() ==> ({
                let k = mid.spec_pending()[m].0;
                let v = mid.spec_pending()[m].1;
                let c = mid.spec_cancelled()[m];
                ||| crate::ready_cache::pending_outcome::<S, E, P>(poll, k, v, c, after)
                ||| (r matches Err(f) && f.0 == k && !c && !after.spec_pending_keys().contains(k)
                    && exists|s: S|
                    #[trigger] crate::readiness::answered(poll, k, v, s, Readiness::<E>::Failed(f.1)))
                ||| (r is Err && after.spec_holds_pending(k, v, c))
            }),
    ensures
        promotion_outcome::<S, E, P>(poll, key, cancelled, after) || after.spec_holds_pending(key, svc, cancelled),
{
    let m = choose|m: int|
        0 <= m < mid.spec_pending().len() && #[trigger] mid.spec_pending()[m] == (key, svc) && mid.spec_cancelled()[m]
            == cancelled;
    assert(mid.spec_pending()[m] == (key, svc));
    if crate::ready_cache::pending_outcome::<S, E, P>(poll, key, svc, cancelled, after) {
        if cancelled {
        } else if exists|s: S|
            #[trigger] crate::readiness::answered(poll, key, svc, s, Readiness::<E>::Pending)
                && after.spec_holds_pending(key, s, false) {
            let s = choose|s: S|
                #[trigger] crate::readiness::answered(poll, key, svc, s, Readiness::<E>::Pending)
                    && after.spec_holds_pending(key, s, false);
            assert(reported(poll, key, s, Readiness::<E>::Pending));
        } else {
            let s = choose|s: S|
                #[trigger] crate::readiness::answered(poll, key, svc, s, Readiness::<E>::Ready)
                    && after.spec_holds_ready(key, s);
            assert(reported(poll, key, s, Readiness::<E>::Ready));
        }
    } else if after.spec_holds_pending(key, svc, cancelled) {
    } else {
        let f = r->Err_0;
        let s = choose|s: S|
            #[trigger] crate::readiness::answered(poll, key, svc, s, Readiness::<E>::Failed(f.1));
        assert(crate::readiness::answered(poll, key, svc, s, Readiness::<E>::Failed(f.1)));
        assert(reported_failure(poll, key));
    }
}

impl<S: Load> Balance<S> {
    /// Accesses a ready endpoint by position and returns its current load.
    fn ready_index_load(&self, index: usize) -> (m: S::Metric)
        requires
            self.wf(),
            index < self.spec_services().spec_ready().len(),
        ensures
            self.spec_services().spec_ready()[index as int].spec_load(m),
    {
        self.services.ready_at(index).load()
    }

    /// Performs power-of-two-choices over the ready services: none when
    /// there are none, the only one when there is one, and otherwise the
    /// less loaded of two distinct ones drawn at random.
    pub fn p2c_ready_index(&mut self) -> (r: Option<usize>)
        requires
            old(self).wf(),
        ensures
            final(self).wf(),
            final(self).spec_services() == old(self).spec_services(),
            final(self).spec_ready_index() == old(self).spec_ready_index(),
            r is None <==> old(self).spec_services().spec_ready().len() == 0,
            old(self).spec_services().spec_ready().len() == 1 ==> r == Some(0usize),
            r matches Some(i) ==> i < old(self).spec_services().spec_ready().len(),
            r matches Some(i) ==> p2c_choice(old(self).spec_services().spec_ready(), i),
    {
        let len = self.services.ready_len();
        if len == 0 {
            None
        } else if len == 1 {
            Some(0)
        } else {
            let (aidx, bidx) = sample_two_indices(&mut self.rng, len);
            let aload = self.ready_index_load(aidx);
            let bload = self.ready_index_load(bidx);
            let r = Some(p2c_choose(aidx, &aload, bidx, &bload));
            assert(self.spec_services().spec_ready()[aidx as int].spec_load(aload));
            assert(self.spec_services().spec_ready()[bidx as int].spec_load(bload));
            r
        }
    }

    /// The readiness check of the balancer: promotes the pending endpoints
    /// that `poll` reports ready, then makes sure that the selected endpoint
    /// is still ready, selecting others by power-of-two-choices as long as
    /// endpoints remain. Unready endpoints go back to pending and failed ones
    /// are dropped on the way. `poll` is handed each endpoint it polls with
    /// its key and hands it back with its readiness.
    ///
    /// Returns `true` with an endpoint selected, and `false` when no endpoint
    /// is ready.
    pub fn poll_ready<E, P: FnMut(u64, S) -> (S, Readiness<E>)>(&mut self, poll: &mut P) -> (ready: bool)
        requires
            old(self).wf(),
            forall|k: u64, s: S| call_requires(*old(poll), (k, s)),
        ensures
            final(self).wf(),
            *final(poll) == *old(poll),
            ready <==> final(self).spec_ready_index() is Some,
            !ready ==> final(self).spec_services().spec_ready().len() == 0,
            forall|k: u64| #[trigger]
                final(self).spec_services().spec_tracks(k) ==> old(self).spec_services().spec_tracks(k),
            ready ==> reported(
                *old(poll),
                final(self).spec_services().spec_ready_keys()[final(self).spec_ready_index()->0 as int],
                final(self).spec_services().spec_ready()[final(self).spec_ready_index()->0 as int],
                Readiness::<E>::Ready,
            ),
            ready ==> final(self).spec_ready_index() == old(self).spec_ready_index() || exists|s: S|
                #[trigger] p2c_choice(
                    final(self).spec_services().spec_ready().update(
                        final(self).spec_ready_index()->0 as int,
                        s,
                    ),
                    final(self).spec_ready_index()->0,
                ),
            forall|m: int|
                0 <= m < final(self).spec_services().spec_pending().len() ==> !#[trigger] final(self).spec_services().spec_cancelled()[m],
            forall|m: int|
                #![trigger final(self).spec_services().spec_pending()[m]]
                0 <= m < final(self).spec_services().spec_pending().len() ==> reported(
                    *old(poll),
                    final(self).spec_services().spec_pending()[m].0,
                    final(self).spec_services().spec_pending()[m].1,
                    Readiness::<E>::Pending,
                ),
            forall|j: int|
                #![trigger final(self).spec_services().spec_ready()[j]]
                0 <= j < final(self).spec_services().spec_ready().len() ==> old(self).spec_services().spec_holds_ready(
                    final(self).spec_services().spec_ready_keys()[j],
                    final(self).spec_services().spec_ready()[j],
                ) || reported(
                    *old(poll),
                    final(self).spec_services().spec_ready_keys()[j],
                    final(self).spec_services().spec_ready()[j],
                    Readiness::<E>::Ready,
                ),
            forall|k: u64|
                #![trigger old(self).spec_services().spec_tracks(k)]
                old(self).spec_services().spec_tracks(k) ==> final(self).spec_services().spec_tracks(k)
                    || old(self).spec_services().spec_cancelled_key(k) || reported_failure(*old(poll), k),
    {
        self.promote_pending_to_ready(poll);
        proof {
            let c = self.spec_services();
            assert forall|j: int|
                #![trigger c.spec_ready()[j]]
                0 <= j < c.spec_ready().len() implies old(self).spec_services().spec_holds_ready(
                    c.spec_ready_keys()[j],
                    c.spec_ready()[j],
                ) || reported(*old(poll), c.spec_ready_keys()[j], c.spec_ready()[j], Readiness::<E>::Ready) by {
                if j < old(self).spec_services().spec_ready().len() && c.spec_ready()[j] == old(self).spec_services().spec_ready()[j] {
                    assert(c.spec_ready_keys()[j] == old(self).spec_services().spec_ready_keys()[j]);
                }
            }
        }
        loop
            invariant
                self.wf(),
                forall|k: u64, s: S| call_requires(*poll, (k, s)),
                *poll == *old(poll),
                self.spec_ready_index() matches Some(i) ==> self.spec_ready_index() == old(self).spec_ready_index() || exists|s: S|
                    #[trigger] p2c_choice(self.spec_services().spec_ready().update(i as int, s), i),
                forall|k: u64|
                    #![trigger old(self).spec_services().spec_tracks(k)]
                    old(self).spec_services().spec_tracks(k) ==> self.spec_services().spec_tracks(k)
                        || old(self).spec_services().spec_cancelled_key(k) || reported_failure(*old(poll), k),
                forall|k: u64| #[trigger]
                    self.spec_services().spec_tracks(k) ==> old(self).spec_services().spec_tracks(k),
                forall|m: int|
                    0 <= m < self.spec_services().spec_pending().len() ==> !#[trigger] self.spec_services().spec_cancelled()[m],
                forall|m: int|
                    #![trigger self.spec_services().spec_pending()[m]]
                    0 <= m < self.spec_services().spec_pending().len() ==> reported(
                        *old(poll),
                        self.spec_services().spec_pending()[m].0,
                        self.spec_services().spec_pending()[m].1,
                        Readiness::<E>::Pending,
                    ),
                forall|j: int|
                    #![trigger self.spec_services().spec_ready()[j]]
                    0 <= j < self.spec_services().spec_ready().len() ==> old(self).spec_services().spec_holds_ready(
                        self.spec_services().spec_ready_keys()[j],
                        self.spec_services().spec_ready()[j],
                    ) || reported(
                        *old(poll),
                        self.spec_services().spec_ready_keys()[j],
                        self.spec_services().spec_ready()[j],
                        Readiness::<E>::Ready,
                    ),
            decreases self.spec_services().spec_ready().len() * 2 + if self.spec_ready_index() is None {
                1int
            } else {
                0int
            },
        {
            match self.ready_index {
                Some(i) => {
                    let ghost top = self.spec_services();
                    let ghost key = top.spec_ready_keys()[i as int];
                    let r = self.services.poll_ready_at(i, poll);
                    let ghost polled = self.spec_services();
                    let ghost r0 = r;
                    proof {
                        assert(polled.spec_pending_keys() == top.spec_pending_keys());
                        assert forall|k: u64| #[trigger] polled.spec_tracks(k) == top.spec_tracks(k) by {}
                    }
                    let checked = self.check_selected(r);
                    proof {
                        let now = self.spec_services();
                        let s1 = polled.spec_ready()[i as int];
                        assert(crate::readiness::answered(*old(poll), key, top.spec_ready()[i as int], s1, r0));
                        assert forall|k: u64| #[trigger] now.spec_tracks(k) implies old(self).spec_services().spec_tracks(k) by {
                            assert(polled.spec_tracks(k));
                            assert(top.spec_tracks(k));
                        }
                        assert forall|k: u64|
                            #![trigger old(self).spec_services().spec_tracks(k)]
                            old(self).spec_services().spec_tracks(k) implies now.spec_tracks(k)
                                || old(self).spec_services().spec_cancelled_key(k) || reported_failure(*old(poll), k) by {
                            if top.spec_tracks(k) {
                                assert(polled.spec_tracks(k));
                                if !now.spec_tracks(k) {
                                    assert(k == key);
                                    match r0 {
                                        Readiness::Failed(e) => {
                                            assert(crate::readiness::answered(
                                                *old(poll),
                                                key,
                                                top.spec_ready()[i as int],
                                                s1,
                                                Readiness::<E>::Failed(e),
                                            ));
                                        },
                                        _ => {},
                                    }
                                }
                            }
                        }
                        match r0 {
                            Readiness::Ready => {
                                assert(reported(*old(poll), key, s1, Readiness::<E>::Ready));
                                assert forall|j: int|
                                    #![trigger now.spec_ready()[j]]
                                    0 <= j < now.spec_ready().len() implies old(self).spec_services().spec_holds_ready(
                                        now.spec_ready_keys()[j],
                                        now.spec_ready()[j],
                                    ) || reported(*old(poll), now.spec_ready_keys()[j], now.spec_ready()[j], Readiness::<E>::Ready) by {
                                    if j != i {
                                        assert(now.spec_ready()[j] == top.spec_ready()[j]);
                                    }
                                }
                            },
                            _ => {
                                let n = polled.spec_ready().len();
                                assert forall|j: int|
                                    #![trigger now.spec_ready()[j]]
                                    0 <= j < now.spec_ready().len() implies old(self).spec_services().spec_holds_ready(
                                        now.spec_ready_keys()[j],
                                        now.spec_ready()[j],
                                    ) || reported(*old(poll), now.spec_ready_keys()[j], now.spec_ready()[j], Readiness::<E>::Ready) by {
                                    let j2 = if j == i { n - 1 } else { j };
                                    assert(now.spec_ready()[j] == polled.spec_ready()[j2]);
                                    assert(now.spec_ready_keys()[j] == polled.spec_ready_keys()[j2]);
                                    assert(polled.spec_ready()[j2] == top.spec_ready()[j2]);
                                }
                                assert forall|m: int|
                                    0 <= m < now.spec_pending().len() implies !#[trigger] now.spec_cancelled()[m] by {
                                    if m < top.spec_pending().len() {
                                        assert(now.spec_cancelled()[m] == top.spec_cancelled()[m]);
                                    }
                                }
                                assert forall|m: int|
                                    #![trigger now.spec_pending()[m]]
                                    0 <= m < now.spec_pending().len() implies reported(
                                        *old(poll),
                                        now.spec_pending()[m].0,
                                        now.spec_pending()[m].1,
                                        Readiness::<E>::Pending,
                                    ) by {
                                    if m < top.spec_pending().len() {
                                        assert(now.spec_pending()[m] == top.spec_pending()[m]);
                                        assert(now.spec_cancelled()[m] == top.spec_cancelled()[m]);
                                    } else {
                                        assert(now.spec_pending()[m] == (key, s1));
                                        assert(reported(*old(poll), key, s1, Readiness::<E>::Pending));
                                    }
                                }
                            },
                        }
                    }
                    match checked {
                        Ok(true) => {
                            proof {
                                if self.spec_ready_index() != old(self).spec_ready_index() {
                                    let s0 = choose|s: S| #[trigger] p2c_choice(top.spec_ready().update(i as int, s), i);
                                    assert(self.spec_services().spec_ready().update(i as int, s0)
                                        =~= top.spec_ready().update(i as int, s0));
                                }
                            }
                            return true;
                        },
                        _ => {},
                    }
                },
                None => {},
            }
            let sel = self.select();
            match sel {
                None => {
                    return false;
                },
                Some(i) => {
                    proof {
                        let rs = self.spec_services().spec_ready();
                        assert(rs.update(i as int, rs[i as int]) =~= rs);
                        assert(p2c_choice(rs.update(i as int, rs[i as int]), i));
                    }
                },
            }
        }
    }

    /// Selects a ready service by power-of-two-choices, replacing any
    /// previous selection. Returns the selection; `None` means that no
    /// service is ready.
    pub fn select(&mut self) -> (r: Option<usize>)
        requires
            old(self).wf(),
        ensures
            final(self).wf(),
            final(self).spec_services() == old(self).spec_services(),
            final(self).spec_ready_index() == r,
            r is None <==> old(self).spec_services().spec_ready().len() == 0,
            old(self).spec_services().spec_ready().len() == 1 ==> r == Some(0usize),
            r matches Some(i) ==> p2c_choice(old(self).spec_services().spec_ready(), i),
    {
        let r = self.p2c_ready_index();
        self.ready_index = r;
        r
    }
}

} // verus!
