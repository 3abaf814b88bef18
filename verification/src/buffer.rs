//! The decisions of a buffer in front of a service: a worker takes queued
//! requests one at a time, waits for the service to be ready, and
//! dispatches them; once the service fails, every queued and later request
//! is answered with that failure.
//!
//! The queue and the reply channels belong to the caller, which reports
//! what it observes (whether a request was cancelled, what the service's
//! readiness was) and carries out the step decided here.

use crate::readiness::Readiness;
use vstd::prelude::*;

verus! {

/// The error a buffered request fails with.
#[derive(Debug, Clone)]
pub enum BufferError<E> {
    /// The worker is gone and left no error behind.
    Closed,
    /// The service failed with this error.
    Service(E),
}

/// The state shared between a worker and the buffers that feed it: whether
/// the worker has stopped accepting requests, and the error it stopped on.
#[derive(Debug, Clone)]
pub struct Handle<E> {
    closed: bool,
    error: Option<E>,
}

impl<E: Clone> Handle<E> {
    /// Whether the worker has stopped accepting requests.
    pub closed spec fn spec_closed(&self) -> bool {
        self.closed
    }

    /// The error the worker stopped on.
    pub closed spec fn spec_error(&self) -> Option<E> {
        self.error
    }

    /// An open handle with no error.
    pub fn new() -> (h: Self)
        ensures
            !h.spec_closed(),
            h.spec_error() is None,
    {
        Handle { closed: false, error: None }
    }

    /// Whether the worker has stopped accepting requests.
    pub fn is_closed(&self) -> (b: bool)
        ensures
            b == self.spec_closed(),
    {
        self.closed
    }

    /// The error to report once the worker is closed: a clone of the
    /// service's error if there is one, and [`BufferError::Closed`]
    /// otherwise.
    pub fn get_error_on_closed(&self) -> (e: BufferError<E>)
        ensures
            self.spec_error() matches Some(err) ==> (e matches BufferError::Service(c) && cloned(
                err,
                c,
            )),
            self.spec_error() is None ==> e is Closed,
    {
        match &self.error {
            Some(err) => BufferError::Service(err.clone()),
            None => BufferError::Closed,
        }
    }

    /// The error to report if the worker is closed, and `None` while it is
    /// open.
    pub fn try_get_error(&self) -> (e: Option<BufferError<E>>)
        ensures
            !self.spec_closed() ==> e is None,
            self.spec_closed() ==> e is Some,
            self.spec_closed() && self.spec_error() is None ==> e matches Some(BufferError::Closed),
            self.spec_closed() ==> (self.spec_error() matches Some(err) ==> (e matches Some(
                BufferError::Service(c),
            ) && cloned(err, c))),
    {
        if !self.closed {
            return None;
        }
        Some(self.get_error_on_closed())
    }

    /// Records that the service failed with `error`: the handle is closed,
    /// and the error is kept unless an earlier one is. Returns whether the
    /// error was kept.
    pub fn fail(&mut self, error: E) -> (kept: bool)
        ensures
            final(self).spec_closed(),
            kept == old(self).spec_error() is None,
            kept ==> final(self).spec_error() == Some(error),
            !kept ==> final(self).spec_error() == old(self).spec_error(),
    {
        self.closed = true;
        if self.error.is_none() {
            self.error = Some(error);
            true
        } else {
            false
        }
    }
}

/// What the worker does with the request at hand.
#[derive(Debug)]
pub enum WorkerStep<E> {
    /// Answer the request with this error; the service is not polled.
    Reject(BufferError<E>),
    /// Dispatch the request to the ready service and send back its future.
    Dispatch,
    /// Keep the request for the next poll; the worker waits.
    Park,
    /// The service just failed: close the queue and answer the request
    /// with this error.
    Fail(BufferError<E>),
    /// Drop the request unanswered (a failure was already reported).
    Drop,
}

/// The worker that drives a buffered service.
#[derive(Debug)]
pub struct Worker<E> {
    finish: bool,
    failed: Option<E>,
    resumed: bool,
}

impl<E: Clone> Worker<E> {
    /// Whether the queue has been exhausted and the worker is done.
    pub closed spec fn spec_finished(&self) -> bool {
        self.finish
    }

    /// The failure every request is answered with, once the service failed.
    pub closed spec fn spec_failed(&self) -> Option<E> {
        self.failed
    }

    /// Whether a parked request is waiting to be resumed.
    pub closed spec fn spec_parked(&self) -> bool {
        self.resumed
    }

    /// A fresh worker.
    pub fn new() -> (w: Self)
        ensures
            !w.spec_finished(),
            w.spec_failed() is None,
            !w.spec_parked(),
    {
        Worker { finish: false, failed: None, resumed: false }
    }

    /// Whether the worker is done.
    pub fn is_finished(&self) -> (b: bool)
        ensures
            b == self.spec_finished(),
    {
        self.finish
    }

    /// Whether a request is parked, waiting for the service to be ready.
    pub fn has_parked(&self) -> (b: bool)
        ensures
            b == self.spec_parked(),
    {
        self.resumed
    }

    /// Decides whether the parked request is resumed: it is, unless its
    /// caller has gone away (`cancelled`), in which case it is dropped. In
    /// either case no request is parked afterwards. Returns whether to
    /// resume it; the request is then not a first attempt.
    pub fn resume_parked(&mut self, cancelled: bool) -> (resume: bool)
        requires
            !old(self).spec_finished(),
            old(self).spec_parked(),
        ensures
            resume == !cancelled,
            !final(self).spec_parked(),
            final(self).spec_failed() == old(self).spec_failed(),
            !final(self).spec_finished(),
    {
        self.resumed = false;
        !cancelled
    }

    /// Whether a request newly received from the queue is processed: it is
    /// unless its caller has gone away.
    pub fn accept_new(&self, cancelled: bool) -> (accept: bool)
        ensures
            accept == !cancelled,
    {
        !cancelled
    }

    /// Records that the queue is exhausted: no request will ever come.
    pub fn finish(&mut self)
        ensures
            final(self).spec_finished(),
            final(self).spec_failed() == old(self).spec_failed(),
            !final(self).spec_parked(),
    {
        self.finish = true;
        self.resumed = false;
    }

    /// The step for a request at hand while the service has failed: the
    /// request is rejected with that failure, without polling the service.
    /// Returns `None` while the service has not failed, in which case the
    /// service is to be polled and [`Worker::on_readiness`] decides.
    pub fn step_if_failed(&self) -> (s: Option<WorkerStep<E>>)
        ensures
            self.spec_failed() is None ==> s is None,
            self.spec_failed() matches Some(f) ==> (s matches Some(WorkerStep::Reject(
                BufferError::Service(c),
            )) && cloned(f, c)),
            self.spec_failed() is Some ==> forall|p: BufferProgress<E>, r: Readiness<E>|
                #![trigger buffer_step(p, r)]
                p.0 is Some ==> buffer_step(p, r).0 == p.0 && buffer_step(p, r).1 is None
                    && buffer_step(p, r).3 == p.3,
    {
        match &self.failed {
            Some(f) => Some(WorkerStep::Reject(BufferError::Service(f.clone()))),
            None => None,
        }
    }

    /// The step for a request at hand, given the readiness of the service:
    /// a ready service takes it; a service not yet ready makes the worker
    /// park it; a failed service closes the handle and, if this is the first
    /// failure recorded on it, becomes the worker's failure and answers the
    /// request, which is otherwise dropped.
    pub fn on_readiness(&mut self, handle: &mut Handle<E>, readiness: Readiness<E>) -> (s:
        WorkerStep<E>)
        requires
            old(self).spec_failed() is None,
            !old(self).spec_finished(),
            !old(self).spec_parked(),
        ensures
            !final(self).spec_finished(),
            readiness is Ready ==> s is Dispatch && final(self).spec_failed() is None
                && !final(self).spec_parked() && *final(handle) == *old(handle),
            readiness is Pending ==> s is Park && final(self).spec_failed() is None
                && final(self).spec_parked() && *final(handle) == *old(handle),
            readiness matches Readiness::Failed(e) ==> final(handle).spec_closed()
                && !final(self).spec_parked(),
            readiness matches Readiness::Failed(e) ==> (old(handle).spec_error() is None ==> (
            final(handle).spec_error() == Some(e) && (final(self).spec_failed() matches Some(f)
                && cloned(e, f)) && (s matches WorkerStep::Fail(BufferError::Service(c)) && cloned(
                e,
                c,
            )))),
            readiness matches Readiness::Failed(e) ==> (old(handle).spec_error() is Some ==> (s is Drop
                && final(self).spec_failed() is None && final(handle).spec_error() == old(
                handle,
            ).spec_error())),
            old(handle).spec_error() is None ==> forall|p: BufferProgress<E>|
                #![trigger buffer_step(p, readiness)]
                p.0 is None ==> ({
                    let q = buffer_step(p, readiness);
                    &&& (q.0 is Some <==> final(self).spec_failed() is Some)
                    &&& (q.1 is Some <==> final(self).spec_parked())
                    &&& (q.1 is Some ==> q.1 == Some(in_hand(p)))
                    &&& q.3 == if s is Dispatch {
                        p.3.push(in_hand(p))
                    } else {
                        p.3
                    }
                }),
    {
        match readiness {
            Readiness::Ready => WorkerStep::Dispatch,
            Readiness::Pending => {
                self.resumed = true;
                WorkerStep::Park
            },
            Readiness::Failed(e) => {
                let f = e.clone();
                let reply = e.clone();
                let kept = handle.fail(e);
                if kept {
                    self.failed = Some(f);
                    WorkerStep::Fail(BufferError::Service(reply))
                } else {
                    WorkerStep::Drop
                }
            },
        }
    }
}

/// What a buffered request resolves to, given what came back on its reply
/// channel: the service's future when it was dispatched, the service's
/// error when it was rejected, and [`BufferError::Closed`] when the worker
/// dropped the request unanswered.
pub fn resolve_reply<F, E>(reply: Option<Result<F, E>>) -> (r: Result<F, BufferError<E>>)
    ensures
        reply matches Some(Ok(f)) ==> (r matches Ok(g) && g == f),
        reply matches Some(Err(e)) ==> (r matches Err(BufferError::Service(e2)) && e2 == e),
        reply is None ==> r matches Err(BufferError::Closed),
{
    match reply {
        Some(Ok(f)) => Ok(f),
        Some(Err(e)) => Err(BufferError::Service(e)),
        None => Err(BufferError::Closed),
    }
}

/// The worker's progress over the messages, numbered in send order: the
/// failure it answers every message with, the message it has parked, the
/// next message it will take from the queue, and the messages it forwarded
/// to the service, in order.
pub type BufferProgress<E> = (Option<E>, Option<nat>, nat, Seq<nat>);

/// The message in hand: the parked one, else the next one.
pub open spec fn in_hand<E>(p: BufferProgress<E>) -> nat {
    match p.1 {
        Some(k) => k,
        None => p.2,
    }
}

/// One step of the worker over the message in hand (the parked one, else
/// the next one), given what polling the service reported: once failed,
/// the message is answered with the failure and the service is not polled
/// ([`Worker::step_if_failed`]); otherwise a ready service takes it, a
/// service not yet ready makes the worker park it, and a failed service
/// becomes the worker's failure and the message is answered with it
/// ([`Worker::on_readiness`]). The contracts of those two functions say
/// that the worker's decisions are the ones of this step.
pub open spec fn buffer_step<E>(p: BufferProgress<E>, readiness: Readiness<E>) -> BufferProgress<E> {
    let (failed, parked, next, forwarded) = p;
    let m = match parked {
        Some(k) => k,
        None => next,
    };
    let next2 = if parked is Some {
        next
    } else {
        next + 1
    };
    match failed {
        Some(f) => (Some(f), None, next2, forwarded),
        None => match readiness {
            Readiness::Ready => (None, None, next2, forwarded.push(m)),
            Readiness::Pending => (None, Some(m), next2, forwarded),
            Readiness::Failed(e) => (Some(e), None, next2, forwarded),
        },
    }
}

/// The progress after the worker's steps over `rs`, in order.
pub open spec fn buffer_run<E>(p: BufferProgress<E>, rs: Seq<Readiness<E>>) -> BufferProgress<E>
    decreases rs.len(),
{
    if rs.len() == 0 {
        p
    } else {
        buffer_run(buffer_step(p, rs[0]), rs.drop_first())
    }
}

/// Once the service failed, the worker keeps that first failure for good
/// and forwards nothing more.
pub proof fn law_first_failure_kept<E>(p: BufferProgress<E>, rs: Seq<Readiness<E>>)
    requires
        p.0 is Some,
    ensures
        buffer_run(p, rs).0 == p.0,
        buffer_run(p, rs).3 == p.3,
    decreases rs.len(),
{
    if rs.len() > 0 {
        law_first_failure_kept(buffer_step(p, rs[0]), rs.drop_first());
    }
}

/// Whether the forwarded messages are in send order with none twice, and
/// all precede the message in hand.
pub open spec fn forwarded_in_order<E>(p: BufferProgress<E>) -> bool {
    let (failed, parked, next, forwarded) = p;
    &&& parked matches Some(k) ==> k + 1 == next
    &&& forall|i: int, j: int|
        0 <= i < j < forwarded.len() ==> #[trigger] forwarded[i] < #[trigger] forwarded[j]
    &&& forall|i: int|
        0 <= i < forwarded.len() ==> #[trigger] forwarded[i] < match parked {
            Some(k) => k,
            None => next,
        }
}

proof fn lemma_step_in_order<E>(p: BufferProgress<E>, r: Readiness<E>)
    requires
        forwarded_in_order(p),
    ensures
        forwarded_in_order(buffer_step(p, r)),
        buffer_step(p, r).3.len() <= p.3.len() + 1,
        buffer_step(p, r).3.len() == p.3.len() + 1 ==> buffer_step(p, r).3.last() == match p.1 {
            Some(k) => k,
            None => p.2,
        },
{
    let q = buffer_step(p, r);
    let m = match p.1 {
        Some(k) => k,
        None => p.2,
    };
    if q.3.len() == p.3.len() + 1 {
        assert(q.3 == p.3.push(m));
        assert forall|i: int, j: int| 0 <= i < j < q.3.len() implies #[trigger] q.3[i] < #[trigger] q.3[j] by {
            if j == p.3.len() {
                assert(q.3[i] == p.3[i]);
            } else {
                assert(q.3[i] == p.3[i] && q.3[j] == p.3[j]);
            }
        }
        assert forall|i: int| 0 <= i < q.3.len() implies #[trigger] q.3[i] < match q.1 {
            Some(k) => k,
            None => q.2,
        } by {
            if i < p.3.len() {
                assert(q.3[i] == p.3[i]);
            }
        }
    }
}

/// A worker that starts with nothing taken forwards the messages it
/// forwards in send order, none of them twice, each before the message in
/// hand; a message it parks is the one it forwards first.
pub proof fn law_forwarded_once_in_order<E>(rs: Seq<Readiness<E>>)
    ensures
        forwarded_in_order(buffer_run((None, None, 0, Seq::empty()), rs)),
{
    lemma_run_in_order((None, None, 0, Seq::empty()), rs);
}

proof fn lemma_run_in_order<E>(p: BufferProgress<E>, rs: Seq<Readiness<E>>)
    requires
        forwarded_in_order(p),
    ensures
        forwarded_in_order(buffer_run(p, rs)),
    decreases rs.len(),
{
    if rs.len() > 0 {
        lemma_step_in_order(p, rs[0]);
        lemma_run_in_order(buffer_step(p, rs[0]), rs.drop_first());
    }
}

/// The error a handle keeps after the failures `es`, in order, are recorded
/// with [`Handle::fail`] on a handle keeping `err`.
pub open spec fn handle_after<E>(err: Option<E>, es: Seq<E>) -> Option<E>
    decreases es.len(),
{
    if es.len() == 0 {
        err
    } else {
        handle_after(
            if err is None {
                Some(es[0])
            } else {
                err
            },
            es.drop_first(),
        )
    }
}

/// A handle keeps the first failure recorded on it for good: every buffer
/// reports that same error.
pub proof fn law_handle_keeps_first_error<E>(err: Option<E>, es: Seq<E>)
    ensures
        err is Some ==> handle_after(err, es) == err,
        err is None && es.len() > 0 ==> handle_after(err, es) == Some(es[0]),
    decreases es.len(),
{
    if es.len() > 0 {
        let next = if err is None {
            Some(es[0])
        } else {
            err
        };
        law_handle_keeps_first_error(next, es.drop_first());
    }
}

} // verus!
