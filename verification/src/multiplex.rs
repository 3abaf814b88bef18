//! Routes each request to one of two services, as a picker decides.

use crate::layer::Layer;
use crate::readiness::{Call, Readiness};
use vstd::prelude::*;

verus! {

/// Which of two services a request goes to.
#[derive(Debug, Copy, Clone, PartialEq, Eq, Structural)]
pub enum Pick {
    /// The first service.
    First,
    /// The second service.
    Second,
}

/// Picks the service a request goes to.
pub trait Picker<R> {
    /// Whether `pick` may pick `picked` for `req` and leave the request as
    /// `after`. A picker that says nothing more allows every outcome.
    open spec fn spec_pick(&self, req: R, after: R, picked: Pick) -> bool {
        true
    }

    /// Picks a service for `req`, which the picker may modify.
    fn pick(&mut self, req: &mut R) -> (p: Pick)
        ensures
            old(self).spec_pick(*old(req), *final(req), p),
    ;

    /// Combines `self` and `next`: `First` is picked if both pick it.
    fn and<Q>(self, next: Q) -> (r: And<Self, Q>) where Self: Sized
        ensures
            r.spec_left() == self,
            r.spec_right() == next,
    {
        And::new(self, next)
    }

    /// Combines `self` and `next`: `First` is picked if either picks it.
    fn or<Q>(self, next: Q) -> (r: Or<Self, Q>) where Self: Sized
        ensures
            r.spec_left() == self,
            r.spec_right() == next,
    {
        Or::new(self, next)
    }
}

/// `First` exactly when both picks are `First`.
pub open spec fn pick_and(left: Pick, right: Pick) -> Pick {
    if left == Pick::First && right == Pick::First {
        Pick::First
    } else {
        Pick::Second
    }
}

/// `First` exactly when either pick is `First`.
pub open spec fn pick_or(left: Pick, right: Pick) -> Pick {
    if left == Pick::First || right == Pick::First {
        Pick::First
    } else {
        Pick::Second
    }
}

/// The other pick.
pub open spec fn pick_not(p: Pick) -> Pick {
    match p {
        Pick::First => Pick::Second,
        Pick::Second => Pick::First,
    }
}

/// Computes [`pick_and`].
pub fn combine_and(left: Pick, right: Pick) -> (r: Pick)
    ensures
        r == pick_and(left, right),
{
    match (left, right) {
        (Pick::First, Pick::First) => Pick::First,
        _ => Pick::Second,
    }
}

/// Computes [`pick_or`].
pub fn combine_or(left: Pick, right: Pick) -> (r: Pick)
    ensures
        r == pick_or(left, right),
{
    match (left, right) {
        (Pick::First, _) => Pick::First,
        (_, Pick::First) => Pick::First,
        _ => Pick::Second,
    }
}

/// Computes [`pick_not`].
pub fn negate(p: Pick) -> (r: Pick)
    ensures
        r == pick_not(p),
{
    match p {
        Pick::First => Pick::Second,
        Pick::Second => Pick::First,
    }
}

/// Combines two pickers: `First` if both pick `First`, otherwise `Second`.
/// Both pickers are consulted, left first.
#[derive(Debug, Copy, Clone)]
pub struct And<A, B> {
    left: A,
    right: B,
}

/// Combines two pickers: `First` if either picks `First`, otherwise
/// `Second`. Both pickers are consulted, left first.
#[derive(Debug, Copy, Clone)]
pub struct Or<A, B> {
    left: A,
    right: B,
}

/// Inverts a picker.
#[derive(Debug, Copy, Clone)]
pub struct Not<P>(P);

impl<P> Not<P> {
    /// The inverted picker.
    pub closed spec fn spec_inner(&self) -> P {
        self.0
    }
}

impl<A, B> And<A, B> {
    /// The picker consulted first.
    pub closed spec fn spec_left(&self) -> A {
        self.left
    }

    /// The picker consulted second.
    pub closed spec fn spec_right(&self) -> B {
        self.right
    }

    /// `left` and `right` combined.
    pub fn new(left: A, right: B) -> (r: Self)
        ensures
            r.spec_left() == left,
            r.spec_right() == right,
    {
        And { left, right }
    }
}

impl<A, B> Or<A, B> {
    /// The picker consulted first.
    pub closed spec fn spec_left(&self) -> A {
        self.left
    }

    /// The picker consulted second.
    pub closed spec fn spec_right(&self) -> B {
        self.right
    }

    /// `left` or `right` combined.
    pub fn new(left: A, right: B) -> (r: Self)
        ensures
            r.spec_left() == left,
            r.spec_right() == right,
    {
        Or { left, right }
    }
}

/// Inverts `picker`.
pub fn not<P>(picker: P) -> (r: Not<P>)
    ensures
        r.spec_inner() == picker,
{
    Not(picker)
}

impl<R, A: Picker<R>, B: Picker<R>> Picker<R> for And<A, B> {
    /// The left picker picks `l` for `req`, the right one picks `r` for the
    /// request as the left one left it, and the pick is their `and`.
    open spec fn spec_pick(&self, req: R, after: R, picked: Pick) -> bool {
        exists|mid: R, l: Pick, r: Pick|
            #![trigger self.spec_left().spec_pick(req, mid, l), self.spec_right().spec_pick(mid, after, r)]
            self.spec_left().spec_pick(req, mid, l) && self.spec_right().spec_pick(mid, after, r)
                && picked == pick_and(l, r)
    }

    fn pick(&mut self, req: &mut R) -> Pick {
        let ghost s0 = *self;
        let ghost req0 = *req;
        let l = self.left.pick(req);
        let ghost mid = *req;
        let r = self.right.pick(req);
        let p = combine_and(l, r);
        assert(s0.spec_pick(req0, *req, p)) by {
            assert(s0.spec_left().spec_pick(req0, mid, l));
            assert(s0.spec_right().spec_pick(mid, *req, r));
        }
        p
    }
}

impl<R, A: Picker<R>, B: Picker<R>> Picker<R> for Or<A, B> {
    /// The left picker picks `l` for `req`, the right one picks `r` for the
    /// request as the left one left it, and the pick is their `or`.
    open spec fn spec_pick(&self, req: R, after: R, picked: Pick) -> bool {
        exists|mid: R, l: Pick, r: Pick|
            #![trigger self.spec_left().spec_pick(req, mid, l), self.spec_right().spec_pick(mid, after, r)]
            self.spec_left().spec_pick(req, mid, l) && self.spec_right().spec_pick(mid, after, r)
                && picked == pick_or(l, r)
    }

    fn pick(&mut self, req: &mut R) -> Pick {
        let ghost s0 = *self;
        let ghost req0 = *req;
        let l = self.left.pick(req);
        let ghost mid = *req;
        let r = self.right.pick(req);
        let p = combine_or(l, r);
        assert(s0.spec_pick(req0, *req, p)) by {
            assert(s0.spec_left().spec_pick(req0, mid, l));
            assert(s0.spec_right().spec_pick(mid, *req, r));
        }
        p
    }
}

impl<R, P: Picker<R>> Picker<R> for Not<P> {
    /// The inverted picker picks `q` for `req`, and the pick is the other.
    open spec fn spec_pick(&self, req: R, after: R, picked: Pick) -> bool {
        exists|q: Pick|
            #![trigger self.spec_inner().spec_pick(req, after, q)]
            self.spec_inner().spec_pick(req, after, q) && picked == pick_not(q)
    }

    fn pick(&mut self, req: &mut R) -> Pick {
        let ghost s0 = *self;
        let ghost req0 = *req;
        let q = self.0.pick(req);
        let p = negate(q);
        assert(s0.spec_pick(req0, *req, p)) by {
            assert(s0.spec_inner().spec_pick(req0, *req, q));
        }
        p
    }
}

/// Either of two values.
#[derive(Debug, Clone)]
pub enum Either<A, B> {
    /// The first.
    A(A),
    /// The second.
    B(B),
}

/// Dispatches each request to `first` or `second`, as `picker` decides.
/// Both services must be ready before a request is dispatched.
#[derive(Debug, Clone, Copy)]
pub struct Multiplex<A, B, P> {
    picker: P,
    first: A,
    first_ready: bool,
    second: B,
    second_ready: bool,
}

impl<A, B, P> Multiplex<A, B, P> {
    /// Whether the first service has reported itself ready since its last
    /// request.
    pub closed spec fn spec_first_ready(&self) -> bool {
        self.first_ready
    }

    /// Whether the second service has reported itself ready since its last
    /// request.
    pub closed spec fn spec_second_ready(&self) -> bool {
        self.second_ready
    }

    /// The first service.
    pub closed spec fn spec_first(&self) -> A {
        self.first
    }

    /// The second service.
    pub closed spec fn spec_second(&self) -> B {
        self.second
    }

    /// The picker.
    pub closed spec fn spec_picker(&self) -> P {
        self.picker
    }

    /// Routes requests to `first` or `second`, as `picker` decides. Neither
    /// service is taken to be ready yet.
    pub fn new(first: A, second: B, picker: P) -> (m: Self)
        ensures
            m.spec_first() == first,
            m.spec_second() == second,
            m.spec_picker() == picker,
            !m.spec_first_ready(),
            !m.spec_second_ready(),
    {
        Multiplex { picker, first, first_ready: false, second, second_ready: false }
    }

    /// Whether the first service must be polled for readiness.
    pub fn needs_first_poll(&self) -> (b: bool)
        ensures
            b == !self.spec_first_ready(),
    {
        !self.first_ready
    }

    /// Whether the second service must be polled for readiness.
    pub fn needs_second_poll(&self) -> (b: bool)
        ensures
            b == !self.spec_second_ready(),
    {
        !self.second_ready
    }

    /// A mutable reference to the first service, to poll it.
    pub fn first_mut(&mut self) -> (r: &mut A)
        ensures
            *r == old(self).spec_first(),
            final(self).spec_first() == *final(r),
            final(self).spec_second() == old(self).spec_second(),
            final(self).spec_picker() == old(self).spec_picker(),
            final(self).spec_first_ready() == old(self).spec_first_ready(),
            final(self).spec_second_ready() == old(self).spec_second_ready(),
    {
        &mut self.first
    }

    /// A mutable reference to the second service, to poll it.
    pub fn second_mut(&mut self) -> (r: &mut B)
        ensures
            *r == old(self).spec_second(),
            final(self).spec_second() == *final(r),
            final(self).spec_first() == old(self).spec_first(),
            final(self).spec_picker() == old(self).spec_picker(),
            final(self).spec_first_ready() == old(self).spec_first_ready(),
            final(self).spec_second_ready() == old(self).spec_second_ready(),
    {
        &mut self.second
    }

    /// Combines the readiness of both services. `first` is what polling the
    /// first service reported, and is consulted only if that service is not
    /// yet known to be ready; `second` likewise, and only once the first is
    /// ready. The multiplexer is ready once both services are.
    pub fn poll_ready<E>(&mut self, first: Readiness<E>, second: Readiness<E>) -> (r: Readiness<E>)
        ensures
            final(self).spec_first() == old(self).spec_first(),
            final(self).spec_second() == old(self).spec_second(),
            final(self).spec_picker() == old(self).spec_picker(),
            !old(self).spec_first_ready() && !(first is Ready) ==> r == first,
            !old(self).spec_first_ready() && !(first is Ready) ==> !final(self).spec_first_ready(),
            !old(self).spec_first_ready() && !(first is Ready) ==> final(self).spec_second_ready()
                == old(self).spec_second_ready(),
            old(self).spec_first_ready() || first is Ready ==> final(self).spec_first_ready(),
            (old(self).spec_first_ready() || first is Ready) && old(self).spec_second_ready() ==> r is Ready,
            (old(self).spec_first_ready() || first is Ready) && !old(self).spec_second_ready() ==> r
                == second,
            (old(self).spec_first_ready() || first is Ready) ==> (final(self).spec_second_ready() <==> (
            old(self).spec_second_ready() || second is Ready)),
            r is Ready <==> final(self).spec_first_ready() && final(self).spec_second_ready(),
    {
        if !self.first_ready {
            match first {
                Readiness::Ready => {
                    self.first_ready = true;
                },
                _ => {
                    return first;
                },
            }
        }
        if !self.second_ready {
            match second {
                Readiness::Ready => {
                    self.second_ready = true;
                },
                _ => {
                    return second;
                },
            }
        }
        Readiness::Ready
    }

    /// Dispatches `req` to the service the picker picks; the chosen one
    /// must be polled again before its next request.
    fn route<R>(&mut self, req: R) -> (fut: Either<A::Future, B::Future>) where
        P: Picker<R>,
        A: Call<R>,
        B: Call<R>,

        ensures
            fut is A ==> !final(self).spec_first_ready() && final(self).spec_second_ready()
                == old(self).spec_second_ready(),
            fut is B ==> !final(self).spec_second_ready() && final(self).spec_first_ready()
                == old(self).spec_first_ready(),
            fut is A ==> exists|after: R| #[trigger]
                old(self).spec_picker().spec_pick(req, after, Pick::First),
            fut is B ==> exists|after: R| #[trigger]
                old(self).spec_picker().spec_pick(req, after, Pick::Second),
            fut matches Either::A(f) ==> final(self).spec_second() == old(self).spec_second()
                && exists|after: R| #[trigger]
                old(self).spec_picker().spec_pick(req, after, Pick::First)
                    && old(self).spec_first().spec_call(after, final(self).spec_first(), f),
            fut matches Either::B(f) ==> final(self).spec_first() == old(self).spec_first()
                && exists|after: R| #[trigger]
                old(self).spec_picker().spec_pick(req, after, Pick::Second)
                    && old(self).spec_second().spec_call(after, final(self).spec_second(), f),
    {
        let ghost s0 = *self;
        let ghost req0 = req;
        let mut req = req;
        let p = self.picker.pick(&mut req);
        assert(s0.spec_picker().spec_pick(req0, req, p));
        match p {
            Pick::First => {
                self.first_ready = false;
                Either::A(self.first.call(req))
            },
            Pick::Second => {
                self.second_ready = false;
                Either::B(self.second.call(req))
            },
        }
    }

    /// Dispatches `req` to the service the picker picks. Both services must
    /// be ready; the chosen one must be polled again before its next
    /// request.
    pub fn call<R>(&mut self, req: R) -> (fut: Either<A::Future, B::Future>) where
        P: Picker<R>,
        A: Call<R>,
        B: Call<R>,

        requires
            old(self).spec_first_ready(),
            old(self).spec_second_ready(),
        ensures
            fut is A ==> !final(self).spec_first_ready() && final(self).spec_second_ready(),
            fut is B ==> final(self).spec_first_ready() && !final(self).spec_second_ready(),
            fut matches Either::A(f) ==> final(self).spec_second() == old(self).spec_second()
                && exists|after: R| #[trigger]
                old(self).spec_picker().spec_pick(req, after, Pick::First)
                    && old(self).spec_first().spec_call(after, final(self).spec_first(), f),
            fut matches Either::B(f) ==> final(self).spec_first() == old(self).spec_first()
                && exists|after: R| #[trigger]
                old(self).spec_picker().spec_pick(req, after, Pick::Second)
                    && old(self).spec_second().spec_call(after, final(self).spec_second(), f),
    {
        self.route(req)
    }
}

/// A multiplexer is itself a service that can take requests, so that
/// multiplexers nest. A call through this trait before both services are
/// known to be ready is refused: the future is `None`, and neither the
/// picker nor a service is consulted.
impl<R, A: Call<R>, B: Call<R>, P: Picker<R>> Call<R> for Multiplex<A, B, P> {
    type Future = Option<Either<A::Future, B::Future>>;

    /// Refused (`None`, nothing changed) unless both services are ready;
    /// otherwise routed as the picker picks, and the chosen service must be
    /// polled again.
    open spec fn spec_call(
        &self,
        req: R,
        after: Self,
        fut: Option<Either<A::Future, B::Future>>,
    ) -> bool {
        &&& (fut is None <==> !(self.spec_first_ready() && self.spec_second_ready()))
        &&& (fut is None ==> after == *self)
        &&& (fut matches Some(Either::A(f)) ==> !after.spec_first_ready()
            && after.spec_second_ready() && after.spec_second() == self.spec_second() && exists|a: R|
            #[trigger] self.spec_picker().spec_pick(req, a, Pick::First) && self.spec_first().spec_call(
                a,
                after.spec_first(),
                f,
            ))
        &&& (fut matches Some(Either::B(f)) ==> after.spec_first_ready()
            && !after.spec_second_ready() && after.spec_first() == self.spec_first() && exists|a: R|
            #[trigger] self.spec_picker().spec_pick(req, a, Pick::Second) && self.spec_second().spec_call(
                a,
                after.spec_second(),
                f,
            ))
    }

    fn call(&mut self, req: R) -> (fut: Option<Either<A::Future, B::Future>>) {
        if self.first_ready && self.second_ready {
            Some(self.route(req))
        } else {
            None
        }
    }
}

/// Wraps services in a [`Multiplex`] whose first service is a clone of
/// `first`.
#[derive(Debug, Clone, Copy)]
pub struct MultiplexLayer<A, P> {
    first: A,
    picker: P,
}

impl<A, P> MultiplexLayer<A, P> {
    /// The first service of every multiplexer built.
    pub closed spec fn spec_first(&self) -> A {
        self.first
    }

    /// The picker of every multiplexer built.
    pub closed spec fn spec_picker(&self) -> P {
        self.picker
    }

    /// A layer routing between `first` and the wrapped service.
    pub fn new(first: A, picker: P) -> (l: Self)
        ensures
            l.spec_first() == first,
            l.spec_picker() == picker,
    {
        MultiplexLayer { picker, first }
    }
}

impl<A: Clone, P: Clone, B> Layer<B> for MultiplexLayer<A, P> {
    type Service = Multiplex<A, B, P>;

    /// A multiplexer, neither of whose services is yet known to be ready,
    /// between a clone of the first service and `inner`, with a clone of the
    /// picker.
    open spec fn spec_layered(&self, inner: B, wrapped: Multiplex<A, B, P>) -> bool {
        &&& wrapped.spec_second() == inner
        &&& cloned(self.spec_first(), wrapped.spec_first())
        &&& cloned(self.spec_picker(), wrapped.spec_picker())
        &&& !wrapped.spec_first_ready()
        &&& !wrapped.spec_second_ready()
    }

    fn layer(&self, inner: B) -> (m: Multiplex<A, B, P>)
        ensures
            m.spec_second() == inner,
            cloned(self.spec_first(), m.spec_first()),
            cloned(self.spec_picker(), m.spec_picker()),
            !m.spec_first_ready(),
            !m.spec_second_ready(),
    {
        Multiplex::new(self.first.clone(), inner, self.picker.clone())
    }
}

/// `And` is `First` only if both are; `Or` is `Second` only if both are;
/// negation is an involution and swaps `And` and `Or`.
pub proof fn law_picker_algebra(a: Pick, b: Pick)
    ensures
        (pick_and(a, b) == Pick::First) <==> (a == Pick::First && b == Pick::First),
        (pick_or(a, b) == Pick::Second) <==> (a == Pick::Second && b == Pick::Second),
        pick_not(pick_not(a)) == a,
        pick_not(pick_and(a, b)) == pick_or(pick_not(a), pick_not(b)),
        pick_not(pick_or(a, b)) == pick_and(pick_not(a), pick_not(b)),
        pick_and(a, b) == pick_and(b, a),
        pick_or(a, b) == pick_or(b, a),
{
}

} // verus!
