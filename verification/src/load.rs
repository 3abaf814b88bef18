//! Abstractions for measuring a service's load, and weighting of loads.
//!
//! A [`Weight`] lies in [0.0, ∞] and is held as an integer number of
//! ten-thousandths. A weighted load is the load divided by the weight; a
//! weight of zero makes the load infinite.

use crate::discover::Change;
use crate::readiness::Call;
use vstd::prelude::*;

verus! {

/// A comparable load metric. Lesser values are preferable to greater ones.
pub trait Metric {
    /// Whether `self` is no greater than `other`.
    spec fn spec_le(&self, other: &Self) -> bool;

    /// Computes [`Metric::spec_le`].
    fn le(&self, other: &Self) -> (r: bool)
        ensures
            r == self.spec_le(other),
    ;
}

impl Metric for u64 {
    open spec fn spec_le(&self, other: &Self) -> bool {
        *self <= *other
    }

    fn le(&self, other: &Self) -> (r: bool) {
        *self <= *other
    }
}

impl Metric for usize {
    open spec fn spec_le(&self, other: &Self) -> bool {
        *self <= *other
    }

    fn le(&self, other: &Self) -> (r: bool) {
        *self <= *other
    }
}

/// Exposes a load metric.
pub trait Load {
    /// A comparable load metric.
    type Metric: Metric;

    /// Whether `load` may report `metric`. A service that says nothing more
    /// allows every metric.
    open spec fn spec_load(&self, metric: Self::Metric) -> bool {
        true
    }

    /// Obtains the service's load.
    fn load(&self) -> (metric: Self::Metric)
        ensures
            self.spec_load(metric),
    ;
}

/// A weight in [0.0, ∞], held as ten-thousandths.
///
/// Lesser-weighted nodes receive less traffic than heavier-weighted nodes.
#[derive(Copy, Clone, Debug, PartialEq, Eq, PartialOrd, Ord, Hash, Structural)]
pub struct Weight(u32);

/// Ten-thousandths in a weight of 1.0.
pub const WEIGHT_UNIT: u32 = 10_000;

impl Weight {
    /// Minimum weight: 0.0.
    pub fn zero() -> (w: Weight)
        ensures
            w.spec_raw() == 0,
    {
        Weight(0)
    }

    /// Unit of weight: 1.0.
    pub fn unit() -> (w: Weight)
        ensures
            w.spec_raw() == WEIGHT_UNIT,
    {
        Weight(WEIGHT_UNIT)
    }

    /// Maximum weight.
    pub fn max_weight() -> (w: Weight)
        ensures
            w.spec_raw() == u32::MAX,
    {
        Weight(u32::MAX)
    }

    /// The weight in ten-thousandths.
    pub closed spec fn spec_raw(&self) -> u32 {
        self.0
    }

    /// The weight of `raw` ten-thousandths.
    pub fn from_raw(raw: u32) -> (w: Weight)
        ensures
            w.spec_raw() == raw,
    {
        Weight(raw)
    }

    /// The weight in ten-thousandths.
    pub fn raw(&self) -> (r: u32)
        ensures
            r == self.spec_raw(),
    {
        self.0
    }

    /// Whether this is the minimum weight, by which any load divides to
    /// infinity.
    pub fn is_min(&self) -> (r: bool)
        ensures
            r == (self.spec_raw() == 0),
    {
        self.0 == 0
    }
}

impl Default for Weight {
    fn default() -> (w: Self)
        ensures
            w.spec_raw() == WEIGHT_UNIT,
    {
        Weight::unit()
    }
}

/// A load divided by a weight: `load * WEIGHT_UNIT / weight`, infinite when
/// the weight is zero. It is kept as the exact fraction.
#[derive(Copy, Clone, Debug)]
pub struct WeightedLoad {
    /// The unweighted load.
    pub load: u64,
    /// The weight it is divided by.
    pub weight: Weight,
}

impl WeightedLoad {
    /// Whether the weighted load is infinite.
    pub open spec fn spec_infinite(&self) -> bool {
        self.weight.spec_raw() == 0
    }

    /// Whether the weighted load is infinite.
    pub fn is_infinite(&self) -> (r: bool)
        ensures
            r == self.spec_infinite(),
    {
        self.weight.0 == 0
    }
}

impl Metric for WeightedLoad {
    /// `a / wa <= b / wb`, with a zero weight standing for infinity; two
    /// infinities are equal.
    open spec fn spec_le(&self, other: &Self) -> bool {
        if other.spec_infinite() {
            true
        } else if self.spec_infinite() {
            false
        } else {
            self.load * other.weight.spec_raw() <= other.load * self.weight.spec_raw()
        }
    }

    fn le(&self, other: &Self) -> (r: bool) {
        if other.weight.0 == 0 {
            true
        } else if self.weight.0 == 0 {
            false
        } else {
            proof {
                let (a, wb, b, wa) = (self.load, other.weight.0, other.load, self.weight.0);
                assert(a as u128 * wb as u128 <= u64::MAX as u128 * u32::MAX as u128)
                    by (nonlinear_arith)
                    requires
                        a <= u64::MAX,
                        wb <= u32::MAX,
                ;
                assert(b as u128 * wa as u128 <= u64::MAX as u128 * u32::MAX as u128)
                    by (nonlinear_arith)
                    requires
                        b <= u64::MAX,
                        wa <= u32::MAX,
                ;
            }
            let lhs: u128 = self.load as u128 * other.weight.0 as u128;
            let rhs: u128 = other.load as u128 * self.weight.0 as u128;
            lhs <= rhs
        }
    }
}

/// Divides `load` by `w`: the result is infinite exactly when `w` is
/// the zero weight.
pub fn div_weight(load: u64, w: Weight) -> (r: WeightedLoad)
    ensures
        r.load == load,
        r.weight == w,
        r.spec_infinite() <==> w.spec_raw() == 0,
{
    WeightedLoad { load, weight: w }
}

/// Measures the load of the underlying service by dividing that service's
/// load by a constant weight.
#[derive(Clone, Debug)]
pub struct Weighted<S> {
    inner: S,
    weight: Weight,
}

impl<S> Weighted<S> {
    /// The wrapped service.
    pub closed spec fn spec_inner(&self) -> S {
        self.inner
    }

    /// The weight applied to its load.
    pub closed spec fn spec_weight(&self) -> Weight {
        self.weight
    }

    /// Wraps a service so that its load is weighted by `weight`.
    pub fn new(inner: S, weight: Weight) -> (w: Self)
        ensures
            w.spec_inner() == inner,
            w.spec_weight() == weight,
    {
        Weighted { inner, weight }
    }

    /// The wrapped service.
    pub fn get_ref(&self) -> (r: &S)
        ensures
            *r == self.spec_inner(),
    {
        &self.inner
    }

    /// A mutable reference to the wrapped service.
    pub fn get_mut(&mut self) -> (r: &mut S)
        ensures
            *r == old(self).spec_inner(),
            final(self).spec_inner() == *final(r),
            final(self).spec_weight() == old(self).spec_weight(),
    {
        &mut self.inner
    }

    /// Consumes the wrapper, returning the wrapped service.
    pub fn into_inner(self) -> (r: S)
        ensures
            r == self.spec_inner(),
    {
        self.inner
    }

    /// The weight applied to the load.
    pub fn weight(&self) -> (w: Weight)
        ensures
            w == self.spec_weight(),
    {
        self.weight
    }
}

impl<S: HasWeight> Weighted<S> {
    /// Wraps a service, weighting it by the weight it exposes itself.
    pub fn from_weighted(inner: S) -> (w: Self)
        ensures
            w.spec_inner() == inner,
            inner.spec_weight_is(w.spec_weight()),
    {
        let weight = inner.weight();
        Weighted { inner, weight }
    }
}

impl<S: Load<Metric = u64>> Load for Weighted<S> {
    type Metric = WeightedLoad;

    /// The inner service's load divided by the weight.
    open spec fn spec_load(&self, metric: WeightedLoad) -> bool {
        exists|inner: u64|
            #![trigger self.spec_inner().spec_load(inner)]
            self.spec_inner().spec_load(inner) && metric.load == inner && metric.weight
                == self.spec_weight()
    }

    fn load(&self) -> (r: WeightedLoad)
        ensures
            r.weight == self.spec_weight(),
    {
        let inner = self.inner.load();
        let r = div_weight(inner, self.weight);
        assert(self.spec_inner().spec_load(inner));
        r
    }
}

/// Requests go to the wrapped service unchanged; the weight stays.
impl<S: Call<R>, R> Call<R> for Weighted<S> {
    type Future = S::Future;

    /// The wrapped service takes the request; the weight is kept.
    open spec fn spec_call(&self, req: R, after: Self, fut: S::Future) -> bool {
        self.spec_inner().spec_call(req, after.spec_inner(), fut) && after.spec_weight()
            == self.spec_weight()
    }

    fn call(&mut self, req: R) -> (fut: S::Future) {
        self.inner.call(req)
    }
}

/// Allows discovered keys to expose a weight.
pub trait HasWeight {
    /// Whether `weight` may answer `w`. A type that says nothing more allows
    /// every weight.
    open spec fn spec_weight_is(&self, w: Weight) -> bool {
        true
    }

    /// Returns the weight.
    fn weight(&self) -> (w: Weight)
        ensures
            self.spec_weight_is(w),
    ;
}

impl<T> HasWeight for Weighted<T> {
    /// A weighted service exposes the weight it applies.
    open spec fn spec_weight_is(&self, w: Weight) -> bool {
        w == self.spec_weight()
    }

    fn weight(&self) -> (w: Weight) {
        self.weight
    }
}

/// Wraps a stream of discovered services so that each inserted service is
/// weighted by the weight of its key.
#[derive(Debug)]
pub struct WeightedDiscover<D> {
    discover: D,
}

impl<D> WeightedDiscover<D> {
    /// The wrapped stream.
    pub closed spec fn spec_discover(&self) -> D {
        self.discover
    }

    /// Wraps a discovery stream.
    pub fn new(discover: D) -> (w: Self)
        ensures
            w.spec_discover() == discover,
    {
        WeightedDiscover { discover }
    }

    /// A mutable reference to the wrapped stream, to poll it.
    pub fn discover_mut(&mut self) -> (r: &mut D)
        ensures
            *r == old(self).spec_discover(),
            final(self).spec_discover() == *final(r),
    {
        &mut self.discover
    }
}

/// The change a [`WeightedDiscover`] yields for a change of the wrapped
/// stream: an inserted service is weighted by its key's weight; a removal
/// is passed on.
pub fn weight_change<K: HasWeight, S>(change: Change<K, S>) -> (r: Change<K, Weighted<S>>)
    ensures
        change matches Change::Insert(k, s) ==> r matches Change::Insert(k2, w) && k2 == k
            && w.spec_inner() == s && k.spec_weight_is(w.spec_weight()),
        change matches Change::Remove(k) ==> r == Change::<K, Weighted<S>>::Remove(k),
{
    match change {
        Change::Insert(k, svc) => {
            let w = k.weight();
            Change::Insert(k, Weighted::new(svc, w))
        },
        Change::Remove(k) => Change::Remove(k),
    }
}

/// A weighted service exposes exactly the weight it applies, so weighting
/// a weighted service by the weight it exposes keeps that weight.
pub proof fn law_weighted_exposes_its_weight<T>(w: Weighted<T>, x: Weight)
    ensures
        w.spec_weight_is(x) <==> x == w.spec_weight(),
{
}

/// A larger weight never gives a larger weighted load: the same load over
/// a weight at least as large is no greater.
pub proof fn law_heavier_weight_lighter_load(load: u64, lighter: Weight, heavier: Weight)
    requires
        lighter.spec_raw() <= heavier.spec_raw(),
    ensures
        (WeightedLoad { load, weight: heavier }).spec_le(&WeightedLoad { load, weight: lighter }),
{
    let a = load as int;
    let w1 = lighter.spec_raw() as int;
    let w2 = heavier.spec_raw() as int;
    assert(a * w1 <= a * w2) by (nonlinear_arith)
        requires
            0 <= a,
            w1 <= w2,
    ;
}

} // verus!
