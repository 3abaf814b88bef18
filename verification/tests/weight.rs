use tower::readiness::Call;
use tower::load::{div_weight, Load, Metric, Weight, Weighted, WeightedLoad};

/// The weighted load as the floating-point number it stands for.
fn as_f64(w: WeightedLoad) -> f64 {
    if w.is_infinite() {
        f64::INFINITY
    } else {
        (w.load as f64) * 10_000.0 / (w.weight.raw() as f64)
    }
}

#[test]
fn div_min() {
    assert_eq!(as_f64(div_weight(10, Weight::zero())), f64::INFINITY);
    assert_eq!(as_f64(div_weight(10usize as u64, Weight::zero())), f64::INFINITY);
    assert_eq!(as_f64(div_weight(0, Weight::zero())), f64::INFINITY);
}

#[test]
fn weight_default_is_unit() {
    assert_eq!(Weight::default(), Weight::unit());
    assert_eq!(Weight::unit().raw(), 10_000);
    assert_eq!(Weight::max_weight().raw(), u32::MAX);
    assert!(Weight::zero().is_min());
    assert!(!Weight::unit().is_min());
}

#[test]
fn weighted_loads_compare_exactly() {
    // 10 / 2.0 == 5 <= 6 / 1.0 == 6
    let a = div_weight(10, Weight::from_raw(20_000));
    let b = div_weight(6, Weight::unit());
    assert!(a.le(&b));
    assert!(!b.le(&a));
    assert_eq!(as_f64(a), 5.0);
    // An infinite load is never less than a finite one.
    let inf = div_weight(1, Weight::zero());
    assert!(b.le(&inf));
    assert!(!inf.le(&b));
    assert!(inf.le(&inf));
}

struct Constant(u64);

impl Load for Constant {
    type Metric = u64;
    fn load(&self) -> u64 {
        self.0
    }
}

#[test]
fn weighted_service_divides_its_load() {
    let w = Weighted::new(Constant(3), Weight::from_raw(5_000));
    let l = w.load();
    assert_eq!(l.load, 3);
    assert_eq!(l.weight, Weight::from_raw(5_000));
    assert_eq!(as_f64(l), 6.0);
    assert_eq!(w.weight(), Weight::from_raw(5_000));
    assert_eq!(w.get_ref().0, 3);
}

#[test]
fn heavier_weight_never_gives_a_larger_load() {
    let light = div_weight(10, Weight::unit());
    let heavy = div_weight(10, Weight::from_raw(20_000));
    assert!(heavy.le(&light));
    assert!(!light.le(&heavy));
    assert!(div_weight(10, Weight::unit()).le(&div_weight(10, Weight::zero())));
}

/// A service that counts its calls and echoes its request.
struct Counting(u32);

impl Call<u32> for Counting {
    type Future = (u32, u32);
    fn call(&mut self, req: u32) -> (u32, u32) {
        self.0 += 1;
        (self.0, req)
    }
}

#[test]
fn weighted_forwards_requests_unchanged() {
    let mut w = Weighted::new(Counting(0), Weight::unit());
    assert_eq!(w.call(7), (1, 7));
    assert_eq!(w.call(9), (2, 9));
    assert_eq!(w.get_ref().0, 2);
    assert_eq!(w.weight(), Weight::unit());
}
