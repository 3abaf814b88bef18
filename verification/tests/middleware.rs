use tower::builder::ServiceBuilder;
use tower::discover::Change;
use tower::filter::{Filter, FilterError, Predicate};
use tower::hedge::{Delay, Policy};
use tower::layer::{Identity, Layer, Stack};
use tower::load::{weight_change, HasWeight, Weight};
use tower::load_shed::{LoadShed, LoadShedLayer, ResponseFuture, Token};
use tower::readiness::{Call, Readiness};

#[derive(Clone, Copy, Debug, PartialEq)]
struct Double;

impl Call<u32> for Double {
    type Future = u32;
    fn call(&mut self, req: u32) -> u32 {
        req * 2
    }
}

#[test]
fn load_shed_is_always_ready_but_sheds() {
    let mut svc = LoadShedLayer::new().layer(Double);
    assert_eq!(svc.poll_ready(Readiness::<&str>::Ready), Ok(Token(true)));
    assert_eq!(svc.poll_ready(Readiness::<&str>::Pending), Ok(Token(false)));
    assert_eq!(svc.poll_ready(Readiness::Failed("down")), Err("down"));
    assert!(matches!(svc.call(Token(true), 4), ResponseFuture::Called(8)));
    assert!(matches!(svc.call(Token(false), 4), ResponseFuture::Overloaded));
    let _ = LoadShed::new(Double);
}

#[derive(Clone)]
struct Even;

impl Predicate<u32> for Even {
    type Request = u32;
    type Error = &'static str;
    fn check(&mut self, request: u32) -> Result<u32, &'static str> {
        if request % 2 == 0 {
            Ok(request + 1)
        } else {
            Err("odd")
        }
    }
}

#[test]
fn filter_forwards_accepted_requests() {
    let mut f = Filter::new(Double, Even);
    assert!(matches!(f.call(4), Ok(10)));
    assert!(matches!(f.call(3), Err(FilterError::Rejected("odd"))));
    let r: Readiness<FilterError<(), &str>> = f.poll_ready(Readiness::Failed("inner"));
    assert!(matches!(r, Readiness::Failed(FilterError::Inner("inner"))));
    assert!(matches!(f.forward::<u32, &str>(Ok(1)), Ok(2)));
}

struct Fixed(u64);

impl Policy<u32> for Fixed {
    fn delay(&self, _req: &u32) -> u64 {
        self.0
    }
}

#[test]
fn delay_sets_the_deadline() {
    let mut d = Delay::new(Fixed(50), Double);
    let c = d.call(9, 1_000);
    assert_eq!(c.deadline, 1_050);
    assert_eq!(c.request, 9);
    assert_eq!(c.service, Double);
    let c = d.delay_by(1, u64::MAX - 1, 10);
    assert_eq!(c.deadline, u64::MAX);
}

#[test]
fn layers_stack_inner_first() {
    let stack = Stack::new(Identity::new(), LoadShedLayer::new());
    let mut svc = stack.layer(Double);
    assert!(matches!(svc.call(Token(true), 1), ResponseFuture::Called(2)));
    assert_eq!(Identity::new().layer(5u8), 5);
}

struct Key(u32);

impl HasWeight for Key {
    fn weight(&self) -> Weight {
        Weight::from_raw(self.0)
    }
}

#[test]
fn weighted_discover_weights_inserts() {
    match weight_change(Change::Insert(Key(2_500), Double)) {
        Change::Insert(k, w) => {
            assert_eq!(k.0, 2_500);
            assert_eq!(w.weight(), Weight::from_raw(2_500));
            assert_eq!(*w.get_ref(), Double);
        }
        Change::Remove(_) => panic!("an insert stays an insert"),
    }
    assert!(matches!(
        weight_change::<Key, Double>(Change::Remove(Key(1))),
        Change::Remove(Key(1))
    ));
}

#[test]
fn builder_filter_wraps_the_service() {
    let mut f = ServiceBuilder::new().filter(Even).service(Double);
    assert!(matches!(f.call(4), Ok(10)));
    assert!(matches!(f.call(3), Err(FilterError::Rejected("odd"))));
}
