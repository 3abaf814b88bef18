use tower::builder::ServiceBuilder;
use tower::multiplex::{not, Either, Multiplex, Pick, Picker};
use tower::readiness::{Call, Readiness};

/// Picks the first service for request `n`.
#[derive(Clone, Copy)]
struct PickIf(i32);

impl Picker<i32> for PickIf {
    fn pick(&mut self, req: &mut i32) -> Pick {
        if self.0 == *req {
            Pick::First
        } else {
            Pick::Second
        }
    }
}

/// An always-ready service answering with a fixed word; `expect` is the
/// only request it accepts, when set.
#[derive(Clone, Copy)]
struct Word {
    word: &'static str,
    expect: Option<i32>,
}

impl Call<i32> for Word {
    type Future = &'static str;
    fn call(&mut self, req: i32) -> &'static str {
        if let Some(n) = self.expect {
            assert_eq!(req, n);
        }
        self.word
    }
}

/// Polls a service stack for readiness, as its readiness check does.
trait Ready {
    fn poll(&mut self) -> Readiness<()>;
}

impl Ready for Word {
    fn poll(&mut self) -> Readiness<()> {
        Readiness::Ready
    }
}

impl<A: Ready, B: Ready, P> Ready for Multiplex<A, B, P> {
    fn poll(&mut self) -> Readiness<()> {
        let first = if self.needs_first_poll() { self.first_mut().poll() } else { Readiness::Ready };
        let second = if self.needs_second_poll() { self.second_mut().poll() } else { Readiness::Ready };
        self.poll_ready(first, second)
    }
}

/// The answer that a nested `Either` future resolves to.
trait Answer {
    fn answer(self) -> &'static str;
}

impl Answer for &'static str {
    fn answer(self) -> &'static str {
        self
    }
}

impl<A: Answer> Answer for Option<A> {
    fn answer(self) -> &'static str {
        match self {
            Some(a) => a.answer(),
            None => "refused",
        }
    }
}

impl<A: Answer, B: Answer> Answer for Either<A, B> {
    fn answer(self) -> &'static str {
        match self {
            Either::A(a) => a.answer(),
            Either::B(b) => b.answer(),
        }
    }
}

fn one() -> Word {
    Word { word: "one", expect: Some(1) }
}
fn two() -> Word {
    Word { word: "two", expect: Some(2) }
}
fn three() -> Word {
    Word { word: "three", expect: Some(3) }
}
fn bottom() -> Word {
    Word { word: "bottom", expect: None }
}

#[test]
fn basic() {
    let mut svc = ServiceBuilder::new()
        .multiplex(one(), PickIf(1))
        .multiplex(two(), PickIf(2))
        .multiplex(three(), PickIf(3))
        .service(bottom());

    assert!(matches!(svc.poll(), Readiness::Ready));
    assert_eq!(svc.call(1).answer(), "one");
    assert!(matches!(svc.poll(), Readiness::Ready));
    assert_eq!(svc.call(2).answer(), "two");
    assert!(matches!(svc.poll(), Readiness::Ready));
    assert_eq!(svc.call(3).answer(), "three");
    assert!(matches!(svc.poll(), Readiness::Ready));
    assert_eq!(svc.call(4).answer(), "bottom");
}

#[test]
fn picked_service_must_be_polled_again() {
    let mut m = Multiplex::new(one(), bottom(), PickIf(1));
    assert!(m.needs_first_poll() && m.needs_second_poll());
    assert!(matches!(m.poll(), Readiness::Ready));
    assert!(!m.needs_first_poll() && !m.needs_second_poll());
    let _ = m.call(1);
    assert!(m.needs_first_poll());
    assert!(!m.needs_second_poll());
}

#[test]
fn readiness_waits_for_both() {
    let mut m = Multiplex::new(one(), bottom(), PickIf(1));
    let r: Readiness<&str> = m.poll_ready(Readiness::Pending, Readiness::Ready);
    assert!(matches!(r, Readiness::Pending));
    assert!(m.needs_first_poll());
    let r: Readiness<&str> = m.poll_ready(Readiness::Ready, Readiness::Failed("down"));
    assert!(matches!(r, Readiness::Failed("down")));
    assert!(!m.needs_first_poll());
    assert!(m.needs_second_poll());
    let r: Readiness<&str> = m.poll_ready(Readiness::Failed("ignored"), Readiness::Ready);
    assert!(matches!(r, Readiness::Ready));
}

#[test]
fn picker_combinators() {
    let mut req = 1;
    assert_eq!(PickIf(1).and(PickIf(1)).pick(&mut req), Pick::First);
    assert_eq!(PickIf(1).and(PickIf(2)).pick(&mut req), Pick::Second);
    assert_eq!(PickIf(2).or(PickIf(1)).pick(&mut req), Pick::First);
    assert_eq!(PickIf(2).or(PickIf(3)).pick(&mut req), Pick::Second);
    assert_eq!(not(PickIf(1)).pick(&mut req), Pick::Second);
    assert_eq!(not(PickIf(2)).pick(&mut req), Pick::First);
}

#[test]
fn nested_call_before_readiness_is_refused() {
    let mut m = Multiplex::new(one(), bottom(), PickIf(1));
    let fut = <Multiplex<Word, Word, PickIf> as Call<i32>>::call(&mut m, 1);
    assert!(fut.is_none());
    assert!(m.needs_first_poll() && m.needs_second_poll());
    assert!(matches!(m.poll(), Readiness::Ready));
    let fut = <Multiplex<Word, Word, PickIf> as Call<i32>>::call(&mut m, 1);
    assert_eq!(fut.answer(), "one");
}
