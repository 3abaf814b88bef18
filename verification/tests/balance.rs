use rand::rngs::SmallRng;
use rand::SeedableRng;
use std::cell::RefCell;
use std::collections::VecDeque;
use std::rc::Rc;
use tower::balance::{p2c_choose, Balance};
use tower::discover::Change;
use tower::load::Load;
use tower::readiness::{Call, Readiness};

/// What a test can observe and steer of a mock endpoint.
#[derive(Default)]
struct MockState {
    allowed: usize,
    error: Option<&'static str>,
    requests: VecDeque<Rc<RefCell<Option<&'static str>>>>,
}

/// The handle through which a test steers a mock endpoint.
#[derive(Clone, Default)]
struct Handle(Rc<RefCell<MockState>>);

impl Handle {
    fn allow(&self, n: usize) {
        self.0.borrow_mut().allowed = n;
    }

    fn send_error(&self, e: &'static str) {
        self.0.borrow_mut().error = Some(e);
    }

    /// Answers the oldest request, if one came.
    fn respond(&self, value: &'static str) -> bool {
        match self.0.borrow_mut().requests.pop_front() {
            Some(slot) => {
                *slot.borrow_mut() = Some(value);
                true
            }
            None => false,
        }
    }
}

/// A mock endpoint with a constant load.
struct Mock {
    handle: Handle,
    load: usize,
}

/// The response future of a mock endpoint.
struct MockFuture(Rc<RefCell<Option<&'static str>>>);

impl MockFuture {
    fn poll(&self) -> Option<&'static str> {
        *self.0.borrow()
    }
}

impl Mock {
    fn poll_ready(&mut self) -> Readiness<&'static str> {
        let st = self.handle.0.borrow();
        if let Some(e) = st.error {
            Readiness::Failed(e)
        } else if st.allowed > 0 {
            Readiness::Ready
        } else {
            Readiness::Pending
        }
    }
}

impl Call<()> for Mock {
    type Future = MockFuture;

    fn call(&mut self, _req: ()) -> MockFuture {
        let slot = Rc::new(RefCell::new(None));
        let mut st = self.handle.0.borrow_mut();
        st.allowed -= 1;
        st.requests.push_back(slot.clone());
        MockFuture(slot)
    }
}

impl Load for Mock {
    type Metric = usize;
    fn load(&self) -> usize {
        self.load
    }
}

fn mock(load: usize) -> (Mock, Handle) {
    let handle = Handle::default();
    (Mock { handle: handle.clone(), load }, handle)
}

trait Pollable {
    fn poll(&mut self) -> Readiness<&'static str>;
}

impl Pollable for Mock {
    fn poll(&mut self) -> Readiness<&'static str> {
        self.poll_ready()
    }
}

/// Drives a balancer's readiness as its service does: apply discovered
/// changes, then let the balancer poll its endpoints.
fn poll_ready<S: Pollable + Load>(
    bal: &mut Balance<S>,
    changes: &mut VecDeque<Change<u64, S>>,
) -> bool {
    while let Some(change) = changes.pop_front() {
        bal.update(change);
    }
    bal.poll_ready(&mut |_: u64, mut s: S| {
        let r = s.poll();
        (s, r)
    })
}

/// The same readiness check spelled out step by step through the
/// balancer's finer-grained operations.
fn poll_ready_by_steps<S: Pollable + Load>(
    bal: &mut Balance<S>,
    changes: &mut VecDeque<Change<u64, S>>,
) -> bool {
    while let Some(change) = changes.pop_front() {
        bal.update(change);
    }
    let mut i = 0;
    while i < bal.services().pending_len() {
        match bal.pending_index_mut(i).poll() {
            Readiness::Ready => bal.promote_pending(i),
            Readiness::Pending => i += 1,
            Readiness::Failed(e) => {
                let _ = bal.fail_pending(i, e);
            }
        }
    }
    loop {
        if let Some(i) = bal.ready_index() {
            let r = bal.ready_index_mut(i).poll();
            if let Ok(true) = bal.check_selected(r) {
                return true;
            }
        }
        if bal.select().is_none() {
            return false;
        }
    }
}

fn balancer<S>() -> Balance<S> {
    Balance::from_rng(SmallRng::seed_from_u64(7))
}

#[test]
fn empty() {
    let mut svc: Balance<Mock> = Balance::new();
    let mut changes = VecDeque::new();
    assert!(!poll_ready(&mut svc, &mut changes));
}

#[test]
fn single_endpoint() {
    let (m, handle) = mock(0);
    let mut svc = balancer();
    let mut changes = VecDeque::from(vec![Change::Insert(0, m)]);

    handle.allow(0);
    assert!(!poll_ready(&mut svc, &mut changes));
    assert_eq!(svc.len(), 1, "balancer must have discovered endpoint");

    handle.allow(1);
    assert!(poll_ready(&mut svc, &mut changes));

    let fut = svc.call(());
    assert!(handle.respond("1"));
    assert_eq!(fut.poll(), Some("1"));

    handle.allow(1);
    assert!(poll_ready(&mut svc, &mut changes));

    handle.send_error("endpoint lost");
    assert!(!poll_ready(&mut svc, &mut changes));
    assert!(svc.is_empty(), "balancer must drop failed endpoints");
}

#[test]
fn two_endpoints_with_equal_load() {
    let (mock_a, handle_a) = mock(1);
    let (mock_b, handle_b) = mock(1);
    let mut svc = balancer();
    let mut changes = VecDeque::from(vec![Change::Insert(0, mock_a), Change::Insert(1, mock_b)]);

    handle_a.allow(0);
    handle_b.allow(0);
    assert!(!poll_ready(&mut svc, &mut changes));
    assert_eq!(svc.len(), 2, "balancer must have discovered both endpoints");

    handle_a.allow(1);
    handle_b.allow(0);
    assert!(
        poll_ready(&mut svc, &mut changes),
        "must be ready when one of two services is ready"
    );
    {
        let fut = svc.call(());
        assert!(handle_a.respond("a"));
        assert_eq!(fut.poll(), Some("a"));
    }

    handle_a.allow(0);
    handle_b.allow(1);
    assert!(
        poll_ready(&mut svc, &mut changes),
        "must be ready when both endpoints are ready"
    );
    {
        let fut = svc.call(());
        assert!(handle_b.respond("b"));
        assert_eq!(fut.poll(), Some("b"));
    }

    handle_a.allow(1);
    handle_b.allow(1);
    for _ in 0..2 {
        assert!(
            poll_ready(&mut svc, &mut changes),
            "must be ready when both endpoints are ready"
        );
        let fut = svc.call(());
        for (h, c) in [(&handle_a, "a"), (&handle_b, "b")] {
            if h.respond(c) {
                h.allow(0);
            }
        }
        assert!(fut.poll().is_some());
    }

    handle_a.send_error("endpoint lost");
    assert!(!poll_ready(&mut svc, &mut changes));
    assert_eq!(svc.len(), 1, "balancer must drop failed endpoints");
}

/// An always-ready endpoint that answers with its own id.
struct IdSvc {
    id: usize,
    load: usize,
}

impl Pollable for IdSvc {
    fn poll(&mut self) -> Readiness<&'static str> {
        Readiness::Ready
    }
}

impl Call<()> for IdSvc {
    type Future = usize;
    fn call(&mut self, _req: ()) -> usize {
        self.id
    }
}

impl Load for IdSvc {
    type Metric = usize;
    fn load(&self) -> usize {
        self.load
    }
}

#[test]
fn ready_index_reset_after_removal() {
    let endpoint = |id: usize, load: usize| IdSvc { id, load };
    let mut changes = VecDeque::new();
    let mut svc = balancer();

    // Promote endpoints one per poll so the ready set is ordered
    // [a@0, b@1, c@2]; `a` is selected first and stays selected.
    changes.push_back(Change::Insert(0, endpoint(0, 0)));
    assert!(poll_ready(&mut svc, &mut changes));
    changes.push_back(Change::Insert(1, endpoint(1, 1)));
    assert!(poll_ready(&mut svc, &mut changes));
    changes.push_back(Change::Insert(2, endpoint(2, 10)));
    assert!(poll_ready(&mut svc, &mut changes));
    assert_eq!(svc.ready_index(), Some(0));

    // Removing `a` moves `c` into its position and discards the selection.
    changes.push_back(Change::Remove(0));
    assert!(poll_ready(&mut svc, &mut changes));

    // A fresh selection over [c@0 (load 10), b@1 (load 1)] picks `b`.
    let fut = svc.call(());
    assert_eq!(
        fut, 1,
        "request must be routed by a fresh P2C selection (b), not the endpoint \
         swapped into the stale ready_index (c)"
    );
}

#[test]
fn removal_clears_selection() {
    let mut svc = balancer();
    let mut changes = VecDeque::new();
    changes.push_back(Change::Insert(5, IdSvc { id: 5, load: 0 }));
    assert!(poll_ready(&mut svc, &mut changes));
    assert_eq!(svc.ready_index(), Some(0));
    svc.update(Change::Remove(9));
    assert_eq!(svc.ready_index(), None);
    assert_eq!(svc.len(), 1);
}

#[test]
fn p2c_prefers_lesser_load() {
    assert_eq!(p2c_choose(3, &5usize, 7, &2usize), 7);
    assert_eq!(p2c_choose(3, &2usize, 7, &5usize), 3);
    assert_eq!(p2c_choose(3, &4usize, 7, &4usize), 3);
}

#[test]
fn p2c_over_many_picks_a_ready_index() {
    let mut svc = balancer();
    let mut changes = VecDeque::new();
    for id in 0..5u64 {
        changes.push_back(Change::Insert(id, IdSvc { id: id as usize, load: id as usize }));
    }
    assert!(poll_ready(&mut svc, &mut changes));
    for _ in 0..20 {
        let i = svc.p2c_ready_index().unwrap();
        assert!(i < 5);
        // The least loaded endpoint is never the one chosen against.
        assert_ne!(i, 4);
    }
}

#[test]
fn stepwise_readiness_matches_poll_ready() {
    let (m, handle) = mock(0);
    let mut svc = balancer();
    let mut changes = VecDeque::from(vec![Change::Insert(0, m)]);
    handle.allow(0);
    assert!(!poll_ready_by_steps(&mut svc, &mut changes));
    assert_eq!(svc.services().pending_len(), 1);
    handle.allow(1);
    assert!(poll_ready_by_steps(&mut svc, &mut changes));
    assert_eq!(svc.ready_index(), Some(0));
    assert!(poll_ready(&mut svc, &mut changes));
    assert_eq!(svc.ready_index(), Some(0));
    handle.send_error("gone");
    assert!(!poll_ready(&mut svc, &mut changes));
    assert!(svc.is_empty());
}

#[test]
fn removed_pending_endpoint_is_dropped_on_the_next_poll() {
    let (m, handle) = mock(0);
    let mut svc = balancer();
    let mut changes = VecDeque::from(vec![Change::Insert(3, m)]);
    handle.allow(0);
    assert!(!poll_ready(&mut svc, &mut changes));
    assert_eq!(svc.len(), 1);
    svc.update(Change::Remove(3));
    // Still counted, but cancelled, until the pending set is polled.
    assert_eq!(svc.len(), 1);
    handle.allow(1);
    assert!(!poll_ready(&mut svc, &mut changes));
    assert!(svc.is_empty());
}
