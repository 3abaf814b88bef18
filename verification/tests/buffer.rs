use tower::buffer::{resolve_reply, BufferError, Handle, Worker, WorkerStep};
use tower::readiness::Readiness;

#[test]
fn open_handle_reports_nothing() {
    let h: Handle<&str> = Handle::new();
    assert!(!h.is_closed());
    assert!(h.try_get_error().is_none());
    assert!(matches!(h.get_error_on_closed(), BufferError::Closed));
}

#[test]
fn first_failure_is_kept() {
    let mut h = Handle::new();
    assert!(h.fail("first"));
    assert!(!h.fail("second"));
    assert!(h.is_closed());
    assert!(matches!(h.try_get_error(), Some(BufferError::Service("first"))));
}

#[test]
fn worker_dispatches_ready_and_parks_pending() {
    let mut h: Handle<&str> = Handle::new();
    let mut w = Worker::new();
    assert!(w.step_if_failed().is_none());
    assert!(matches!(w.on_readiness(&mut h, Readiness::Ready), WorkerStep::Dispatch));
    assert!(matches!(w.on_readiness(&mut h, Readiness::Pending), WorkerStep::Park));
    assert!(w.has_parked());
    // The parked request is resumed unless its caller went away.
    assert!(w.resume_parked(false));
    assert!(!w.has_parked());
    assert!(w.accept_new(false));
    assert!(!w.accept_new(true));
}

#[test]
fn failure_answers_every_later_request() {
    let mut h: Handle<&str> = Handle::new();
    let mut w = Worker::new();
    assert!(matches!(
        w.on_readiness(&mut h, Readiness::Failed("broken")),
        WorkerStep::Fail(BufferError::Service("broken"))
    ));
    assert!(h.is_closed());
    for _ in 0..3 {
        assert!(matches!(
            w.step_if_failed(),
            Some(WorkerStep::Reject(BufferError::Service("broken")))
        ));
    }
    assert!(matches!(h.try_get_error(), Some(BufferError::Service("broken"))));
}

#[test]
fn failure_after_an_earlier_one_drops_the_request() {
    let mut h: Handle<&str> = Handle::new();
    h.fail("earlier");
    let mut w = Worker::new();
    assert!(matches!(w.on_readiness(&mut h, Readiness::Failed("later")), WorkerStep::Drop));
    assert!(w.step_if_failed().is_none());
    assert!(matches!(h.get_error_on_closed(), BufferError::Service("earlier")));
}

#[test]
fn worker_finishes() {
    let mut w: Worker<()> = Worker::new();
    assert!(!w.is_finished());
    w.finish();
    assert!(w.is_finished());
}

#[test]
fn replies_resolve() {
    assert!(matches!(resolve_reply::<u8, &str>(Some(Ok(3))), Ok(3)));
    assert!(matches!(
        resolve_reply::<u8, &str>(Some(Err("e"))),
        Err(BufferError::Service("e"))
    ));
    assert!(matches!(resolve_reply::<u8, &str>(None), Err(BufferError::Closed)));
}

#[test]
fn messages_are_forwarded_once_in_send_order() {
    let mut h: Handle<&str> = Handle::new();
    let mut w = Worker::new();
    let mut next = 0;
    let mut in_hand: Option<u32> = None;
    let mut forwarded = Vec::new();
    for r in [Readiness::Pending, Readiness::Ready, Readiness::Ready, Readiness::Pending, Readiness::Ready] {
        let m = if w.has_parked() {
            assert!(w.resume_parked(false));
            in_hand.take().unwrap()
        } else {
            next += 1;
            next - 1
        };
        match w.on_readiness(&mut h, r) {
            WorkerStep::Dispatch => forwarded.push(m),
            WorkerStep::Park => in_hand = Some(m),
            _ => panic!("the service does not fail here"),
        }
    }
    assert_eq!(forwarded, vec![0, 1, 2]);
}
