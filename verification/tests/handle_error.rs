use tower::builder::ServiceBuilder;
use tower::handle_error::{handle_outcome, HandleError, HandleErrorLayer, ResponseFuture};
use tower::layer::Layer;
use tower::readiness::{Call, Readiness};

/// A service whose calls fail.
struct FailInCall;

impl Call<()> for FailInCall {
    type Future = Result<String, &'static str>;
    fn call(&mut self, _req: ()) -> Self::Future {
        Err("error")
    }
}

/// Resolves a response future of `HandleError` whose inner future has
/// already completed.
fn resolve<F: FnOnce(&'static str) -> String>(
    fut: ResponseFuture<Result<String, &'static str>, F, &'static str>,
) -> String {
    match fut {
        ResponseFuture::Future { future, f } => handle_outcome(future, f),
        ResponseFuture::Error(e, f) => handle_outcome(Err(e), f),
    }
}

#[test]
fn fail_in_call() {
    let layer = HandleErrorLayer::new(|err: &'static str| format!("error handled: {}", err));
    let mut svc = layer.layer(FailInCall);
    assert!(svc.poll_ready(Readiness::Ready));
    let err = resolve(svc.call(()));
    assert_eq!(err, "error handled: error");
}

#[test]
fn fail_in_poll_ready() {
    let layer = HandleErrorLayer::new(|err: &'static str| format!("error handled: {}", err));
    let mut svc = layer.layer(FailInCall);
    assert!(svc.poll_ready(Readiness::Failed("poll_ready error")));
    let err = resolve(svc.call(()));
    assert_eq!(err, "error handled: poll_ready error");
}

#[test]
fn works_in_large_stack() {
    let stack = ServiceBuilder::new()
        .layer(HandleErrorLayer::<_, &'static str>::new(|err: &'static str| {
            format!("error handled: {}", err)
        }))
        .load_shed()
        .concurrency_limit(1024);
    // as long as this type checks we are good
    let _ = stack.into_inner();
}

#[test]
fn kept_error_is_used_once() {
    let mut svc = HandleError::new(FailInCall, |err: &'static str| format!("handled {}", err));
    assert!(!svc.poll_ready(Readiness::Pending));
    assert!(svc.poll_ready(Readiness::Failed("first")));
    match svc.call(()) {
        ResponseFuture::Error(e, _) => assert_eq!(e, "first"),
        ResponseFuture::Future { .. } => panic!("the kept error must be reported"),
    }
    match svc.call(()) {
        ResponseFuture::Future { future, .. } => assert_eq!(future, Err("error")),
        ResponseFuture::Error(..) => panic!("the error must be reported once"),
    }
}

#[test]
fn success_passes_through_handler() {
    assert_eq!(handle_outcome(Ok::<_, &str>(5), |_e: &str| 0), 5);
    assert_eq!(handle_outcome(Err::<i32, _>("x"), |_e: &str| 7), 7);
}
