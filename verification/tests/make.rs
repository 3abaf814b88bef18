use tower::make::{infallible_outcome, IntoService, MakeInfallibleService, Shared};
use tower::readiness::Call;

/// A service echoing its request.
#[derive(Clone, Copy)]
struct Echo;

impl Call<&'static str> for Echo {
    type Future = Result<&'static str, std::convert::Infallible>;
    fn call(&mut self, req: &'static str) -> Self::Future {
        Ok(req)
    }
}

#[test]
fn as_make_service() {
    let mut shared = Shared::new(Echo);
    let mut svc = shared.make_service(());
    let res = svc.call("foo").unwrap();
    assert_eq!(res, "foo");
}

#[test]
fn as_make_service_into_service() {
    let mut shared = IntoService::<_, &'static str>::new(Shared::new(Echo));
    let mut svc = shared.call(());
    let res = svc.call("foo").unwrap();
    assert_eq!(res, "foo");
}

/// Greets, but fails on its second call.
#[derive(Default)]
struct FlakyGreeterService(i32);

impl Call<String> for FlakyGreeterService {
    type Future = Result<String, i32>;
    fn call(&mut self, req: String) -> Self::Future {
        self.0 += 1;
        if self.0 == 2 {
            Err(-1)
        } else {
            Ok(format!("Hello {}!", req))
        }
    }
}

#[test]
fn test_call() {
    let mut greeter_service =
        FlakyGreeterService::default().make_infallible(|err: i32| format!("Error {}", err));

    let mut call = |name: &str| {
        let c = greeter_service.call(name.to_owned());
        Ok::<_, std::convert::Infallible>(infallible_outcome(c.fut, c.err_into_ok))
    };
    assert_eq!(call("Ferris"), Ok("Hello Ferris!".to_owned()));
    assert_eq!(call("Bob"), Ok("Error -1".to_owned()));
    assert_eq!(call("Rustaceans"), Ok("Hello Rustaceans!".to_owned()));
}
