//! `async fn(Request) -> Result<Response, Error>`
//!
//! The decision logic of Tower's middleware: circuit breaking, rate limiting,
//! load shedding, readiness caching, power-of-two-choices balancing, request
//! buffering, multiplexing, filtering and error handling. Each middleware is a
//! state machine whose transitions are verified here; the asynchronous driving
//! of services is left to the caller.

pub mod circuit_breaker;
mod clock;
mod index_set;
pub mod discover;
pub mod load;
pub mod readiness;
pub mod ready_cache;
mod rng;
pub mod balance;
pub mod rate_limit;
pub mod buffer;
pub mod layer;
pub mod multiplex;
pub mod load_shed;
pub mod filter;
pub mod handle_error;
pub mod make;
pub mod limit;
pub mod hedge;
pub mod builder;
pub mod sealed;
pub mod make_balance;
