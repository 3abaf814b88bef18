# tower

The decision logic of Tower's middleware, written in Verus and proved
against its contracts: circuit breaking, rate limiting, load shedding, a
readiness cache, power-of-two-choices balancing, request buffering,
multiplexing, filtering, error handling, delays and service builders.

Each middleware is a state machine: the caller polls the wrapped services,
timers and channels, and hands what it observed (a `Readiness`, the current
time in nanoseconds, a discovered change) to the library, which decides what
happens next.

Layout:

- `src/` — the verified library. `circuit_breaker`, `rate_limit`,
  `ready_cache`, `balance`, `buffer`, `multiplex`, `load_shed`, `filter`,
  `handle_error`, `make`, `hedge`, `load`, `layer`, `builder`,
  `make_balance`, `limit`; the private modules `clock`, `index_set` and
  `rng` hold the contracts of the calls into `std::time`, `indexmap` and
  `rand`.
- `tests/` — tests of the library.
- `app/` — the asynchronous services around the library: the `Service`
  trait, and services driven by tokio timers, semaphores and channels.
