use tower::readiness::{Call, Readiness};
use tower::ready_cache::ReadyCache;

struct Svc(&'static str);

impl Call<u32> for Svc {
    type Future = (&'static str, u32);
    fn call(&mut self, req: u32) -> Self::Future {
        (self.0, req)
    }
}

fn cache_with_ready(keys: &[u64]) -> ReadyCache<Svc> {
    let names = ["a", "b", "c", "d"];
    let mut c = ReadyCache::new();
    for (i, k) in keys.iter().enumerate() {
        c.push(*k, Svc(names[i]));
        c.promote_pending(0);
    }
    c
}

#[test]
fn push_goes_to_pending_then_ready() {
    let mut c: ReadyCache<Svc> = ReadyCache::new();
    assert!(c.is_empty());
    c.push(1, Svc("a"));
    assert!(c.pending_contains(1));
    assert_eq!(c.pending_len(), 1);
    assert_eq!(c.ready_len(), 0);
    c.promote_pending(0);
    assert!(!c.pending_contains(1));
    assert!(c.ready_contains(1));
    assert_eq!(c.len(), 1);
    assert_eq!(c.get_ready(1).map(|(i, k, s)| (i, k, s.0)), Some((0, 1, "a")));
}

#[test]
fn evict_swaps_last_into_place() {
    let mut c = cache_with_ready(&[10, 20, 30]);
    assert!(c.evict(10));
    assert_eq!(c.get_ready_index(0).map(|(k, s)| (k, s.0)), Some((30, "c")));
    assert_eq!(c.get_ready_index(1).map(|(k, s)| (k, s.0)), Some((20, "b")));
    assert!(c.get_ready_index(2).is_none());
    assert!(!c.evict(10));
}

#[test]
fn evict_cancels_pending() {
    let mut c: ReadyCache<Svc> = ReadyCache::new();
    c.push(4, Svc("a"));
    assert!(c.evict(4));
    // The cancelled service stays counted until the pending set is polled.
    assert_eq!(c.pending_len(), 1);
    assert!(c.pending_contains(4));
    let mut poll = |_: u64, _: Svc| -> (Svc, Readiness<()>) { panic!("a cancelled service is not polled") };
    assert_eq!(c.poll_pending(&mut poll).ok(), Some(true));
    assert!(c.is_empty());
}

#[test]
fn unready_service_goes_back_to_pending() {
    let mut c = cache_with_ready(&[1, 2]);
    assert_eq!(c.check_ready_index(0, Readiness::<()>::Ready).ok(), Some(true));
    assert_eq!(c.check_ready_index(0, Readiness::<()>::Pending).ok(), Some(false));
    assert!(c.pending_contains(1));
    assert!(!c.ready_contains(1));
    assert_eq!(c.get_ready_index(0).map(|(k, _)| k), Some(2));
    // Out of range is simply not ready.
    assert_eq!(c.check_ready_index(9, Readiness::<()>::Ready).ok(), Some(false));
}

#[test]
fn failed_service_is_dropped_with_its_key() {
    let mut c = cache_with_ready(&[1, 2]);
    let err = c.check_ready(2, Readiness::Failed("down")).err().unwrap();
    assert_eq!(err.0, 2);
    assert_eq!(err.1, "down");
    assert!(!c.ready_contains(2));
    assert!(!c.pending_contains(2));
    assert_eq!(c.check_ready(2, Readiness::<()>::Ready).ok(), Some(false));
}

#[test]
fn called_service_returns_to_pending_unless_replaced() {
    let mut c = cache_with_ready(&[1, 2]);
    assert_eq!(c.call_ready(1, 7), ("a", 7));
    assert!(c.pending_contains(1));
    assert!(!c.ready_contains(1));

    // A newer service for key 2 is pending: the called one is dropped.
    c.push(2, Svc("new"));
    assert_eq!(c.call_ready_index(0, 8), ("b", 8));
    assert_eq!(c.pending_len(), 2);
    c.promote_pending(1);
    assert_eq!(c.get_ready(2).map(|(_, _, s)| s.0), Some("new"));
}

#[test]
fn promoted_service_replaces_ready_one_in_place() {
    let mut c = cache_with_ready(&[1, 2]);
    c.push(1, Svc("newer"));
    c.promote_pending(0);
    assert_eq!(c.get_ready_index(0).map(|(k, s)| (k, s.0)), Some((1, "newer")));
    assert_eq!(c.ready_len(), 2);
}

#[test]
fn pushing_a_pending_key_replaces_it() {
    let mut c: ReadyCache<Svc> = ReadyCache::new();
    c.push(3, Svc("old"));
    c.push(3, Svc("new"));
    assert_eq!(c.pending_len(), 1);
    let f = c.fail_pending(0, "gone");
    assert_eq!(f.0, 3);
    assert!(c.is_empty());
}

#[test]
fn get_ready_mut_finds_by_key() {
    let mut c = cache_with_ready(&[5, 6]);
    match c.get_ready_mut(6) {
        Some((i, s)) => {
            assert_eq!(i, 1);
            s.0 = "changed";
        }
        None => panic!("key 6 is ready"),
    }
    assert_eq!(c.get_ready(6).map(|(i, _, s)| (i, s.0)), Some((1, "changed")));
    assert!(c.get_ready_mut(7).is_none());
}

#[test]
fn poll_pending_promotes_ready_and_reports_first_failure() {
    let mut c: ReadyCache<Svc> = ReadyCache::new();
    c.push(1, Svc("a"));
    c.push(2, Svc("b"));
    c.push(3, Svc("c"));
    let mut poll = |_: u64, s: Svc| {
        let r = match s.0 {
            "a" => Readiness::Ready,
            "b" => Readiness::Failed("down"),
            _ => Readiness::Pending,
        };
        (s, r)
    };
    let err = c.poll_pending(&mut poll).err().unwrap();
    assert_eq!((err.0, err.1), (2, "down"));
    assert!(c.ready_contains(1));
    assert!(c.pending_contains(3));
    assert_eq!(c.poll_pending(&mut poll).ok(), Some(false));
    let mut all_ready = |_: u64, s: Svc| (s, Readiness::<&'static str>::Ready);
    assert_eq!(c.poll_pending(&mut all_ready).ok(), Some(true));
    assert_eq!(c.ready_len(), 2);
}

#[test]
fn poll_ready_at_hands_back_the_service() {
    let mut c = cache_with_ready(&[1, 2]);
    let mut rename = |k: u64, s: Svc| -> (Svc, Readiness<()>) {
        let name = if k == 2 { "polled" } else { s.0 };
        (Svc(name), Readiness::Pending)
    };
    let r = c.poll_ready_at(1, &mut rename);
    assert_eq!(r, Readiness::Pending);
    assert_eq!(c.get_ready_index(1).map(|(k, s)| (k, s.0)), Some((2, "polled")));
    // The readiness is recorded separately: the service goes back to pending.
    assert_eq!(c.check_ready_index(1, r).ok(), Some(false));
    assert!(c.pending_contains(2));
    assert!(!c.ready_contains(2));
}
