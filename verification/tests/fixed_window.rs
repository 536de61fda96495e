use rate_limiting::algorithms::fixed_window::{FixedWindowLimiter, FixedWindowState};
use rate_limiting::limiter::{contention_decision, Decision, RateLimiter, RetryLoop, RetryStep};
use rate_limiting::store::LocalStore;

const NOW: u64 = 1_700_000_010;

fn encode(s: &FixedWindowState) -> Vec<u8> {
    let mut v = s.count.to_le_bytes().to_vec();
    v.extend_from_slice(&s.window_id.to_le_bytes());
    v
}

fn decode(b: &[u8]) -> Option<FixedWindowState> {
    if b.len() != 16 {
        return None;
    }
    let mut c = [0u8; 8];
    let mut w = [0u8; 8];
    c.copy_from_slice(&b[..8]);
    w.copy_from_slice(&b[8..]);
    Some(FixedWindowState { count: u64::from_le_bytes(c), window_id: u64::from_le_bytes(w) })
}

/// One check against a local store: read, decide, commit, retrying on conflict.
fn check(l: &FixedWindowLimiter, store: &mut LocalStore, client: &str, resource: &str, cost: u32, now: u64) -> Decision {
    let key = l.key(client, resource);
    let mut retry = RetryLoop::new();
    loop {
        let (prior, version) = match store.get(&key) {
            Some((bytes, v)) => (decode(&bytes), Some(v)),
            None => (None, None),
        };
        let (state, decision) = l.evaluate(prior, now, cost);
        if store.cas(&key, version, encode(&state)).success {
            return decision;
        }
        match retry.after_conflict() {
            RetryStep::Backoff(_) => {}
            RetryStep::GiveUp => return contention_decision(l.limit()),
        }
    }
}

fn limiter(max: u64, secs: u64) -> FixedWindowLimiter {
    FixedWindowLimiter::new(max, secs)
}

#[test]
fn fixed_window_name_is_correct() {
    assert_eq!(limiter(5, 60).name(), "fixed_window");
}

#[test]
fn fixed_window_allows_up_to_max_requests() {
    let l = limiter(5, 60);
    let mut store = LocalStore::new();
    for i in 0..5 {
        assert!(check(&l, &mut store, "c1", "r", 1, NOW).allowed, "request {i}");
    }
}

#[test]
fn fixed_window_denies_when_limit_exceeded() {
    let l = limiter(3, 60);
    let mut store = LocalStore::new();
    check(&l, &mut store, "c1", "r", 3, NOW);
    let d = check(&l, &mut store, "c1", "r", 1, NOW);
    assert!(!d.allowed);
    assert_eq!(d.remaining, 0);
    assert!(d.retry_after_ms > 0);
}

#[test]
fn fixed_window_clients_are_isolated() {
    let l = limiter(2, 60);
    let mut store = LocalStore::new();
    check(&l, &mut store, "a", "r", 2, NOW);
    assert!(check(&l, &mut store, "b", "r", 1, NOW).allowed);
}

#[test]
fn cost_greater_than_one_consumed_correctly() {
    let l = limiter(10, 60);
    let mut store = LocalStore::new();
    assert!(check(&l, &mut store, "c1", "r", 7, NOW).allowed);
    assert!(!check(&l, &mut store, "c1", "r", 4, NOW).allowed);
}

#[test]
fn fixed_window_remaining_decreases_with_each_request() {
    let l = limiter(10, 60);
    let mut store = LocalStore::new();
    let d1 = check(&l, &mut store, "c1", "r", 1, NOW);
    let d2 = check(&l, &mut store, "c1", "r", 1, NOW);
    assert!(d1.remaining > d2.remaining);
}

#[test]
fn fixed_window_exact_decision_and_reason() {
    // window of 60 s: NOW = 1_700_000_010 lies in window 28_333_333, which
    // ends at 1_700_000_040, 30 s later.
    let l = limiter(3, 60);
    let (s1, d1) = l.evaluate(None, NOW, 2);
    assert_eq!(s1, FixedWindowState { count: 2, window_id: 28_333_333 });
    assert!(d1.allowed);
    assert_eq!(d1.limit, 3);
    assert_eq!(d1.remaining, 1);
    assert_eq!(d1.retry_after_ms, 0);
    assert_eq!(d1.reason, "ok \u{2014} 2/3 used");
    let (s2, d2) = l.evaluate(Some(s1), NOW, 2);
    assert_eq!(s2, s1);
    assert!(!d2.allowed);
    assert_eq!(d2.remaining, 1);
    assert_eq!(d2.retry_after_ms, 30_000);
    assert_eq!(d2.reason, "fixed-window limit 2/3 exceeded, resets in 30000ms");
}

#[test]
fn fixed_window_new_window_resets_count() {
    let l = limiter(3, 60);
    let full = FixedWindowState { count: 3, window_id: 28_333_332 };
    let (s, d) = l.evaluate(Some(full), NOW, 3);
    assert!(d.allowed);
    assert_eq!(s, FixedWindowState { count: 3, window_id: 28_333_333 });
    assert_eq!(d.remaining, 0);
}

#[test]
fn fixed_window_key_layout() {
    let l = limiter(3, 60);
    assert_eq!(l.key("alice", "/api/orders"), "fixed_window/alice//api/orders");
    assert_ne!(l.key("a", "r"), l.key("b", "r"));
}

#[test]
fn fixed_window_denial_is_sticky_within_window() {
    let l = limiter(1, 60);
    let (s, d) = l.evaluate(None, NOW, 1);
    assert!(d.allowed);
    let (s2, d2) = l.evaluate(Some(s), NOW + 5, 1);
    assert!(!d2.allowed);
    let (_, d3) = l.evaluate(Some(s2), NOW + 29, 1);
    assert!(!d3.allowed);
}

#[test]
fn fixed_window_full_window_rejects_zero_cost() {
    let l = limiter(3, 60);
    let mut store = LocalStore::new();
    assert!(check(&l, &mut store, "c1", "r", 3, NOW).allowed);
    let d = check(&l, &mut store, "c1", "r", 0, NOW);
    assert!(!d.allowed);
    assert_eq!(d.remaining, 0);
    assert!(d.retry_after_ms > 0);
    let zero = limiter(0, 60);
    assert!(!zero.evaluate(None, NOW, 0).1.allowed);
}

#[test]
fn fixed_window_keys_differ_when_request_texts_differ() {
    let l = limiter(3, 60);
    assert_ne!(l.key("a", "x"), l.key("b", "y"));
    // ids containing '/' can join to the same text, and then share a key
    assert_eq!(l.key("a/b", "c"), l.key("a", "b/c"));
}
