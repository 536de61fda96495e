use rate_limiting::algorithms::sliding_window_log::{SlidingWindowLogLimiter, SlidingWindowLogState};
use rate_limiting::limiter::{contention_decision, Decision, RateLimiter, RetryLoop, RetryStep};
use rate_limiting::store::LocalStore;

const NOW: i64 = 1_700_000_000_000;

fn encode(s: &SlidingWindowLogState) -> Vec<u8> {
    let mut v = Vec::new();
    for t in &s.timestamps_ms {
        v.extend_from_slice(&t.to_le_bytes());
    }
    v
}

fn decode(b: &[u8]) -> Option<SlidingWindowLogState> {
    if b.len() % 8 != 0 {
        return None;
    }
    let mut ts = Vec::new();
    for chunk in b.chunks(8) {
        let mut a = [0u8; 8];
        a.copy_from_slice(chunk);
        ts.push(i64::from_le_bytes(a));
    }
    Some(SlidingWindowLogState { timestamps_ms: ts })
}

fn check(l: &SlidingWindowLogLimiter, store: &mut LocalStore, client: &str, resource: &str, cost: u32, now: i64) -> Decision {
    let key = l.key(client, resource);
    let mut retry = RetryLoop::new();
    loop {
        let (prior, version) = match store.get(&key) {
            Some((bytes, v)) => (decode(&bytes), Some(v)),
            None => (None, None),
        };
        let (state, decision) = l.evaluate(prior, now, cost);
        if store.cas(&key, version, encode(&state)).success {
            return decision;
        }
        match retry.after_conflict() {
            RetryStep::Backoff(_) => {}
            RetryStep::GiveUp => return contention_decision(l.limit()),
        }
    }
}

fn limiter(max: u64, secs: u64) -> SlidingWindowLogLimiter {
    SlidingWindowLogLimiter::new(max, secs)
}

#[test]
fn sliding_window_log_name_is_correct() {
    assert_eq!(limiter(5, 1).name(), "sliding_window_log");
}

#[test]
fn sliding_window_log_allows_up_to_max_requests() {
    let l = limiter(4, 60);
    let mut store = LocalStore::new();
    for i in 0..4 {
        assert!(check(&l, &mut store, "c1", "r", 1, NOW).allowed, "request {i}");
    }
}

#[test]
fn sliding_window_log_denies_when_limit_exceeded() {
    let l = limiter(3, 60);
    let mut store = LocalStore::new();
    check(&l, &mut store, "c1", "r", 3, NOW);
    let d = check(&l, &mut store, "c1", "r", 1, NOW);
    assert!(!d.allowed);
    assert!(d.retry_after_ms > 0);
}

#[test]
fn old_entries_expire_and_allow_new_requests() {
    let l = limiter(2, 1);
    let mut store = LocalStore::new();
    check(&l, &mut store, "c1", "r", 2, NOW);
    assert!(!check(&l, &mut store, "c1", "r", 1, NOW).allowed);
    assert!(check(&l, &mut store, "c1", "r", 1, NOW + 1100).allowed);
}

#[test]
fn sliding_window_log_clients_are_isolated() {
    let l = limiter(2, 60);
    let mut store = LocalStore::new();
    check(&l, &mut store, "a", "r", 2, NOW);
    assert!(check(&l, &mut store, "b", "r", 1, NOW).allowed);
}

#[test]
fn cost_greater_than_one_is_logged_correctly() {
    let l = limiter(10, 60);
    let mut store = LocalStore::new();
    let d = check(&l, &mut store, "c1", "r", 6, NOW);
    assert!(d.allowed);
    assert_eq!(d.remaining, 4);
}

#[test]
fn remaining_decreases_correctly() {
    let l = limiter(10, 60);
    let mut store = LocalStore::new();
    let d1 = check(&l, &mut store, "c1", "r", 1, NOW);
    let d2 = check(&l, &mut store, "c1", "r", 1, NOW);
    assert_eq!(d1.remaining, 9);
    assert_eq!(d2.remaining, 8);
}

#[test]
fn sliding_window_log_prunes_and_reports_wait() {
    let l = limiter(2, 1);
    let prior = SlidingWindowLogState { timestamps_ms: vec![NOW - 1500, NOW - 400, NOW - 100] };
    let (s, d) = l.evaluate(Some(prior), NOW, 1);
    assert!(!d.allowed);
    assert_eq!(s.timestamps_ms, vec![NOW - 400, NOW - 100]);
    assert_eq!(d.retry_after_ms, 600);
    assert_eq!(d.remaining, 0);
    assert_eq!(d.limit, 2);
    assert_eq!(d.reason, "sliding-log limit 2/2 exceeded, retry in 600ms");
}

#[test]
fn sliding_window_log_logs_cost_copies() {
    let l = limiter(5, 1);
    let prior = SlidingWindowLogState { timestamps_ms: vec![NOW - 1000, NOW - 10] };
    let (s, d) = l.evaluate(Some(prior), NOW, 3);
    assert!(d.allowed);
    assert_eq!(s.timestamps_ms, vec![NOW - 10, NOW, NOW, NOW]);
    assert_eq!(d.remaining, 1);
    assert_eq!(d.reason, "ok \u{2014} 4/5 in window");
}

#[test]
fn sliding_window_log_full_log_frees_exactly_after_window() {
    let l = limiter(2, 1);
    let full = SlidingWindowLogState { timestamps_ms: vec![NOW, NOW] };
    let (s, d) = l.evaluate(Some(full.clone()), NOW + 999, 1);
    assert!(!d.allowed);
    assert_eq!(s.timestamps_ms, vec![NOW, NOW]);
    let (s, d) = l.evaluate(Some(full), NOW + 1000, 1);
    assert!(d.allowed);
    assert_eq!(s.timestamps_ms, vec![NOW + 1000]);
}
