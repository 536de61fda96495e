use rate_limiting::algorithms::sliding_window_counter::{SlidingWindowCounterLimiter, SlidingWindowCounterState};
use rate_limiting::limiter::{contention_decision, Decision, RateLimiter, RetryLoop, RetryStep};
use rate_limiting::store::LocalStore;

// 60 s windows: NOW lies 20 s into window 28_333_333.
const NOW: u64 = 1_700_000_000;

fn encode(s: &SlidingWindowCounterState) -> Vec<u8> {
    let mut v = s.prev_count.to_le_bytes().to_vec();
    v.extend_from_slice(&s.curr_count.to_le_bytes());
    v.extend_from_slice(&s.curr_window_id.to_le_bytes());
    v
}

fn decode(b: &[u8]) -> Option<SlidingWindowCounterState> {
    if b.len() != 24 {
        return None;
    }
    let word = |i: usize| {
        let mut a = [0u8; 8];
        a.copy_from_slice(&b[i * 8..i * 8 + 8]);
        u64::from_le_bytes(a)
    };
    Some(SlidingWindowCounterState { prev_count: word(0), curr_count: word(1), curr_window_id: word(2) })
}

fn check(l: &SlidingWindowCounterLimiter, store: &mut LocalStore, client: &str, resource: &str, cost: u32, now: u64) -> Decision {
    let key = l.key(client, resource);
    let mut retry = RetryLoop::new();
    loop {
        let (prior, version) = match store.get(&key) {
            Some((bytes, v)) => (decode(&bytes), Some(v)),
            None => (None, None),
        };
        let (state, decision) = l.evaluate(prior, now, cost);
        if store.cas(&key, version, encode(&state)).success {
            return decision;
        }
        match retry.after_conflict() {
            RetryStep::Backoff(_) => {}
            RetryStep::GiveUp => return contention_decision(l.limit()),
        }
    }
}

fn limiter(max: u64, secs: u64) -> SlidingWindowCounterLimiter {
    SlidingWindowCounterLimiter::new(max, secs)
}

#[test]
fn sliding_window_counter_name_is_correct() {
    assert_eq!(limiter(5, 60).name(), "sliding_window_counter");
}

#[test]
fn sliding_window_counter_allows_up_to_max_requests() {
    let l = limiter(5, 60);
    let mut store = LocalStore::new();
    for i in 0..5 {
        assert!(check(&l, &mut store, "c1", "r", 1, NOW).allowed, "request {i}");
    }
}

#[test]
fn sliding_window_counter_denies_when_limit_exceeded() {
    let l = limiter(3, 60);
    let mut store = LocalStore::new();
    check(&l, &mut store, "c1", "r", 3, NOW);
    let d = check(&l, &mut store, "c1", "r", 1, NOW);
    assert!(!d.allowed);
    assert!(d.retry_after_ms > 0);
}

#[test]
fn sliding_window_counter_clients_are_isolated() {
    let l = limiter(2, 60);
    let mut store = LocalStore::new();
    check(&l, &mut store, "a", "r", 2, NOW);
    assert!(check(&l, &mut store, "b", "r", 1, NOW).allowed);
}

#[test]
fn cost_greater_than_one_is_counted_correctly() {
    let l = limiter(10, 60);
    let mut store = LocalStore::new();
    assert!(check(&l, &mut store, "c1", "r", 7, NOW).allowed);
    assert!(!check(&l, &mut store, "c1", "r", 4, NOW).allowed);
}

#[test]
fn sliding_window_counter_remaining_decreases_with_each_request() {
    let l = limiter(10, 60);
    let mut store = LocalStore::new();
    let d1 = check(&l, &mut store, "c1", "r", 1, NOW);
    let d2 = check(&l, &mut store, "c1", "r", 1, NOW);
    assert!(d1.remaining > d2.remaining);
}

#[test]
fn sliding_window_counter_weights_previous_window() {
    // 20 s into the window: the previous window's 6 requests weigh 6 * 40/60 = 4.
    let l = limiter(10, 60);
    let prior = SlidingWindowCounterState { prev_count: 1, curr_count: 6, curr_window_id: 28_333_332 };
    let (s, d) = l.evaluate(Some(prior), NOW, 2);
    assert_eq!(s, SlidingWindowCounterState { prev_count: 6, curr_count: 2, curr_window_id: 28_333_333 });
    assert!(d.allowed);
    assert_eq!(d.remaining, 4);
    assert_eq!(d.reason, "ok \u{2014} weighted 6.0/10 in window");
    let (s2, d2) = l.evaluate(Some(s), NOW, 5);
    assert!(!d2.allowed);
    assert_eq!(s2, s);
    assert_eq!(d2.remaining, 0);
    assert_eq!(d2.retry_after_ms, 40_000);
    assert_eq!(d2.reason, "sliding-counter limit exceeded (weighted 6.0/10), retry in 40000ms");
}

#[test]
fn sliding_window_counter_fractional_weight() {
    // 1 previous request, 20 s into a 60 s window: weighs 2/3.
    let l = limiter(3, 60);
    let prior = SlidingWindowCounterState { prev_count: 0, curr_count: 1, curr_window_id: 28_333_332 };
    let (_, d) = l.evaluate(Some(prior), NOW, 2);
    assert!(d.allowed);
    assert_eq!(d.remaining, 0);
    assert_eq!(d.reason, "ok \u{2014} weighted 2.7/3 in window");
    let (_, d2) = l.evaluate(Some(prior), NOW, 3);
    assert!(!d2.allowed);
    assert_eq!(d2.reason, "sliding-counter limit exceeded (weighted 0.7/3), retry in 40000ms");
}

#[test]
fn sliding_window_counter_forgets_after_two_windows() {
    let l = limiter(3, 60);
    let prior = SlidingWindowCounterState { prev_count: 9, curr_count: 9, curr_window_id: 28_333_331 };
    let (s, d) = l.evaluate(Some(prior), NOW, 3);
    assert!(d.allowed);
    assert_eq!(s, SlidingWindowCounterState { prev_count: 0, curr_count: 3, curr_window_id: 28_333_333 });
}

#[test]
fn sliding_window_counter_previous_window_fades() {
    // 6 requests in the previous window weigh 4 at 20 s and 1 at 50 s.
    let l = limiter(5, 60);
    let prior = SlidingWindowCounterState { prev_count: 0, curr_count: 6, curr_window_id: 28_333_332 };
    let (_, early) = l.evaluate(Some(prior), NOW, 2);
    assert!(!early.allowed);
    assert_eq!(early.retry_after_ms, 40_000);
    let (s, late) = l.evaluate(Some(prior), NOW + 30, 2);
    assert!(late.allowed);
    assert_eq!(late.remaining, 2);
    assert_eq!(s, SlidingWindowCounterState { prev_count: 6, curr_count: 2, curr_window_id: 28_333_333 });
}
