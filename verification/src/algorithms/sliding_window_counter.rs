//! # Sliding Window Counter
//!
//! Blends the previous window's counter with the current window's counter,
//! weighted by how far into the current window we are:
//!
//! ```text
//! weighted = prev_count * (1 - elapsed/window) + curr_count
//! ```
//!
//! The weighted count is a rational number with denominator `window`; it is
//! computed here exactly, in integers.

use vstd::prelude::*;
use vstd::arithmetic::div_mod::lemma_fundamental_div_mod_converse;
use crate::limiter::{Decision, RateLimiter, state_key, state_key_spec};
use crate::text::{decimal, one_decimal, signed_decimal, push_decimal, push_one_decimal, push_signed_decimal};

verus! {

/// Stored state of one client: the counts of the previous and the current
/// window, and the id of the current window.
#[derive(Debug, Clone, Copy, PartialEq, Eq, Structural)]
pub struct SlidingWindowCounterState {
    pub prev_count: u64,
    pub curr_count: u64,
    pub curr_window_id: u64,
}

pub struct SlidingWindowCounterLimiter {
    max_requests: u64,
    window_secs: u64,
}

/// The (previous, current) counts seen from window `window_id`: unchanged
/// in the stored window, shifted by one in the next window, and zero later
/// (or when nothing is stored).
pub open spec fn carried_counts(prior: Option<SlidingWindowCounterState>, window_id: int) -> (int, int) {
    match prior {
        Some(s) => {
            let diff = if window_id >= s.curr_window_id { window_id - s.curr_window_id } else { 0 };
            if diff == 0 {
                (s.prev_count as int, s.curr_count as int)
            } else if diff == 1 {
                (s.curr_count as int, 0)
            } else {
                (0, 0)
            }
        },
        None => (0, 0),
    }
}

/// `window * weighted`: the weighted count scaled by the window length, so
/// that it is an integer.
pub open spec fn scaled_weight(prev: int, curr: int, elapsed: int, window: int) -> int {
    prev * (window - elapsed) + curr * window
}

/// Whether `weighted + cost <= max`.
pub open spec fn counter_allows(max: int, prev: int, curr: int, elapsed: int, window: int, cost: int) -> bool {
    scaled_weight(prev, curr, elapsed, window) + cost * window <= max * window
}

/// Law (windows roll over): seen from the next window, the stored current
/// count becomes the previous one and the current count starts at 0; two or
/// more windows later both are 0; within the stored window both are kept.
pub proof fn law_window_rollover(s: SlidingWindowCounterState, window_id: int)
    ensures
        carried_counts(None, window_id) == (0int, 0int),
        window_id <= s.curr_window_id ==> carried_counts(Some(s), window_id) == (s.prev_count as int, s.curr_count as int),
        window_id == s.curr_window_id + 1 ==> carried_counts(Some(s), window_id) == (s.curr_count as int, 0int),
        window_id >= s.curr_window_id + 2 ==> carried_counts(Some(s), window_id) == (0int, 0int),
{
}

/// Law (a denied client waits for the window's end): the wait is between
/// one second and one window.
pub proof fn law_denied_waits_for_window_end(window: int, now: int)
    requires
        window > 0,
        now >= 0,
    ensures
        1000 <= (window - now % window) * 1000 <= window * 1000,
{
}

/// Law (the previous window's weight falls linearly): at the start of a
/// window both counts weigh fully, and every second into the window the
/// scaled weight drops by the previous window's count.
pub proof fn law_weight_falls_linearly(prev: int, curr: int, elapsed: int, window: int)
    ensures
        scaled_weight(prev, curr, 0, window) == (prev + curr) * window,
        scaled_weight(prev, curr, elapsed + 1, window) == scaled_weight(prev, curr, elapsed, window) - prev,
{
    assert(prev * (window - 0) + curr * window == (prev + curr) * window) by (nonlinear_arith);
    assert(prev * (window - (elapsed + 1)) == prev * (window - elapsed) - prev) by (nonlinear_arith);
}

/// Law (the decision compares the weighted count with the limit): a request
/// is allowed exactly when `prev * (window - elapsed) / window + curr + cost
/// <= max`, compared without rounding.
pub proof fn law_allows_iff_weight_fits(max: int, prev: int, curr: int, elapsed: int, window: int, cost: int)
    requires
        window > 0,
    ensures
        counter_allows(max, prev, curr, elapsed, window, cost)
            == (prev * (window - elapsed) <= (max - curr - cost) * window),
{
    assert((max - curr - cost) * window == max * window - curr * window - cost * window) by (nonlinear_arith);
}

/// Law (the previous window fades): with the same counts, a request allowed
/// at some point of a window is also allowed at any later point of it.
pub proof fn law_previous_window_fades(max: int, prev: int, curr: int, early: int, late: int, window: int, cost: int)
    requires
        prev >= 0,
        0 <= early <= late < window,
        counter_allows(max, prev, curr, early, window, cost),
    ensures
        counter_allows(max, prev, curr, late, window, cost),
{
    assert(prev * (window - late) <= prev * (window - early)) by (nonlinear_arith)
        requires
            prev >= 0,
            early <= late,
    ;
}

/// Law (an allowed request stays within the limit): after it is counted, the
/// weighted count at the same instant is at most `max`.
pub proof fn law_allowed_within_limit(max: int, prev: int, curr: int, elapsed: int, window: int, cost: int)
    requires
        counter_allows(max, prev, curr, elapsed, window, cost),
    ensures
        scaled_weight(prev, curr + cost, elapsed, window) <= max * window,
{
    assert((curr + cost) * window == curr * window + cost * window) by (nonlinear_arith);
}

impl SlidingWindowCounterLimiter {
    pub closed spec fn max_requests(&self) -> u64 {
        self.max_requests
    }

    pub closed spec fn window_secs(&self) -> u64 {
        self.window_secs
    }

    pub fn new(max_requests: u64, window_secs: u64) -> (l: Self)
        ensures
            l.max_requests() == max_requests,
            l.window_secs() == window_secs,
    {
        SlidingWindowCounterLimiter { max_requests, window_secs }
    }

    /// The limit reported in every decision: `max_requests` as `i64`.
    pub fn limit(&self) -> (n: i64)
        ensures
            n == self.max_requests() as i64,
    {
        self.max_requests as i64
    }

    /// The store key of `client_id`'s state for `resource`.
    pub fn key(&self, client_id: &str, resource: &str) -> (k: String)
        ensures
            k@ == state_key_spec("sliding_window_counter"@, client_id@, resource@),
    {
        state_key("sliding_window_counter", client_id, resource)
    }

    /// Decides a request of `cost` units at `now` (seconds since the epoch).
    /// It is allowed when `weighted + cost <= max_requests`; the remaining
    /// capacity is `max_requests - weighted - cost` rounded down (0 when
    /// denied), and a denied caller waits until the current window ends.
    pub fn evaluate(&self, prior: Option<SlidingWindowCounterState>, now: u64, cost: u32) -> (r: (SlidingWindowCounterState, Decision))
        requires
            self.window_secs() > 0,
        ensures
            ({
                let max = self.max_requests() as int;
                let w = self.window_secs() as int;
                let window_id = now as int / w;
                let elapsed = now as int % w;
                let (prev, curr) = carried_counts(prior, window_id);
                let weight = scaled_weight(prev, curr, elapsed, w);
                let allowed = counter_allows(max, prev, curr, elapsed, w, cost as int);
                let (state, d) = r;
                &&& state.prev_count == prev
                &&& state.curr_count == (if allowed { curr + cost } else { curr })
                &&& state.curr_window_id == window_id
                &&& d.allowed == allowed
                &&& d.limit == self.max_requests() as i64
                &&& d.remaining == (if allowed {
                    let rem = (max * w - weight - cost * w) / w;
                    if rem > i64::MAX { i64::MAX as int } else { rem }
                } else {
                    0
                })
                &&& d.retry_after_ms == (if allowed {
                    0
                } else if (w - elapsed) * 1000 > i64::MAX {
                    i64::MAX as int
                } else {
                    (w - elapsed) * 1000
                })
                &&& d.reason@ == (if allowed {
                    "ok \u{2014} weighted "@ + one_decimal(weight + cost * w, w) + "/"@ + decimal(max as nat) + " in window"@
                } else {
                    "sliding-counter limit exceeded (weighted "@ + one_decimal(weight, w) + "/"@ + decimal(max as nat)
                        + "), retry in "@ + signed_decimal(d.retry_after_ms as int) + "ms"@
                })
            }),
    {
        let w = self.window_secs;
        let window_id = now / w;
        let elapsed = now % w;
        let (prev, curr): (u64, u64) = match prior {
            Some(s) => {
                let diff = if window_id >= s.curr_window_id { window_id - s.curr_window_id } else { 0 };
                if diff == 0 {
                    (s.prev_count, s.curr_count)
                } else if diff == 1 {
                    (s.curr_count, 0)
                } else {
                    (0, 0)
                }
            },
            None => (0, 0),
        };
        let cost = cost as u64;
        let w128 = w as u128;
        let left = (w - elapsed) as u128;
        assert((prev as u128) * left <= u64::MAX as int * u64::MAX as int) by (nonlinear_arith)
            requires
                prev <= u64::MAX,
                left <= u64::MAX,
        ;
        let carried = (prev as u128) * left;
        assert(carried <= (prev as u128) * w128) by (nonlinear_arith)
            requires
                carried == (prev as u128) * left,
                left <= w128,
        ;
        assert((prev as u128) * w128 <= u64::MAX as int * u64::MAX as int) by (nonlinear_arith)
            requires
                prev <= u64::MAX,
                w128 <= u64::MAX,
        ;
        let whole_carried = carried / w128;
        let frac = carried % w128;
        proof {
            assert(carried == whole_carried * w128 + frac) by (nonlinear_arith)
                requires
                    whole_carried == carried / w128,
                    frac == carried % w128,
                    w128 > 0,
            ;
            assert(whole_carried <= prev) by (nonlinear_arith)
                requires
                    whole_carried == carried / w128,
                    carried <= (prev as u128) * w128,
                    w128 > 0,
            ;
        }
        let ghost weight = scaled_weight(prev as int, curr as int, elapsed as int, w as int);
        let ghost max = self.max_requests as int;
        let allowed: bool;
        if (curr as u128) + (cost as u128) > (self.max_requests as u128) {
            allowed = false;
            assert(!counter_allows(max, prev as int, curr as int, elapsed as int, w as int, cost as int)) by (nonlinear_arith)
                requires
                    curr + cost > max,
                    prev >= 0,
                    w > elapsed,
            ;
        } else {
            let spare_requests = (self.max_requests - curr - cost) as u128;
            assert(spare_requests * w128 <= u64::MAX as int * u64::MAX as int) by (nonlinear_arith)
                requires
                    spare_requests <= u64::MAX,
                    w128 <= u64::MAX,
            ;
            let room = spare_requests * w128;
            allowed = carried <= room;
            assert(allowed == counter_allows(max, prev as int, curr as int, elapsed as int, w as int, cost as int)) by (nonlinear_arith)
                requires
                    room == (max - curr - cost) * w,
                    carried == prev * (w - elapsed),
                    allowed == (carried <= room),
            ;
        }
        if allowed {
            let new_curr = curr + cost;
            let whole = whole_carried + (new_curr as u128);
            let spare: u128 = if frac > 0 { 1 } else { 0 };
            proof {
                assert(carried + new_curr * w128 <= self.max_requests * w128) by (nonlinear_arith)
                    requires
                        counter_allows(max, prev as int, curr as int, elapsed as int, w as int, cost as int),
                        carried == prev * (w - elapsed),
                        new_curr == curr + cost,
                        w128 == w,
                        max == self.max_requests,
                ;
                assert(whole + spare <= self.max_requests) by (nonlinear_arith)
                    requires
                        carried == whole_carried * w128 + frac,
                        carried + new_curr * w128 <= self.max_requests * w128,
                        whole == whole_carried + new_curr,
                        spare == (if frac > 0 { 1int } else { 0int }),
                        frac < w128,
                        w128 > 0,
                ;
                assert(weight + cost * w == whole * w128 + frac) by (nonlinear_arith)
                    requires
                        weight == prev * (w - elapsed) + curr * w,
                        carried == prev * (w - elapsed),
                        carried == whole_carried * w128 + frac,
                        whole == whole_carried + curr + cost,
                        w128 == w,
                ;
                assert(max * w - weight - cost * w == (max - whole - spare) * w + (spare * w - frac)) by (nonlinear_arith)
                    requires
                        weight + cost * w == whole * w128 + frac,
                        w128 == w,
                ;
                lemma_fundamental_div_mod_converse(
                    max * w - weight - cost * w,
                    w as int,
                    max - whole - spare,
                    (spare * w - frac) as int,
                );
            }
            let rem128 = (self.max_requests as u128) - whole - spare;
            let remaining: i64 = if rem128 > (i64::MAX as u128) { i64::MAX } else { rem128 as i64 };
            let mut reason = String::from_str("ok \u{2014} weighted ");
            push_one_decimal(&mut reason, whole, frac, w);
            reason.append("/");
            push_decimal(&mut reason, self.max_requests as u128);
            reason.append(" in window");
            (
                SlidingWindowCounterState { prev_count: prev, curr_count: new_curr, curr_window_id: window_id },
                Decision {
                    allowed: true,
                    limit: self.max_requests as i64,
                    remaining,
                    retry_after_ms: 0,
                    reason,
                },
            )
        } else {
            let whole = whole_carried + (curr as u128);
            assert(weight == whole * w128 + frac) by (nonlinear_arith)
                requires
                    weight == prev * (w - elapsed) + curr * w,
                    carried == prev * (w - elapsed),
                    carried == whole_carried * w128 + frac,
                    whole == whole_carried + curr,
                    w128 == w,
            ;
            let wait = left * 1000;
            let retry_after_ms: i64 = if wait > (i64::MAX as u128) { i64::MAX } else { wait as i64 };
            let mut reason = String::from_str("sliding-counter limit exceeded (weighted ");
            push_one_decimal(&mut reason, whole, frac, w);
            reason.append("/");
            push_decimal(&mut reason, self.max_requests as u128);
            reason.append("), retry in ");
            push_signed_decimal(&mut reason, retry_after_ms);
            reason.append("ms");
            (
                SlidingWindowCounterState { prev_count: prev, curr_count: curr, curr_window_id: window_id },
                Decision {
                    allowed: false,
                    limit: self.max_requests as i64,
                    remaining: 0,
                    retry_after_ms,
                    reason,
                },
            )
        }
    }
}

impl RateLimiter for SlidingWindowCounterLimiter {
    fn name(&self) -> (n: &'static str)
        ensures
            n@ == "sliding_window_counter"@,
    {
        "sliding_window_counter"
    }
}

} // verus!
