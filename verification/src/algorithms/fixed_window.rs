//! # Fixed Window Counter
//!
//! Divides the timeline into fixed-size windows. Each window has its own
//! counter; once the counter reaches the limit, every further request in that
//! window is rejected.

use vstd::prelude::*;
use crate::limiter::{Decision, RateLimiter, state_key, state_key_spec};
use crate::text::{decimal, signed_decimal, push_decimal, push_signed_decimal};

verus! {

/// Stored state of one client: requests counted in window `window_id`.
#[derive(Debug, Clone, Copy, PartialEq, Eq, Structural)]
pub struct FixedWindowState {
    pub count: u64,
    pub window_id: u64,
}

pub struct FixedWindowLimiter {
    max_requests: u64,
    window_secs: u64,
}

/// `a - b`, or 0 when `b > a`.
pub open spec fn saturating_diff(a: int, b: int) -> int {
    if a >= b { a - b } else { 0 }
}

/// The requests already counted in window `window_id`: the stored count if
/// the stored state belongs to that window, else 0.
pub open spec fn count_in_window(prior: Option<FixedWindowState>, window_id: int) -> int {
    match prior {
        Some(s) => if s.window_id == window_id { s.count as int } else { 0 },
        None => 0,
    }
}

/// The fixed-window decision for `max` requests per window of `window_secs`
/// seconds, at `now` (seconds), on a request of `cost` units: allowed while
/// the window's counter is below the limit and the request fits in what is
/// left; once the counter has reached the limit, every further request of
/// the window, whatever its cost, is rejected.
pub open spec fn fixed_window_allows(max: int, window_secs: int, prior: Option<FixedWindowState>, now: int, cost: int) -> bool {
    let count = count_in_window(prior, now / window_secs);
    count < max && count + cost <= max
}

/// The state committed after deciding a request.
pub open spec fn fixed_window_next(max: int, window_secs: int, prior: Option<FixedWindowState>, now: int, cost: int) -> FixedWindowState {
    let window_id = now / window_secs;
    let count = count_in_window(prior, window_id);
    FixedWindowState {
        count: (if fixed_window_allows(max, window_secs, prior, now, cost) { count + cost } else { count }) as u64,
        window_id: window_id as u64,
    }
}

/// Milliseconds until the current window ends.
pub open spec fn fixed_window_wait_ms(window_secs: int, now: int) -> int {
    saturating_diff((now / window_secs + 1) * window_secs, now) * 1000
}

/// The state after `k` unit requests at `now` from a client with no stored
/// state.
pub open spec fn after_unit_requests(max: int, window_secs: int, now: int, k: nat) -> Option<FixedWindowState>
    decreases k,
{
    if k == 0 {
        None
    } else {
        Some(fixed_window_next(max, window_secs, after_unit_requests(max, window_secs, now, (k - 1) as nat), now, 1))
    }
}

/// Law (allows up to the limit): within one window, a fresh client's first
/// `max` unit requests are allowed, and each one counts.
pub proof fn law_allows_up_to_max(max: u64, window_secs: u64, now: u64, k: nat)
    requires
        window_secs > 0,
        k < max,
    ensures
        fixed_window_allows(max as int, window_secs as int, after_unit_requests(max as int, window_secs as int, now as int, k), now as int, 1),
        after_unit_requests(max as int, window_secs as int, now as int, k + 1)
            == Some(FixedWindowState { count: (k + 1) as u64, window_id: (now / window_secs) as u64 }),
    decreases k,
{
    if k > 0 {
        law_allows_up_to_max(max, window_secs, now, (k - 1) as nat);
    }
}

/// Law (denies past the limit): once `max` unit requests have been counted
/// in a window, the next request in that window is denied, whatever its
/// cost.
pub proof fn law_denies_past_max(max: u64, window_secs: u64, now: u64, cost: u32)
    requires
        window_secs > 0,
        max > 0,
    ensures
        !fixed_window_allows(max as int, window_secs as int, after_unit_requests(max as int, window_secs as int, now as int, max as nat), now as int, cost as int),
{
    law_allows_up_to_max(max, window_secs, now, (max - 1) as nat);
}

/// Law (a full window stays full): a denied request leaves the state as it
/// was, so the same request is denied again at any later time in the same
/// window.
pub proof fn law_denial_is_sticky(max: int, window_secs: int, prior: Option<FixedWindowState>, now: int, later: int, cost: int)
    requires
        window_secs > 0,
        now >= 0,
        later / window_secs == now / window_secs,
        !fixed_window_allows(max, window_secs, prior, now, cost),
        now / window_secs <= u64::MAX,
    ensures
        !fixed_window_allows(max, window_secs, Some(fixed_window_next(max, window_secs, prior, now, cost)), later, cost),
{
}

/// Law (a denied client waits for the next window): the wait is a positive
/// whole number of seconds, at most one window.
pub proof fn law_denied_waits_for_next_window(window_secs: int, now: int)
    requires
        window_secs > 0,
        now >= 0,
    ensures
        1000 <= fixed_window_wait_ms(window_secs, now) <= 1000 * window_secs,
{
    let q = now / window_secs;
    let r = now % window_secs;
    assert(now == q * window_secs + r && 0 <= r < window_secs) by (nonlinear_arith)
        requires
            window_secs > 0,
            q == now / window_secs,
            r == now % window_secs,
    ;
    assert((q + 1) * window_secs - now == window_secs - r) by (nonlinear_arith)
        requires
            now == q * window_secs + r,
    ;
}

/// Law (a full window rejects everything): once the window's counter has
/// reached the limit, every request of that window is denied, a zero-cost
/// one included.
pub proof fn law_full_window_rejects(max: int, window_secs: int, prior: Option<FixedWindowState>, now: int, cost: int)
    requires
        window_secs > 0,
        count_in_window(prior, now / window_secs) >= max,
    ensures
        !fixed_window_allows(max, window_secs, prior, now, cost),
{
}

/// Law (the count stays within the limit): a stored count within the limit
/// stays within it, and the remaining capacity lies between 0 and the limit.
pub proof fn law_count_within_limit(max: int, window_secs: int, prior: Option<FixedWindowState>, now: int, cost: int)
    requires
        window_secs > 0,
        now >= 0,
        0 <= max <= u64::MAX,
        cost >= 0,
        now / window_secs <= u64::MAX,
        count_in_window(prior, now / window_secs) <= max,
    ensures
        fixed_window_next(max, window_secs, prior, now, cost).count <= max,
        0 <= saturating_diff(max, fixed_window_next(max, window_secs, prior, now, cost).count as int) <= max,
{
}

/// Law (a denied client waits exactly until its window ends): the wait is a
/// whole, positive number of seconds, at most one window, and `now` plus the
/// wait is a multiple of the window length, i.e. the start of the next
/// window. Only one wait meets all of these.
pub proof fn law_wait_ends_at_window_boundary(window_secs: int, now: int)
    requires
        window_secs > 0,
        now >= 0,
    ensures
        fixed_window_wait_ms(window_secs, now) % 1000 == 0,
        0 < fixed_window_wait_ms(window_secs, now) / 1000 <= window_secs,
        (now + fixed_window_wait_ms(window_secs, now) / 1000) % window_secs == 0,
        fixed_window_wait_ms(window_secs, now) == ((now / window_secs + 1) * window_secs - now) * 1000,
{
    let q = now / window_secs;
    let r = now % window_secs;
    assert(now == q * window_secs + r && 0 <= r < window_secs) by (nonlinear_arith)
        requires
            window_secs > 0,
            q == now / window_secs,
            r == now % window_secs,
    ;
    assert((q + 1) * window_secs - now == window_secs - r) by (nonlinear_arith)
        requires
            now == q * window_secs + r,
    ;
    let secs = window_secs - r;
    assert(fixed_window_wait_ms(window_secs, now) == secs * 1000);
    assert((secs * 1000) % 1000 == 0 && (secs * 1000) / 1000 == secs) by (nonlinear_arith);
    assert(now + secs == (q + 1) * window_secs) by (nonlinear_arith)
        requires
            now == q * window_secs + r,
            secs == window_secs - r,
    ;
    vstd::arithmetic::div_mod::lemma_fundamental_div_mod_converse(now + secs, window_secs, q + 1, 0);
}

/// Law (only the current window counts): the stored count is used when it
/// belongs to the window being checked, and nothing is counted otherwise.
pub proof fn law_count_of_current_window(s: FixedWindowState, window_id: int)
    ensures
        count_in_window(Some(s), s.window_id as int) == s.count,
        window_id != s.window_id ==> count_in_window(Some(s), window_id) == 0,
        count_in_window(None, window_id) == 0,
{
}

/// Law (windows reset): in a window other than the stored one, the stored
/// count is ignored, so a request is allowed exactly when the limit is
/// positive and `cost <= max`.
pub proof fn law_new_window_resets(max: int, window_secs: int, s: FixedWindowState, now: int, cost: int)
    requires
        window_secs > 0,
        s.window_id != now / window_secs,
    ensures
        fixed_window_allows(max, window_secs, Some(s), now, cost) == (0 < max && cost <= max),
{
}

/// Law (remaining decreases): of two allowed requests of positive cost in
/// the same window, the second reports less remaining capacity.
pub proof fn law_remaining_decreases(max: int, window_secs: int, prior: Option<FixedWindowState>, now: int, later: int, cost1: int, cost2: int)
    requires
        window_secs > 0,
        now >= 0,
        0 <= max <= u64::MAX,
        cost1 >= 1,
        cost2 >= 1,
        later / window_secs == now / window_secs,
        now / window_secs <= u64::MAX,
        fixed_window_allows(max, window_secs, prior, now, cost1),
        fixed_window_allows(max, window_secs, Some(fixed_window_next(max, window_secs, prior, now, cost1)), later, cost2),
    ensures
        saturating_diff(max, fixed_window_next(max, window_secs, Some(fixed_window_next(max, window_secs, prior, now, cost1)), later, cost2).count as int)
            < saturating_diff(max, fixed_window_next(max, window_secs, prior, now, cost1).count as int),
{
    assert(count_in_window(prior, now / window_secs) >= 0);
}

impl FixedWindowLimiter {
    pub closed spec fn max_requests(&self) -> u64 {
        self.max_requests
    }

    pub closed spec fn window_secs(&self) -> u64 {
        self.window_secs
    }

    pub fn new(max_requests: u64, window_secs: u64) -> (l: Self)
        ensures
            l.max_requests() == max_requests,
            l.window_secs() == window_secs,
    {
        FixedWindowLimiter { max_requests, window_secs }
    }

    /// The limit reported in every decision: `max_requests` as `i64`.
    pub fn limit(&self) -> (n: i64)
        ensures
            n == self.max_requests() as i64,
    {
        self.max_requests as i64
    }

    /// The store key of `client_id`'s state for `resource`.
    pub fn key(&self, client_id: &str, resource: &str) -> (k: String)
        ensures
            k@ == state_key_spec("fixed_window"@, client_id@, resource@),
    {
        state_key("fixed_window", client_id, resource)
    }

    /// Decides a request of `cost` units at `now` (seconds since the epoch)
    /// against the stored state `prior` (`None` when absent or unreadable),
    /// and returns the state to commit with the decision.
    pub fn evaluate(&self, prior: Option<FixedWindowState>, now: u64, cost: u32) -> (r: (FixedWindowState, Decision))
        requires
            self.window_secs() > 0,
            count_in_window(prior, now as int / self.window_secs() as int) + cost <= u64::MAX,
            !fixed_window_allows(self.max_requests() as int, self.window_secs() as int, prior, now as int, cost as int)
                ==> (now as int / self.window_secs() as int + 1) * self.window_secs() <= u64::MAX
                && fixed_window_wait_ms(self.window_secs() as int, now as int) <= u64::MAX,
        ensures
            ({
                let max = self.max_requests() as int;
                let w = self.window_secs() as int;
                let window_id = now as int / w;
                let count = count_in_window(prior, window_id);
                let allowed = fixed_window_allows(max, w, prior, now as int, cost as int);
                let new_count = if allowed { count + cost } else { count };
                let (state, d) = r;
                &&& state == fixed_window_next(max, w, prior, now as int, cost as int)
                &&& state.window_id == window_id
                &&& state.count == new_count
                &&& d.allowed == allowed
                &&& d.limit == self.max_requests() as i64
                &&& d.remaining == saturating_diff(max, new_count) as i64
                &&& d.retry_after_ms == (if allowed { 0 } else { fixed_window_wait_ms(w, now as int) as u64 as i64 })
                &&& d.reason@ == (if allowed {
                    "ok \u{2014} "@ + decimal(new_count as nat) + "/"@ + decimal(max as nat) + " used"@
                } else {
                    "fixed-window limit "@ + decimal(count as nat) + "/"@ + decimal(max as nat)
                        + " exceeded, resets in "@ + signed_decimal(d.retry_after_ms as int) + "ms"@
                })
            }),
    {
        let window_id = now / self.window_secs;
        let count: u64 = match prior {
            Some(s) => if s.window_id == window_id { s.count } else { 0 },
            None => 0,
        };
        let cost = cost as u64;
        if count < self.max_requests && count + cost <= self.max_requests {
            let new_count = count + cost;
            let mut reason = String::from_str("ok \u{2014} ");
            push_decimal(&mut reason, (new_count) as u128);
            reason.append("/");
            push_decimal(&mut reason, (self.max_requests) as u128);
            reason.append(" used");
            let remaining = self.max_requests - new_count;
            (
                FixedWindowState { count: new_count, window_id },
                Decision {
                    allowed: true,
                    limit: self.max_requests as i64,
                    remaining: remaining as i64,
                    retry_after_ms: 0,
                    reason,
                },
            )
        } else {
            assert((window_id as int + 1) * self.window_secs as int >= window_id as int + 1) by (nonlinear_arith)
                requires
                    self.window_secs >= 1,
                    window_id >= 0,
            ;
            let window_end = (window_id + 1) * self.window_secs;
            let wait_ms = if window_end >= now { window_end - now } else { 0 } * 1000;
            let retry_after_ms = wait_ms as i64;
            let mut reason = String::from_str("fixed-window limit ");
            push_decimal(&mut reason, (count) as u128);
            reason.append("/");
            push_decimal(&mut reason, (self.max_requests) as u128);
            reason.append(" exceeded, resets in ");
            push_signed_decimal(&mut reason, retry_after_ms);
            reason.append("ms");
            let remaining: u64 = if self.max_requests >= count { self.max_requests - count } else { 0 };
            (
                FixedWindowState { count, window_id },
                Decision {
                    allowed: false,
                    limit: self.max_requests as i64,
                    remaining: remaining as i64,
                    retry_after_ms,
                    reason,
                },
            )
        }
    }
}

impl RateLimiter for FixedWindowLimiter {
    fn name(&self) -> (n: &'static str)
        ensures
            n@ == "fixed_window"@,
    {
        "fixed_window"
    }
}

} // verus!
