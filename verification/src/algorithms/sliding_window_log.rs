//! # Sliding Window Log
//!
//! Keeps an exact timestamp log of every request in the past window. On each
//! new request the log is pruned and its length checked.

use vstd::prelude::*;
use crate::limiter::{Decision, RateLimiter, state_key, state_key_spec};
use crate::text::{decimal, signed_decimal, push_decimal, push_signed_decimal};
use crate::algorithms::fixed_window::saturating_diff;

verus! {

/// Stored state of one client: the times (ms since the epoch) of the
/// requests still in the log, oldest first.
#[derive(Debug, Clone)]
pub struct SlidingWindowLogState {
    pub timestamps_ms: Vec<i64>,
}

pub struct SlidingWindowLogLimiter {
    max_requests: u64,
    window_ms: i64,
}

/// The timestamps of `ts` later than `cutoff`, in their order.
pub open spec fn retain_after(ts: Seq<i64>, cutoff: int) -> Seq<i64>
    decreases ts.len(),
{
    if ts.len() == 0 {
        Seq::empty()
    } else if ts.last() > cutoff {
        retain_after(ts.drop_last(), cutoff).push(ts.last())
    } else {
        retain_after(ts.drop_last(), cutoff)
    }
}

/// The logged timestamps of a stored state (none when absent).
pub open spec fn logged(prior: Option<SlidingWindowLogState>) -> Seq<i64> {
    match prior {
        Some(s) => s.timestamps_ms@,
        None => Seq::empty(),
    }
}

/// `n` copies of `t`.
pub open spec fn repeat(t: i64, n: nat) -> Seq<i64> {
    Seq::new(n, |i: int| t)
}

/// The log committed after deciding a request of `cost` at `now` against a
/// limit of `max` per `window_ms`.
pub open spec fn log_next(max: int, window_ms: int, prior: Option<SlidingWindowLogState>, now: i64, cost: nat) -> Seq<i64> {
    let kept = retain_after(logged(prior), now - window_ms);
    if kept.len() + cost <= max {
        kept + repeat(now, cost)
    } else {
        kept
    }
}

/// Law (pruning is exact): the pruned log holds exactly the timestamps
/// later than the cutoff.
pub proof fn law_pruning_is_exact(ts: Seq<i64>, cutoff: int)
    ensures
        forall|i: int| 0 <= i < retain_after(ts, cutoff).len() ==> #[trigger] retain_after(ts, cutoff)[i] > cutoff,
        forall|i: int| 0 <= i < ts.len() && #[trigger] ts[i] > cutoff ==> retain_after(ts, cutoff).contains(ts[i]),
        retain_after(ts, cutoff).len() <= ts.len(),
    decreases ts.len(),
{
    if ts.len() > 0 {
        let init = ts.drop_last();
        law_pruning_is_exact(init, cutoff);
        let r = retain_after(ts, cutoff);
        let r0 = retain_after(init, cutoff);
        assert forall|i: int| 0 <= i < ts.len() && #[trigger] ts[i] > cutoff implies r.contains(ts[i]) by {
            if i < ts.len() - 1 {
                assert(init[i] == ts[i]);
                let j = choose|j: int| 0 <= j < r0.len() && r0[j] == init[i];
                if ts.last() > cutoff {
                    assert(r[j] == r0[j]);
                }
            } else {
                assert(r[r.len() - 1] == ts.last());
            }
        }
    }
}

/// Law (expired entries are forgotten): when every logged request is at or
/// before `now - window`, the pruned log is empty, so a request of `cost`
/// is allowed exactly when `cost <= max`.
pub proof fn law_expired_entries_forgotten(ts: Seq<i64>, cutoff: int)
    requires
        forall|i: int| 0 <= i < ts.len() ==> #[trigger] ts[i] <= cutoff,
    ensures
        retain_after(ts, cutoff).len() == 0,
    decreases ts.len(),
{
    if ts.len() > 0 {
        let init = ts.drop_last();
        assert forall|i: int| 0 <= i < init.len() implies #[trigger] init[i] <= cutoff by {
            assert(init[i] == ts[i]);
        }
        law_expired_entries_forgotten(init, cutoff);
    }
}

/// Law (recent entries are kept): pruning a log whose entries are all later
/// than the cutoff changes nothing.
pub proof fn law_pruning_keeps_recent(ts: Seq<i64>, cutoff: int)
    requires
        forall|i: int| 0 <= i < ts.len() ==> #[trigger] ts[i] > cutoff,
    ensures
        retain_after(ts, cutoff) == ts,
    decreases ts.len(),
{
    if ts.len() > 0 {
        let init = ts.drop_last();
        assert forall|i: int| 0 <= i < init.len() implies #[trigger] init[i] > cutoff by {
            assert(init[i] == ts[i]);
        }
        law_pruning_keeps_recent(init, cutoff);
        assert(init.push(ts.last()) =~= ts);
    }
}

/// Law (every request counts): at the same instant, with a positive window,
/// the entries committed by an allowed request all survive the next pruning,
/// so the next check sees `cost` more requests in the window.
pub proof fn law_allowed_requests_are_counted(max: int, window_ms: int, prior: Option<SlidingWindowLogState>, now: i64, cost: nat)
    requires
        window_ms > 0,
        retain_after(logged(prior), now - window_ms).len() + cost <= max,
    ensures
        retain_after(log_next(max, window_ms, prior, now, cost), now - window_ms)
            == log_next(max, window_ms, prior, now, cost),
        log_next(max, window_ms, prior, now, cost).len() == retain_after(logged(prior), now - window_ms).len() + cost,
{
    let cutoff = now - window_ms;
    let kept = retain_after(logged(prior), cutoff);
    law_pruning_is_exact(logged(prior), cutoff);
    let next = log_next(max, window_ms, prior, now, cost);
    assert(next == kept + repeat(now, cost));
    assert forall|i: int| 0 <= i < next.len() implies #[trigger] next[i] > cutoff by {
        if i < kept.len() {
            assert(next[i] == kept[i]);
        } else {
            assert(next[i] == now);
        }
    }
    law_pruning_keeps_recent(next, cutoff);
}

/// Law (a denied client is told to wait): with a positive window, a denied
/// request is asked to wait a positive time, until the oldest logged
/// request leaves the window.
pub proof fn law_denied_waits(ts: Seq<i64>, now: int, window_ms: int)
    requires
        window_ms > 0,
    ensures
        ({
            let kept = retain_after(ts, now - window_ms);
            let oldest = if kept.len() > 0 { kept[0] as int } else { now };
            oldest + window_ms - now > 0
        }),
{
    law_pruning_is_exact(ts, now - window_ms);
}

/// Whether `ts` is in ascending order (oldest first).
pub open spec fn ascending(ts: Seq<i64>) -> bool {
    forall|i: int, j: int| 0 <= i <= j < ts.len() ==> ts[i] <= ts[j]
}

/// Law (pruning keeps only logged entries): every entry of the pruned log
/// is an entry of the log.
pub proof fn law_pruned_entries_are_logged(ts: Seq<i64>, cutoff: int)
    ensures
        forall|i: int| 0 <= i < retain_after(ts, cutoff).len() ==> ts.contains(#[trigger] retain_after(ts, cutoff)[i]),
    decreases ts.len(),
{
    if ts.len() > 0 {
        let init = ts.drop_last();
        law_pruned_entries_are_logged(init, cutoff);
        let r = retain_after(ts, cutoff);
        let r0 = retain_after(init, cutoff);
        assert forall|i: int| 0 <= i < r.len() implies ts.contains(#[trigger] r[i]) by {
            if i < r0.len() {
                assert(r[i] == r0[i]);
                assert(init.contains(r0[i]));
                let j = choose|j: int| 0 <= j < init.len() && init[j] == r0[i];
                assert(ts[j] == init[j]);
            } else {
                assert(r[i] == ts.last());
                assert(ts[ts.len() - 1] == ts.last());
            }
        }
    }
}

/// Law (pruning keeps the order): pruning an ascending log gives an
/// ascending log.
pub proof fn law_pruning_keeps_order(ts: Seq<i64>, cutoff: int)
    requires
        ascending(ts),
    ensures
        ascending(retain_after(ts, cutoff)),
    decreases ts.len(),
{
    if ts.len() > 0 {
        let init = ts.drop_last();
        assert(ascending(init)) by {
            assert forall|i: int, j: int| 0 <= i <= j < init.len() implies init[i] <= init[j] by {
                assert(init[i] == ts[i] && init[j] == ts[j]);
            }
        }
        law_pruning_keeps_order(init, cutoff);
        law_pruned_entries_are_logged(init, cutoff);
        let r = retain_after(ts, cutoff);
        let r0 = retain_after(init, cutoff);
        if ts.last() > cutoff {
            assert forall|i: int, j: int| 0 <= i <= j < r.len() implies r[i] <= r[j] by {
                if j == r.len() - 1 {
                    assert(r[j] == ts.last());
                    if i < j {
                        assert(r[i] == r0[i]);
                        assert(init.contains(r0[i]));
                        let k = choose|k: int| 0 <= k < init.len() && init[k] == r0[i];
                        assert(ts[k] <= ts[ts.len() - 1]);
                    }
                } else {
                    assert(r[i] == r0[i] && r[j] == r0[j]);
                }
            }
        }
    }
}

/// Law (a denied request adds nothing): when the pruned log has no room for
/// the request, the committed log is the pruned log.
pub proof fn law_denied_adds_nothing(max: int, window_ms: int, prior: Option<SlidingWindowLogState>, now: i64, cost: nat)
    requires
        retain_after(logged(prior), now - window_ms).len() + cost > max,
    ensures
        log_next(max, window_ms, prior, now, cost) == retain_after(logged(prior), now - window_ms),
{
}

/// Law (an entry expires after one window): once `now` is at least one
/// window past a logged entry, pruning drops it.
pub proof fn law_entry_expires(ts: Seq<i64>, t: i64, now: int, window_ms: int)
    requires
        t <= now - window_ms,
    ensures
        !retain_after(ts, now - window_ms).contains(t),
{
    law_pruning_is_exact(ts, now - window_ms);
}

/// Law (a full log frees up after one window): a log of `n >= 1` requests
/// made at `t0` keeps all of them until `now` reaches `t0 + window`, and none
/// after; so with `n == max`, a unit request is allowed exactly from
/// `t0 + window` on.
pub proof fn law_full_log_frees_after_window(ts: Seq<i64>, t0: i64, n: nat, now: int, window_ms: int)
    requires
        ts == repeat(t0, n),
    ensures
        t0 > now - window_ms ==> retain_after(ts, now - window_ms) == ts,
        t0 <= now - window_ms ==> retain_after(ts, now - window_ms).len() == 0,
        (retain_after(ts, now - window_ms).len() + 1 <= n) == (n >= 1 && now >= t0 + window_ms),
{
    if t0 > now - window_ms {
        assert forall|i: int| 0 <= i < ts.len() implies #[trigger] ts[i] > now - window_ms by {
            assert(ts[i] == t0);
        }
        law_pruning_keeps_recent(ts, now - window_ms);
    } else {
        assert forall|i: int| 0 <= i < ts.len() implies #[trigger] ts[i] <= now - window_ms by {
            assert(ts[i] == t0);
        }
        law_expired_entries_forgotten(ts, now - window_ms);
    }
}

/// Law (the log stays ordered and recent): with a positive window, an
/// ascending log of entries no later than `now` becomes an ascending log
/// whose entries all lie in `(now - window, now]`.
pub proof fn law_log_ordered_and_recent(max: int, window_ms: int, prior: Option<SlidingWindowLogState>, now: i64, cost: nat)
    requires
        window_ms > 0,
        ascending(logged(prior)),
        forall|i: int| 0 <= i < logged(prior).len() ==> #[trigger] logged(prior)[i] <= now,
    ensures
        ascending(log_next(max, window_ms, prior, now, cost)),
        forall|i: int| 0 <= i < log_next(max, window_ms, prior, now, cost).len() ==>
            now - window_ms < #[trigger] log_next(max, window_ms, prior, now, cost)[i] <= now,
{
    let ts = logged(prior);
    let cutoff = now - window_ms;
    let kept = retain_after(ts, cutoff);
    law_pruning_is_exact(ts, cutoff);
    law_pruning_keeps_order(ts, cutoff);
    law_pruned_entries_are_logged(ts, cutoff);
    assert forall|i: int| 0 <= i < kept.len() implies cutoff < #[trigger] kept[i] <= now by {
        assert(ts.contains(kept[i]));
        let k = choose|k: int| 0 <= k < ts.len() && ts[k] == kept[i];
        assert(ts[k] <= now);
    }
    let next = log_next(max, window_ms, prior, now, cost);
    if kept.len() + cost <= max {
        assert(next == kept + repeat(now, cost));
        assert forall|i: int, j: int| 0 <= i <= j < next.len() implies next[i] <= next[j] by {
            if j >= kept.len() {
                assert(next[j] == now);
                if i < kept.len() {
                    assert(next[i] == kept[i]);
                } else {
                    assert(next[i] == now);
                }
            } else {
                assert(next[i] == kept[i] && next[j] == kept[j]);
            }
        }
        assert forall|i: int| 0 <= i < next.len() implies cutoff < #[trigger] next[i] <= now by {
            if i < kept.len() {
                assert(next[i] == kept[i]);
            } else {
                assert(next[i] == now);
            }
        }
    }
}

/// Law (remaining stays within the limit): the remaining capacity reported
/// for `max` lies between 0 and `max`.
pub proof fn law_remaining_within_limit(max: int, used: int)
    requires
        max >= 0,
        used >= 0,
    ensures
        0 <= saturating_diff(max, used) <= max,
{
}

/// Law (pruning keeps every recent entry, with its multiplicity): the pruned
/// log is exactly the log's subsequence of entries later than the cutoff,
/// as `Seq::filter` selects it; repeated timestamps are all kept.
pub proof fn law_pruning_is_filter(ts: Seq<i64>, cutoff: int)
    ensures
        retain_after(ts, cutoff) == ts.filter(|t: i64| t > cutoff),
        retain_after(ts, cutoff).len() <= ts.len(),
    decreases ts.len(),
{
    reveal_with_fuel(Seq::<i64>::filter, 1);
    if ts.len() > 0 {
        law_pruning_is_filter(ts.drop_last(), cutoff);
    }
    ts.lemma_filter_len(|t: i64| t > cutoff);
}

/// Law (the decision counts every request in the window): a request is
/// allowed exactly when the number of logged requests later than
/// `now - window`, each counted as often as it was logged, plus `cost` is at
/// most `max`.
pub proof fn law_decision_counts_window(max: int, window_ms: int, prior: Option<SlidingWindowLogState>, now: i64, cost: nat)
    ensures
        (log_next(max, window_ms, prior, now, cost) == retain_after(logged(prior), now - window_ms) + repeat(now, cost))
            <== (logged(prior).filter(|t: i64| t > now - window_ms).len() + cost <= max),
        (log_next(max, window_ms, prior, now, cost) == logged(prior).filter(|t: i64| t > now - window_ms))
            <== (logged(prior).filter(|t: i64| t > now - window_ms).len() + cost > max),
{
    law_pruning_is_filter(logged(prior), now - window_ms);
}

/// Law (an allowed request logs `cost` entries at `now`): `repeat(t, n)` is
/// `n` entries, each `t`.
pub proof fn law_repeat_logs_cost(t: i64, n: nat)
    ensures
        repeat(t, n).len() == n,
        forall|i: int| 0 <= i < n ==> #[trigger] repeat(t, n)[i] == t,
{
}

/// Law (no burst beyond the limit): if the pruned log holds at most `max`
/// requests, so does the committed log.
pub proof fn law_log_within_limit(max: int, window_ms: int, prior: Option<SlidingWindowLogState>, now: i64, cost: nat)
    requires
        retain_after(logged(prior), now - window_ms).len() <= max,
    ensures
        log_next(max, window_ms, prior, now, cost).len() <= max,
{
}

impl SlidingWindowLogLimiter {
    pub closed spec fn max_requests(&self) -> u64 {
        self.max_requests
    }

    pub closed spec fn window_ms(&self) -> i64 {
        self.window_ms
    }

    /// A limiter allowing `max_requests` requests in any `window_secs`
    /// seconds; the window is kept in milliseconds, truncated to `i64`.
    pub fn new(max_requests: u64, window_secs: u64) -> (l: Self)
        requires
            window_secs * 1000 <= u64::MAX,
        ensures
            l.max_requests() == max_requests,
            l.window_ms() == (window_secs * 1000) as i64,
    {
        SlidingWindowLogLimiter { max_requests, window_ms: (window_secs * 1000) as i64 }
    }

    /// The limit reported in every decision: `max_requests` as `i64`.
    pub fn limit(&self) -> (n: i64)
        ensures
            n == self.max_requests() as i64,
    {
        self.max_requests as i64
    }

    /// The store key of `client_id`'s state for `resource`.
    pub fn key(&self, client_id: &str, resource: &str) -> (k: String)
        ensures
            k@ == state_key_spec("sliding_window_log"@, client_id@, resource@),
    {
        state_key("sliding_window_log", client_id, resource)
    }

    /// Decides a request of `cost` units at `now` (ms since the epoch): the
    /// log is pruned of timestamps at or before `now - window`, and the
    /// request is allowed when the pruned log has room for `cost` more
    /// entries, which are then logged at `now`.
    pub fn evaluate(&self, prior: Option<SlidingWindowLogState>, now: i64, cost: u32) -> (r: (SlidingWindowLogState, Decision))
        requires
            i64::MIN <= now - self.window_ms() <= i64::MAX,
            retain_after(logged(prior), now - self.window_ms()).len() + cost <= u64::MAX,
            ({
                let kept = retain_after(logged(prior), now - self.window_ms());
                let oldest = if kept.len() > 0 { kept[0] as int } else { now as int };
                kept.len() + cost > self.max_requests() ==> {
                    &&& i64::MIN <= oldest + self.window_ms() <= i64::MAX
                    &&& i64::MIN <= oldest + self.window_ms() - now <= i64::MAX
                }
            }),
        ensures
            ({
                let max = self.max_requests() as int;
                let kept = retain_after(logged(prior), now - self.window_ms());
                let current = kept.len() as int;
                let allowed = current + cost <= max;
                let (state, d) = r;
                &&& state.timestamps_ms@ == log_next(max, self.window_ms() as int, prior, now, cost as nat)
                &&& state.timestamps_ms@ == (if allowed { kept + repeat(now, cost as nat) } else { kept })
                &&& d.allowed == allowed
                &&& d.limit == self.max_requests() as i64
                &&& d.remaining == saturating_diff(max, current + if allowed { cost as int } else { 0 }) as i64
                &&& d.retry_after_ms == (if allowed {
                    0
                } else {
                    let oldest = if kept.len() > 0 { kept[0] as int } else { now as int };
                    if oldest + self.window_ms() - now > 0 { oldest + self.window_ms() - now } else { 0 }
                })
                &&& d.reason@ == (if allowed {
                    "ok \u{2014} "@ + decimal((current + cost) as nat) + "/"@ + decimal(max as nat) + " in window"@
                } else {
                    "sliding-log limit "@ + decimal(current as nat) + "/"@ + decimal(max as nat)
                        + " exceeded, retry in "@ + signed_decimal(d.retry_after_ms as int) + "ms"@
                })
            }),
    {
        let cutoff = now - self.window_ms;
        let ghost all = logged(prior);
        let empty: Vec<i64> = Vec::new();
        let ts = match prior {
            Some(s) => s.timestamps_ms,
            None => empty,
        };
        assert(ts@ == all);
        let mut kept: Vec<i64> = Vec::new();
        let n = ts.len();
        let mut i: usize = 0;
        while i < n
            invariant
                n == ts@.len(),
                i <= n,
                kept@ == retain_after(ts@.subrange(0, i as int), cutoff as int),
            decreases n - i,
        {
            assert(ts@.subrange(0, i + 1).drop_last() =~= ts@.subrange(0, i as int));
            let t = ts[i];
            if t > cutoff {
                kept.push(t);
            }
            i = i + 1;
        }
        assert(ts@.subrange(0, n as int) =~= ts@);
        let current = kept.len() as u64;
        let cost = cost as u64;
        if current + cost <= self.max_requests {
            let ghost base = kept@;
            let mut j: u64 = 0;
            while j < cost
                invariant
                    j <= cost,
                    kept@ == base + repeat(now, j as nat),
                decreases cost - j,
            {
                kept.push(now);
                j = j + 1;
                assert(kept@ =~= base + repeat(now, j as nat));
            }
            let mut reason = String::from_str("ok \u{2014} ");
            push_decimal(&mut reason, (current + cost) as u128);
            reason.append("/");
            push_decimal(&mut reason, (self.max_requests) as u128);
            reason.append(" in window");
            let remaining = self.max_requests - (current + cost);
            (
                SlidingWindowLogState { timestamps_ms: kept },
                Decision {
                    allowed: true,
                    limit: self.max_requests as i64,
                    remaining: remaining as i64,
                    retry_after_ms: 0,
                    reason,
                },
            )
        } else {
            let oldest = if kept.len() > 0 { kept[0] } else { now };
            let diff = oldest + self.window_ms - now;
            let retry_after_ms = if diff > 0 { diff } else { 0 };
            let mut reason = String::from_str("sliding-log limit ");
            push_decimal(&mut reason, (current) as u128);
            reason.append("/");
            push_decimal(&mut reason, (self.max_requests) as u128);
            reason.append(" exceeded, retry in ");
            push_signed_decimal(&mut reason, retry_after_ms);
            reason.append("ms");
            let remaining: u64 = if self.max_requests >= current { self.max_requests - current } else { 0 };
            (
                SlidingWindowLogState { timestamps_ms: kept },
                Decision {
                    allowed: false,
                    limit: self.max_requests as i64,
                    remaining: remaining as i64,
                    retry_after_ms,
                    reason,
                },
            )
        }
    }
}

impl RateLimiter for SlidingWindowLogLimiter {
    fn name(&self) -> (n: &'static str)
        ensures
            n@ == "sliding_window_log"@,
    {
        "sliding_window_log"
    }
}

} // verus!
