//! What every algorithm answers, and the retry policy around the
//! compare-and-swap that commits its new state.

use vstd::prelude::*;
use crate::store::{lookup, law_write_isolated};


verus! {

/// The outcome of one rate-limit check.
#[derive(Debug, Clone)]
pub struct Decision {
    /// `true` when the caller may proceed.
    pub allowed: bool,
    /// Configured maximum (tokens, requests, ...) of the limiter.
    pub limit: i64,
    /// Units of capacity still available after this request.
    pub remaining: i64,
    /// How long (ms) the caller should wait before retrying; 0 when allowed.
    pub retry_after_ms: i64,
    /// Human-readable explanation surfaced in responses.
    pub reason: String,
}

/// Common interface of the rate-limiting algorithms.
pub trait RateLimiter {
    /// Short, display-friendly name of the algorithm.
    fn name(&self) -> &'static str;
}

/// How many times a check reads, decides and tries to commit before it
/// gives up.
pub const MAX_ATTEMPTS: u32 = 5;

/// What to do after a commit lost a race with a concurrent update.
pub enum RetryStep {
    /// Sleep this many milliseconds, then read and decide again.
    Backoff(u64),
    /// Stop and answer with [`contention_decision`].
    GiveUp,
}

/// Counts the attempts of one check.
pub struct RetryLoop {
    attempt: u32,
}

/// The back-off before attempt `attempt` (counted from 0): `2^attempt` ms.
pub open spec fn backoff_ms(attempt: nat) -> nat
    decreases attempt,
{
    if attempt == 0 {
        1
    } else {
        2 * backoff_ms((attempt - 1) as nat)
    }
}

impl RetryLoop {
    /// The attempt now under way, counted from 0.
    pub closed spec fn attempt(&self) -> nat {
        self.attempt as nat
    }

    /// A loop about to make its first attempt, which starts without delay.
    pub fn new() -> (r: Self)
        ensures
            r.attempt() == 0,
    {
        RetryLoop { attempt: 0 }
    }

    /// Called when the commit of the current attempt was refused. Before
    /// attempt `a` (for `a` from 1 to 4) the check sleeps `2^a` ms; after the
    /// fifth refusal it gives up.
    pub fn after_conflict(&mut self) -> (step: RetryStep)
        requires
            old(self).attempt() < MAX_ATTEMPTS,
        ensures
            final(self).attempt() == old(self).attempt() + 1,
            match step {
                RetryStep::Backoff(ms) => final(self).attempt() < MAX_ATTEMPTS && ms
                    == backoff_ms(final(self).attempt()),
                RetryStep::GiveUp => final(self).attempt() == MAX_ATTEMPTS,
            },
    {
        self.attempt = self.attempt + 1;
        proof {
            reveal_with_fuel(backoff_ms, 5);
        }
        if self.attempt == 1 {
            RetryStep::Backoff(2)
        } else if self.attempt == 2 {
            RetryStep::Backoff(4)
        } else if self.attempt == 3 {
            RetryStep::Backoff(8)
        } else if self.attempt == 4 {
            RetryStep::Backoff(16)
        } else {
            RetryStep::GiveUp
        }
    }
}

/// Law (clients are isolated): two different clients checking the same
/// resource under the same algorithm never share a store key.
pub proof fn law_clients_isolated(algorithm: Seq<char>, client_a: Seq<char>, client_b: Seq<char>, resource: Seq<char>)
    requires
        client_a != client_b,
    ensures
        state_key_spec(algorithm, client_a, resource) != state_key_spec(algorithm, client_b, resource),
{
    reveal_strlit("/");
    let ka = state_key_spec(algorithm, client_a, resource);
    let kb = state_key_spec(algorithm, client_b, resource);
    assert("/"@.len() == 1);
    assert(ka.len() == algorithm.len() + 1 + client_a.len() + 1 + resource.len());
    assert(kb.len() == algorithm.len() + 1 + client_b.len() + 1 + resource.len());
    if ka == kb {
        assert(client_a.len() == client_b.len());
        let off = algorithm.len() + 1;
        assert forall|i: int| 0 <= i < client_a.len() implies client_a[i] == client_b[i] by {
            assert(ka[off + i] == client_a[i]);
            assert(kb[off + i] == client_b[i]);
        }
        assert(client_a =~= client_b);
    }
}

/// Law (resources are isolated): one client's state for two different
/// resources lives under two different keys.
pub proof fn law_resources_isolated(algorithm: Seq<char>, client: Seq<char>, resource_a: Seq<char>, resource_b: Seq<char>)
    requires
        resource_a != resource_b,
    ensures
        state_key_spec(algorithm, client, resource_a) != state_key_spec(algorithm, client, resource_b),
{
    reveal_strlit("/");
    let ka = state_key_spec(algorithm, client, resource_a);
    let kb = state_key_spec(algorithm, client, resource_b);
    assert("/"@.len() == 1);
    assert(ka.len() == algorithm.len() + 1 + client.len() + 1 + resource_a.len());
    assert(kb.len() == algorithm.len() + 1 + client.len() + 1 + resource_b.len());
    if ka == kb {
        let off = algorithm.len() + client.len() + 2;
        assert(resource_a.len() == resource_b.len());
        assert forall|i: int| 0 <= i < resource_a.len() implies resource_a[i] == resource_b[i] by {
            assert(ka[off + i] == resource_a[i]);
            assert(kb[off + i] == resource_b[i]);
        }
        assert(resource_a =~= resource_b);
    }
}

/// `"{client_id}/{resource}"`: what tells two requests' state apart.
pub open spec fn request_text(client_id: Seq<char>, resource: Seq<char>) -> Seq<char> {
    client_id + "/"@ + resource
}

/// Law (requests are isolated): two requests whose `client/resource` texts
/// differ never share a store key under the same algorithm. (Ids that
/// contain `/` can join to the same text, and then share a key.)
pub proof fn law_requests_isolated(
    algorithm: Seq<char>,
    client_a: Seq<char>,
    resource_a: Seq<char>,
    client_b: Seq<char>,
    resource_b: Seq<char>,
)
    requires
        request_text(client_a, resource_a) != request_text(client_b, resource_b),
    ensures
        state_key_spec(algorithm, client_a, resource_a) != state_key_spec(algorithm, client_b, resource_b),
{
    let prefix = algorithm + "/"@;
    let ja = request_text(client_a, resource_a);
    let jb = request_text(client_b, resource_b);
    let ka = state_key_spec(algorithm, client_a, resource_a);
    let kb = state_key_spec(algorithm, client_b, resource_b);
    assert(ka =~= prefix + ja);
    assert(kb =~= prefix + jb);
    if ka == kb {
        assert(ja.len() == jb.len());
        assert forall|i: int| 0 <= i < ja.len() implies ja[i] == jb[i] by {
            assert(ka[prefix.len() + i] == ja[i]);
            assert(kb[prefix.len() + i] == jb[i]);
        }
        assert(ja =~= jb);
    }
}

/// Law (one client never uses up another's quota): committing state for one
/// request leaves what another request reads from the store unchanged,
/// whenever their `client/resource` texts differ; each algorithm's decision
/// depends only on what it reads, the clock and the cost.
pub proof fn law_quota_isolated(
    m: Map<Seq<char>, (Seq<u8>, i64)>,
    algorithm: Seq<char>,
    client_a: Seq<char>,
    resource_a: Seq<char>,
    client_b: Seq<char>,
    resource_b: Seq<char>,
    entry: (Seq<u8>, i64),
)
    requires
        request_text(client_a, resource_a) != request_text(client_b, resource_b),
    ensures
        lookup(m.insert(state_key_spec(algorithm, client_a, resource_a), entry), state_key_spec(algorithm, client_b, resource_b))
            == lookup(m, state_key_spec(algorithm, client_b, resource_b)),
{
    law_requests_isolated(algorithm, client_a, resource_a, client_b, resource_b);
    law_write_isolated(m, state_key_spec(algorithm, client_a, resource_a), state_key_spec(algorithm, client_b, resource_b), entry);
}

/// Law (bounded retries): the back-off doubles from one attempt to the next,
/// and the four back-offs of a check that is refused five times add up to
/// 30 ms.
pub proof fn law_backoff_doubles(attempt: nat)
    ensures
        backoff_ms(0) == 1,
        backoff_ms(attempt + 1) == 2 * backoff_ms(attempt),
        backoff_ms(1) + backoff_ms(2) + backoff_ms(3) + backoff_ms(4) == 30,
{
    reveal_with_fuel(backoff_ms, 5);
}

/// The reason given when every attempt lost its race.
pub open spec fn contention_reason() -> Seq<char> {
    "rate-limit check failed (concurrent update), retry in 100ms"@
}

/// The answer when the state could not be committed in [`MAX_ATTEMPTS`]
/// attempts: denied, nothing remaining, retry in 100 ms.
pub fn contention_decision(limit: i64) -> (d: Decision)
    ensures
        !d.allowed,
        d.limit == limit,
        d.remaining == 0,
        d.retry_after_ms == 100,
        d.reason@ == contention_reason(),
{
    Decision {
        allowed: false,
        limit,
        remaining: 0,
        retry_after_ms: 100,
        reason: String::from_str("rate-limit check failed (concurrent update), retry in 100ms"),
    }
}

/// The store key of one client's state for one resource under one
/// algorithm: `"{algorithm}/{client_id}/{resource}"`.
pub open spec fn state_key_spec(algorithm: Seq<char>, client_id: Seq<char>, resource: Seq<char>) -> Seq<char> {
    algorithm + "/"@ + client_id + "/"@ + resource
}

/// Builds the store key `"{algorithm}/{client_id}/{resource}"`.
pub fn state_key(algorithm: &str, client_id: &str, resource: &str) -> (k: String)
    ensures
        k@ == state_key_spec(algorithm@, client_id@, resource@),
{
    let mut k = String::from_str(algorithm);
    k.append("/");
    k.append(client_id);
    k.append("/");
    k.append(resource);
    k
}

} // verus!
