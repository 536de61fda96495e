//! The decisions of the HTTP API: status codes, the rate-limit response
//! headers (draft-ietf-httpapi-ratelimit-headers-08), and the signed
//! `X-RateLimit-Mac` header of strict-security mode.

use vstd::prelude::*;
use hmac::Mac;
use vstd::string::StringSliceAdditionalSpecFns;
use vstd::utf8::encode_utf8;
use crate::limiter::Decision;
use crate::text::{signed_decimal, bool_text, push_signed_decimal, push_bool, i64_text};

verus! {

/// The resource checked when a request names none.
pub fn default_resource() -> (r: String)
    ensures
        r@ == "/"@,
{
    String::from_str("/")
}

/// The cost charged when a request names none.
pub fn default_cost() -> (c: u32)
    ensures
        c == 1,
{
    1
}

/// 200 when the request is allowed, 429 (Too Many Requests) when denied.
pub fn check_status(allowed: bool) -> (code: u16)
    ensures
        code == (if allowed { 200u16 } else { 429u16 }),
{
    if allowed { 200 } else { 429 }
}

/// Readiness probe: 200 when the backing store answers, 503 otherwise.
pub fn readiness_status(store_reachable: bool) -> (code: u16)
    ensures
        code == (if store_reachable { 200u16 } else { 503u16 }),
{
    if store_reachable { 200 } else { 503 }
}

/// Seconds until the quota resets: 0 when allowed; when denied,
/// `ceil(retry_after_ms / 1000)`, and at least 1.
pub open spec fn reset_secs_spec(allowed: bool, retry_after_ms: int) -> int {
    if allowed {
        0
    } else {
        let secs = if retry_after_ms > 0 { (retry_after_ms + 999) / 1000 } else { 0 };
        if secs >= 1 { secs } else { 1 }
    }
}

/// The `RateLimit-Reset` value.
pub fn reset_secs(allowed: bool, retry_after_ms: i64) -> (s: i64)
    ensures
        s == reset_secs_spec(allowed, retry_after_ms as int),
{
    if allowed {
        0
    } else {
        let secs: i64 = if retry_after_ms > 0 {
            retry_after_ms / 1000 + if retry_after_ms % 1000 != 0 { 1 } else { 0 }
        } else {
            0
        };
        assert(retry_after_ms > 0 ==> secs == (retry_after_ms + 999) / 1000);
        if secs >= 1 { secs } else { 1 }
    }
}

/// Law (reset covers the wait): a denied response announces at least one
/// second, and never fewer seconds than the milliseconds it asks the client
/// to wait; an allowed one announces 0.
pub proof fn law_reset_covers_retry(allowed: bool, retry_after_ms: int)
    ensures
        allowed ==> reset_secs_spec(allowed, retry_after_ms) == 0,
        !allowed ==> reset_secs_spec(allowed, retry_after_ms) >= 1,
        !allowed ==> reset_secs_spec(allowed, retry_after_ms) * 1000 >= retry_after_ms,
        !allowed && retry_after_ms <= 1000 ==> reset_secs_spec(allowed, retry_after_ms) == 1,
        !allowed && retry_after_ms > 1000 ==> (reset_secs_spec(allowed, retry_after_ms) - 1) * 1000 < retry_after_ms,
{
}

/// Law (every wait is announced): a response carries `Retry-After` exactly
/// when the request was denied with a positive wait, however short; the
/// announced seconds then cover the wait.
pub proof fn law_retry_after_for_every_wait(d: Decision)
    ensures
        sends_retry_after(d) == (!d.allowed && d.retry_after_ms > 0),
        sends_retry_after(d) ==> reset_secs_spec(d.allowed, d.retry_after_ms as int) >= 1
            && reset_secs_spec(d.allowed, d.retry_after_ms as int) * 1000 >= d.retry_after_ms,
{
}

/// One response header: lower-case name and value.
pub struct HeaderField {
    pub name: String,
    pub value: String,
}

/// The `RateLimit-Policy` value: `"{algorithm};l={limit}"`.
pub open spec fn policy_value(algorithm: Seq<char>, limit: int) -> Seq<char> {
    algorithm + ";l="@ + signed_decimal(limit)
}

/// Whether a denied response carries `Retry-After`.
pub open spec fn sends_retry_after(d: Decision) -> bool {
    !d.allowed && d.retry_after_ms > 0
}

fn header(name: &str, value: String) -> (h: HeaderField)
    ensures
        h.name@ == name@,
        h.value@ == value@,
{
    HeaderField { name: String::from_str(name), value }
}

/// The rate-limit headers of a check's response, in order:
/// `ratelimit-limit`, `ratelimit-remaining`, `ratelimit-reset`,
/// `ratelimit-policy`, and `retry-after` (equal to the reset) when the
/// request was denied with a positive retry delay.
pub fn rate_limit_headers(d: &Decision, algorithm: &str) -> (hs: Vec<HeaderField>)
    ensures
        hs@.len() == (if !d.allowed && d.retry_after_ms > 0 { 5int } else { 4int }),
        hs@[0].name@ == "ratelimit-limit"@,
        hs@[0].value@ == signed_decimal(d.limit as int),
        hs@[1].name@ == "ratelimit-remaining"@,
        hs@[1].value@ == signed_decimal(d.remaining as int),
        hs@[2].name@ == "ratelimit-reset"@,
        hs@[2].value@ == signed_decimal(reset_secs_spec(d.allowed, d.retry_after_ms as int)),
        hs@[3].name@ == "ratelimit-policy"@,
        hs@[3].value@ == policy_value(algorithm@, d.limit as int),
        !d.allowed && d.retry_after_ms > 0 ==> hs@[4].name@ == "retry-after"@ && hs@[4].value@ == signed_decimal(
            reset_secs_spec(d.allowed, d.retry_after_ms as int),
        ),
{
    let mut hs: Vec<HeaderField> = Vec::new();
    hs.push(header("ratelimit-limit", i64_text(d.limit)));
    hs.push(header("ratelimit-remaining", i64_text(d.remaining)));
    let reset = reset_secs(d.allowed, d.retry_after_ms);
    hs.push(header("ratelimit-reset", i64_text(reset)));
    let mut policy = String::from_str(algorithm);
    policy.append(";l=");
    push_signed_decimal(&mut policy, d.limit);
    hs.push(header("ratelimit-policy", policy));
    if !d.allowed && d.retry_after_ms > 0 {
        hs.push(header("retry-after", i64_text(reset)));
    }
    hs
}

/// The signed payload of strict-security mode:
/// `"{client_id}|{resource}|{allowed}|{remaining}|{retry_after_ms}|{t}"`.
pub open spec fn mac_payload_spec(
    client_id: Seq<char>,
    resource: Seq<char>,
    allowed: bool,
    remaining: int,
    retry_after_ms: int,
    timestamp_ms: int,
) -> Seq<char> {
    client_id + "|"@ + resource + "|"@ + bool_text(allowed) + "|"@ + signed_decimal(remaining) + "|"@
        + signed_decimal(retry_after_ms) + "|"@ + signed_decimal(timestamp_ms)
}

/// Builds the signed payload of a decision.
pub fn mac_payload(client_id: &str, resource: &str, d: &Decision, timestamp_ms: i64) -> (p: String)
    ensures
        p@ == mac_payload_spec(
            client_id@,
            resource@,
            d.allowed,
            d.remaining as int,
            d.retry_after_ms as int,
            timestamp_ms as int,
        ),
{
    let mut p = String::from_str(client_id);
    p.append("|");
    p.append(resource);
    p.append("|");
    push_bool(&mut p, d.allowed);
    p.append("|");
    push_signed_decimal(&mut p, d.remaining);
    p.append("|");
    push_signed_decimal(&mut p, d.retry_after_ms);
    p.append("|");
    push_signed_decimal(&mut p, timestamp_ms);
    p
}

/// The HMAC-SHA256 tag of `message` under `key`, as computed by the `hmac`
/// crate over `sha2`'s SHA-256.
pub uninterp spec fn hmac_sha256_tag(key: Seq<u8>, message: Seq<u8>) -> Seq<u8>;

/// Calls `Hmac::<Sha256>::new_from_slice`, `Mac::update` and
/// `Mac::finalize`: the 32-byte HMAC-SHA256 tag of `message` under `key`.
/// `new_from_slice` accepts keys of any length for HMAC. The contract names
/// the tag and states its length; the tag itself is not modelled.
#[verifier::external_body]
fn hmac_sha256(key: &[u8], message: &[u8]) -> (tag: Vec<u8>)
    ensures
        tag@ == hmac_sha256_tag(key@, message@),
        tag@.len() == 32,
{
    let mut mac = hmac::Hmac::<sha2::Sha256>::new_from_slice(key).expect("HMAC accepts keys of any length");
    mac.update(message);
    mac.finalize().into_bytes().to_vec()
}

/// The lower-case hex digit for `d` (`0 <= d < 16`).
pub open spec fn hex_digit(d: int) -> char {
    if d < 10 {
        crate::text::digit_char(d)
    } else if d == 10 {
        'a'
    } else if d == 11 {
        'b'
    } else if d == 12 {
        'c'
    } else if d == 13 {
        'd'
    } else if d == 14 {
        'e'
    } else {
        'f'
    }
}

/// Lower-case hex encoding, two digits per byte, high nibble first.
pub open spec fn hex_lower(bytes: Seq<u8>) -> Seq<char>
    decreases bytes.len(),
{
    if bytes.len() == 0 {
        Seq::empty()
    } else {
        hex_lower(bytes.drop_last()) + seq![
            hex_digit(bytes.last() as int / 16),
            hex_digit(bytes.last() as int % 16),
        ]
    }
}

/// Calls `hex::encode`, which writes each byte as two lower-case hex digits,
/// high nibble first, from the table `0123456789abcdef`.
#[verifier::external_body]
fn hex_encode(bytes: &[u8]) -> (s: String)
    ensures
        s@ == hex_lower(bytes@),
{
    hex::encode(bytes)
}

/// HMAC-SHA256 of `message` under `secret`, as a lower-case hex string.
pub fn hmac_sha256_hex(secret: &str, message: &str) -> (h: String)
    ensures
        h@ == hex_lower(hmac_sha256_tag(secret.spec_bytes(), message.spec_bytes())),
        h@.len() == 64,
{
    let tag = hmac_sha256(secret.as_bytes(), message.as_bytes());
    proof {
        lemma_hex_lower_len(tag@);
    }
    hex_encode(tag.as_slice())
}

proof fn lemma_hex_lower_len(bytes: Seq<u8>)
    ensures
        hex_lower(bytes).len() == 2 * bytes.len(),
    decreases bytes.len(),
{
    if bytes.len() > 0 {
        lemma_hex_lower_len(bytes.drop_last());
    }
}

/// The `X-RateLimit-Mac` value: `"t={timestamp_ms},v={signature}"`.
pub open spec fn mac_header_spec(timestamp_ms: int, signature: Seq<char>) -> Seq<char> {
    "t="@ + signed_decimal(timestamp_ms) + ",v="@ + signature
}

/// Signs a decision for `client_id` and `resource` at `timestamp_ms` and
/// returns the `X-RateLimit-Mac` value.
pub fn mac_header(secret: &str, client_id: &str, resource: &str, d: &Decision, timestamp_ms: i64) -> (v: String)
    ensures
        v@ == mac_header_spec(
            timestamp_ms as int,
            hex_lower(
                hmac_sha256_tag(
                    secret.spec_bytes(),
                    encode_utf8(mac_payload_spec(
                        client_id@,
                        resource@,
                        d.allowed,
                        d.remaining as int,
                        d.retry_after_ms as int,
                        timestamp_ms as int,
                    )),
                ),
            ),
        ),
{
    let payload = mac_payload(client_id, resource, d, timestamp_ms);
    let signature = hmac_sha256_hex(secret, payload.as_str());
    let mut v = String::from_str("t=");
    push_signed_decimal(&mut v, timestamp_ms);
    v.append(",v=");
    v.append(signature.as_str());
    v
}

} // verus!
