use rate_limiting::http::{
    check_status, default_cost, default_resource, hmac_sha256_hex, mac_header, mac_payload, rate_limit_headers,
    readiness_status, reset_secs,
};
use rate_limiting::limiter::{contention_decision, Decision};

fn decision(allowed: bool, limit: i64, remaining: i64, retry_after_ms: i64) -> Decision {
    Decision { allowed, limit, remaining, retry_after_ms, reason: String::new() }
}

#[test]
fn request_defaults() {
    assert_eq!(default_resource(), "/");
    assert_eq!(default_cost(), 1);
}

#[test]
fn status_codes() {
    assert_eq!(check_status(true), 200);
    assert_eq!(check_status(false), 429);
    assert_eq!(readiness_status(true), 200);
    assert_eq!(readiness_status(false), 503);
}

#[test]
fn reset_rounds_up_and_is_at_least_one() {
    assert_eq!(reset_secs(true, 5000), 0);
    assert_eq!(reset_secs(false, 0), 1);
    assert_eq!(reset_secs(false, 1), 1);
    assert_eq!(reset_secs(false, 1000), 1);
    assert_eq!(reset_secs(false, 1001), 2);
    assert_eq!(reset_secs(false, 30_000), 30);
}

#[test]
fn headers_of_allowed_response() {
    let hs = rate_limit_headers(&decision(true, 10, 3, 0), "token_bucket");
    let pairs: Vec<(String, String)> = hs.into_iter().map(|h| (h.name, h.value)).collect();
    assert_eq!(
        pairs,
        vec![
            ("ratelimit-limit".to_string(), "10".to_string()),
            ("ratelimit-remaining".to_string(), "3".to_string()),
            ("ratelimit-reset".to_string(), "0".to_string()),
            ("ratelimit-policy".to_string(), "token_bucket;l=10".to_string()),
        ]
    );
}

#[test]
fn headers_of_denied_response() {
    let hs = rate_limit_headers(&decision(false, 10, 0, 1500), "fixed_window");
    let pairs: Vec<(String, String)> = hs.into_iter().map(|h| (h.name, h.value)).collect();
    assert_eq!(pairs.len(), 5);
    assert_eq!(pairs[2], ("ratelimit-reset".to_string(), "2".to_string()));
    assert_eq!(pairs[4], ("retry-after".to_string(), "2".to_string()));
    let hs = rate_limit_headers(&decision(false, -3, -1, 0), "x");
    assert_eq!(hs.len(), 4);
    assert_eq!(hs[0].value, "-3");
    assert_eq!(hs[1].value, "-1");
}

#[test]
fn mac_payload_layout() {
    let d = decision(false, 10, 0, 250);
    assert_eq!(mac_payload("alice", "/api", &d, 1_700_000_000_123), "alice|/api|false|0|250|1700000000123");
}

#[test]
fn hmac_matches_rfc_4231_case_2() {
    assert_eq!(
        hmac_sha256_hex("Jefe", "what do ya want for nothing?"),
        "5bdcc146bf60754e6a042426089575c75a003f089d2739839dec58b964ec3843"
    );
}

#[test]
fn mac_header_signs_payload() {
    let d = decision(true, 10, 4, 0);
    let v = mac_header("secret", "alice", "/", &d, 42);
    let expected_sig = hmac_sha256_hex("secret", "alice|/|true|4|0|42");
    assert_eq!(v, format!("t=42,v={expected_sig}"));
}

#[test]
fn contention_answer() {
    let d = contention_decision(7);
    assert!(!d.allowed);
    assert_eq!(d.limit, 7);
    assert_eq!(d.remaining, 0);
    assert_eq!(d.retry_after_ms, 100);
    assert_eq!(d.reason, "rate-limit check failed (concurrent update), retry in 100ms");
}
