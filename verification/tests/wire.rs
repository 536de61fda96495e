use rate_limiting::config::{
    http_port, key_prefix, max_requests, queue_capacity, resolve_hmac_secret, window_secs, Algorithm, EtcdConfig,
    ServerConfig,
};
use rate_limiting::limiter::{RetryLoop, RetryStep, MAX_ATTEMPTS};
use rate_limiting::server::{accepts_frame_length, frame, frame_length, request_client_id, request_resource, MAX_MSG_BYTES};
use rate_limiting::text::{i64_text, u64_text};

#[test]
fn frame_header_round_trip() {
    let f = frame(&[7, 8, 9]);
    assert_eq!(f, vec![3, 0, 0, 0, 7, 8, 9]);
    assert_eq!(frame_length([f[0], f[1], f[2], f[3]]), 3);
    assert_eq!(frame_length([0x01, 0x02, 0x03, 0x04]), 0x0403_0201);
    let big = vec![0u8; 70_000];
    let f = frame(&big);
    assert_eq!(frame_length([f[0], f[1], f[2], f[3]]), 70_000);
}

#[test]
fn frame_length_limits() {
    assert!(!accepts_frame_length(0));
    assert!(accepts_frame_length(1));
    assert!(accepts_frame_length(MAX_MSG_BYTES as u32));
    assert!(!accepts_frame_length(MAX_MSG_BYTES as u32 + 1));
    assert_eq!(MAX_MSG_BYTES, 1 << 20);
}

#[test]
fn request_field_defaults() {
    assert_eq!(request_client_id(None), "unknown");
    assert_eq!(request_client_id(Some("bob")), "bob");
    assert_eq!(request_resource(None), "/");
    assert_eq!(request_resource(Some("/x")), "/x");
}

#[test]
fn retry_backs_off_then_gives_up() {
    let mut r = RetryLoop::new();
    let mut waits = Vec::new();
    loop {
        match r.after_conflict() {
            RetryStep::Backoff(ms) => waits.push(ms),
            RetryStep::GiveUp => break,
        }
    }
    assert_eq!(waits, vec![2, 4, 8, 16]);
    assert_eq!(MAX_ATTEMPTS, 5);
}

#[test]
fn config_defaults() {
    assert_eq!(http_port(), 8080);
    assert_eq!(key_prefix(), "rate-limiting");
    assert_eq!(max_requests(), 100);
    assert_eq!(window_secs(), 1);
    assert_eq!(queue_capacity(), 100);
    let e = EtcdConfig { endpoints: vec!["http://etcd-0.etcd:2379".to_string()], key_prefix: key_prefix() };
    assert_eq!(e.endpoints.len(), 1);
    assert_ne!(Algorithm::FixedWindow, Algorithm::TokenBucket);
}

#[test]
fn server_addresses() {
    let s = ServerConfig { host: "0.0.0.0".to_string(), port: 9000, http_port: 8080, strict_security: false };
    assert_eq!(s.tcp_addr(), "0.0.0.0:9000");
    assert_eq!(s.http_addr(), "0.0.0.0:8080");
}

#[test]
fn hmac_secret_resolution() {
    assert_eq!(resolve_hmac_secret(false, Some("s".to_string())), None);
    assert_eq!(resolve_hmac_secret(true, Some("s".to_string())), Some("s".to_string()));
    assert_eq!(resolve_hmac_secret(true, Some(String::new())), None);
    assert_eq!(resolve_hmac_secret(true, None), None);
}

#[test]
fn decimal_text() {
    assert_eq!(u64_text(0), "0");
    assert_eq!(u64_text(18_446_744_073_709_551_615), "18446744073709551615");
    assert_eq!(i64_text(-42), "-42");
    assert_eq!(i64_text(i64::MIN), "-9223372036854775808");
}
