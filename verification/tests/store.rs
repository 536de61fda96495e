use rate_limiting::etcd::{cas_guard, committed, full_key, refused, CasGuard};
use rate_limiting::store::LocalStore;

#[test]
fn local_store_starts_empty() {
    let s = LocalStore::new();
    assert!(s.get("k").is_none());
}

#[test]
fn local_store_read_after_put() {
    let mut s = LocalStore::new();
    let v1 = s.put("k", vec![1, 2, 3]);
    assert_eq!(v1, 1);
    assert_eq!(s.get("k"), Some((vec![1, 2, 3], 1)));
    let v2 = s.put("k", vec![4]);
    assert_eq!(v2, 2);
    assert_eq!(s.get("k"), Some((vec![4], 2)));
}

#[test]
fn local_store_create_only_once() {
    let mut s = LocalStore::new();
    let r1 = s.cas("k", None, vec![1]);
    assert!(r1.success);
    assert_eq!(r1.version, 1);
    let r2 = s.cas("k", None, vec![2]);
    assert!(!r2.success);
    assert_eq!(r2.version, 1);
    assert_eq!(s.get("k"), Some((vec![1], 1)));
}

#[test]
fn local_store_stale_version_refused() {
    let mut s = LocalStore::new();
    let v = s.put("k", vec![0]);
    // two writers read version v; only the first commits
    let a = s.cas("k", Some(v), vec![1]);
    let b = s.cas("k", Some(v), vec![2]);
    assert!(a.success);
    assert!(!b.success);
    assert_eq!(b.version, a.version);
    assert_eq!(s.get("k"), Some((vec![1], a.version)));
}

#[test]
fn local_store_refused_on_absent_key_reports_zero() {
    let mut s = LocalStore::new();
    let r = s.cas("missing", Some(7), vec![1]);
    assert!(!r.success);
    assert_eq!(r.version, 0);
    assert!(s.get("missing").is_none());
}

#[test]
fn local_store_keys_are_isolated() {
    let mut s = LocalStore::new();
    s.put("a", vec![1]);
    s.put("b", vec![2]);
    assert_eq!(s.get("a"), Some((vec![1], 1)));
    assert_eq!(s.get("b"), Some((vec![2], 2)));
}

#[test]
fn etcd_full_key_and_guards() {
    assert_eq!(full_key("rate-limiting", "fixed_window/a/r"), "rate-limiting/fixed_window/a/r");
    assert_eq!(cas_guard(None), CasGuard::KeyAbsent);
    assert_eq!(cas_guard(Some(42)), CasGuard::ModRevision(42));
    let c = committed(Some(9));
    assert!(c.success);
    assert_eq!(c.version, 9);
    assert_eq!(committed(None).version, 0);
    let r = refused(Some(5));
    assert!(!r.success);
    assert_eq!(r.version, 5);
    assert_eq!(refused(None).version, 0);
}
