//! The decisions of the etcd-backed store: where a key lives in the cluster,
//! which transaction guard implements a compare-and-swap, and what the
//! caller is told about its outcome.

use vstd::prelude::*;
use crate::store::CasResult;

verus! {

/// `"{prefix}/{key}"`: the cluster key of a store key.
pub open spec fn full_key_spec(prefix: Seq<char>, key: Seq<char>) -> Seq<char> {
    prefix + "/"@ + key
}

/// Places `key` under the store's namespace.
pub fn full_key(prefix: &str, key: &str) -> (k: String)
    ensures
        k@ == full_key_spec(prefix@, key@),
{
    let mut k = String::from_str(prefix);
    k.append("/");
    k.append(key);
    k
}

/// The comparison a compare-and-swap transaction is guarded by.
#[derive(Debug, Clone, Copy, PartialEq, Eq, Structural)]
pub enum CasGuard {
    /// The key must not exist yet (its create revision is 0).
    KeyAbsent,
    /// The key's mod revision must equal this one.
    ModRevision(i64),
}

/// `None` guards on the key being absent, `Some(v)` on its mod revision
/// being `v`.
pub fn cas_guard(expected: Option<i64>) -> (g: CasGuard)
    ensures
        g == (match expected {
            None => CasGuard::KeyAbsent,
            Some(v) => CasGuard::ModRevision(v),
        }),
{
    match expected {
        None => CasGuard::KeyAbsent,
        Some(v) => CasGuard::ModRevision(v),
    }
}

/// A committed transaction: success, at the revision its response header
/// reports (0 when it carries none).
pub fn committed(header_revision: Option<i64>) -> (r: CasResult)
    ensures
        r.success,
        r.version == (match header_revision {
            Some(v) => v,
            None => 0,
        }),
{
    CasResult {
        success: true,
        version: match header_revision {
            Some(v) => v,
            None => 0,
        },
    }
}

/// A refused (or failed) transaction: failure, with the key's current mod
/// revision for the caller's retry (0 when it could not be read).
pub fn refused(current_revision: Option<i64>) -> (r: CasResult)
    ensures
        !r.success,
        r.version == (match current_revision {
            Some(v) => v,
            None => 0,
        }),
{
    CasResult {
        success: false,
        version: match current_revision {
            Some(v) => v,
            None => 0,
        },
    }
}

} // verus!
