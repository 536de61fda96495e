//! Server configuration: the listening addresses, the optional etcd cluster,
//! which algorithm to run, and the defaults of the omitted settings.

use vstd::prelude::*;
use crate::text::decimal;
use crate::text::push_decimal;

verus! {

#[derive(Debug, Clone)]
pub struct ServerConfig {
    pub host: String,
    pub port: u16,
    /// Port of the HTTP API (rate-limit headers); defaults to 8080.
    pub http_port: u16,
    /// When true every HTTP response carries an `X-RateLimit-Mac` header.
    pub strict_security: bool,
}

#[derive(Debug, Clone)]
pub struct EtcdConfig {
    /// etcd endpoints, e.g. `["http://etcd-0.etcd:2379", ...]`.
    pub endpoints: Vec<String>,
    /// Key namespace inside etcd; defaults to `"rate-limiting"`.
    pub key_prefix: String,
}

/// Which rate-limiting algorithm the server uses.
#[derive(Debug, Clone, Copy, PartialEq, Eq, Structural)]
pub enum Algorithm {
    FixedWindow,
    SlidingWindowLog,
    SlidingWindowCounter,
    TokenBucket,
    LeakyBucket,
}

/// `"{host}:{port}"`.
pub open spec fn socket_address(host: Seq<char>, port: int) -> Seq<char> {
    host + ":"@ + decimal(port as nat)
}

fn address(host: &String, port: u16) -> (a: String)
    ensures
        a@ == socket_address(host@, port as int),
{
    let mut a = host.clone();
    a.append(":");
    push_decimal(&mut a, port as u128);
    a
}

impl ServerConfig {
    /// The address of the binary TCP interface.
    pub fn tcp_addr(&self) -> (a: String)
        ensures
            a@ == socket_address(self.host@, self.port as int),
    {
        address(&self.host, self.port)
    }

    /// The address of the HTTP API.
    pub fn http_addr(&self) -> (a: String)
        ensures
            a@ == socket_address(self.host@, self.http_port as int),
    {
        address(&self.host, self.http_port)
    }
}

/// The signing key of strict-security mode: the configured secret when
/// strict security is on and the secret is set and non-empty, else none
/// (the MAC header is then omitted).
pub fn resolve_hmac_secret(strict_security: bool, secret: Option<String>) -> (r: Option<String>)
    ensures
        r == (if strict_security {
            match secret {
                Some(s) => if s@.len() > 0 { Some(s) } else { None },
                None => None,
            }
        } else {
            None
        }),
{
    if strict_security {
        match secret {
            Some(s) => {
                if s.as_str().is_empty() {
                    None
                } else {
                    Some(s)
                }
            },
            None => None,
        }
    } else {
        None
    }
}

/// Default port of the HTTP API.
pub fn http_port() -> (p: u16)
    ensures
        p == 8080,
{
    8080
}

/// Default etcd key namespace.
pub fn key_prefix() -> (p: String)
    ensures
        p@ == "rate-limiting"@,
{
    String::from_str("rate-limiting")
}

/// Default request limit of the window-based algorithms.
pub fn max_requests() -> (n: u64)
    ensures
        n == 100,
{
    100
}

/// Default window length of the window-based algorithms, in seconds.
pub fn window_secs() -> (n: u64)
    ensures
        n == 1,
{
    1
}

/// Default queue capacity of the leaky bucket.
pub fn queue_capacity() -> (n: u64)
    ensures
        n == 100,
{
    100
}

} // verus!
