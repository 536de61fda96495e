//! Verified core of a distributed rate limiter: the decision logic of the
//! window-based algorithms, the versioned compare-and-swap store, the retry
//! policy around it, and the wire and header formats of the two transports.

pub mod algorithms;
pub mod clock;
pub mod config;
pub mod etcd;
pub mod http;
pub mod limiter;
pub mod server;
pub mod store;
pub mod text;
