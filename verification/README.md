# rate_limiting

A distributed rate limiter whose decision logic is verified with Verus.

- `src/` — the verified library:
  - `algorithms/` — fixed window, sliding window log and sliding window
    counter: each decides a request against the stored state and returns the
    state to commit, with exact contracts and laws (limits respected,
    windows reset, expired entries forgotten, remaining capacity decreasing).
  - `store.rs` — the versioned in-process store with compare-and-swap, and
    its laws (read-after-write, isolation of keys, no lost update).
  - `limiter.rs` — `Decision`, store keys, and the retry policy around the
    compare-and-swap.
  - `http.rs`, `server.rs`, `etcd.rs`, `config.rs` — the header, framing,
    etcd-transaction and configuration decisions of the servers.
  - `text.rs`, `clock.rs` — decimal rendering and the wall clock.
- `tests/` — scenario tests of the library.
- `app/` — the servers: Tokio TCP (FlatBuffers), axum HTTP, the etcd
  client, JSON encoding of the stored state, configuration loading, and the
  two floating-point bucket algorithms (token bucket, leaky bucket).
