//! Framing of the binary TCP protocol: every message is a little-endian
//! `u32` length followed by that many bytes of FlatBuffer payload.
//!
//! ```text
//! +--------------------+------------------------------------+
//! |  len : u32 (LE)    |  FlatBuffer payload  (len bytes)   |
//! +--------------------+------------------------------------+
//! ```

use vstd::prelude::*;

verus! {

/// The largest payload a request frame may announce.
pub const MAX_MSG_BYTES: usize = 1048576;

/// The number whose little-endian bytes are `b`.
pub open spec fn le_u32(b0: u8, b1: u8, b2: u8, b3: u8) -> int {
    b0 + 256 * b1 + 65536 * b2 + 16777216 * b3
}

/// Reads the announced payload length from a frame header.
pub fn frame_length(header: [u8; 4]) -> (n: u32)
    ensures
        n == le_u32(header@[0], header@[1], header@[2], header@[3]),
{
    header[0] as u32 + 256 * (header[1] as u32) + 65536 * (header[2] as u32) + 16777216 * (header[3] as u32)
}

/// Whether a request frame of this announced length is read; otherwise the
/// connection is closed.
pub fn accepts_frame_length(n: u32) -> (ok: bool)
    ensures
        ok == (0 < n && n <= MAX_MSG_BYTES),
{
    n != 0 && (n as usize) <= MAX_MSG_BYTES
}

/// The little-endian bytes of `n`.
pub open spec fn le_bytes(n: u32) -> Seq<u8> {
    seq![
        (n % 256) as u8,
        ((n / 256) % 256) as u8,
        ((n / 65536) % 256) as u8,
        (n / 16777216) as u8,
    ]
}

/// Law (framing round trip): the header of a response frame announces the
/// payload's length, for every payload shorter than 4 GiB.
pub proof fn law_frame_round_trip(n: u32)
    ensures
        le_u32(le_bytes(n)[0], le_bytes(n)[1], le_bytes(n)[2], le_bytes(n)[3]) == n,
{
    assert(n == n % 256 + 256 * ((n / 256) % 256) + 65536 * ((n / 65536) % 256) + 16777216 * (n / 16777216)) by (bit_vector);
}

/// A response frame: the payload's length, truncated to `u32`, in
/// little-endian order, followed by the payload.
pub fn frame(payload: &[u8]) -> (f: Vec<u8>)
    ensures
        f@ == le_bytes(payload@.len() as u32) + payload@,
{
    let n = payload.len() as u32;
    let mut f: Vec<u8> = Vec::new();
    f.push((n % 256) as u8);
    f.push(((n / 256) % 256) as u8);
    f.push(((n / 65536) % 256) as u8);
    f.push((n / 16777216) as u8);
    let ghost head = f@;
    let mut i: usize = 0;
    while i < payload.len()
        invariant
            i <= payload@.len(),
            f@ == head + payload@.subrange(0, i as int),
        decreases payload@.len() - i,
    {
        f.push(payload[i]);
        i = i + 1;
        assert(f@ =~= head + payload@.subrange(0, i as int));
    }
    assert(payload@.subrange(0, payload@.len() as int) =~= payload@);
    assert(head =~= le_bytes(payload@.len() as u32));
    f
}

/// The client id of a request, `"unknown"` when the request carries none.
pub fn request_client_id(field: Option<&str>) -> (id: &str)
    ensures
        id@ == (match field {
            Some(s) => s@,
            None => "unknown"@,
        }),
{
    match field {
        Some(s) => s,
        None => "unknown",
    }
}

/// The resource of a request, `"/"` when the request carries none.
pub fn request_resource(field: Option<&str>) -> (r: &str)
    ensures
        r@ == (match field {
            Some(s) => s@,
            None => "/"@,
        }),
{
    match field {
        Some(s) => s,
        None => "/",
    }
}

} // verus!
