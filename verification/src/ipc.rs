//! Framing of the messages exchanged over the service's named pipe: each
//! message is its length as a little-endian `u32`, then its bytes.
use vstd::prelude::*;

verus! {

/// The longest message the service accepts, and the longest reply the app
/// accepts.
pub const MAX_SERVICE_MESSAGE: usize = 1_048_576;

/// The longest reply the overlay accepts.
pub const MAX_OVERLAY_MESSAGE: usize = 65_536;

/// The little-endian bytes of a `u32`.
pub open spec fn le_bytes(v: u32) -> Seq<u8> {
    seq![
        (v % 256) as u8,
        ((v / 256) % 256) as u8,
        ((v / 65536) % 256) as u8,
        ((v / 16777216) % 256) as u8,
    ]
}

/// The `u32` that four little-endian bytes encode.
pub open spec fn le_value(b: Seq<u8>) -> int {
    b[0] + 256 * b[1] + 65536 * b[2] + 16777216 * b[3]
}

/// `u32::to_le_bytes`.
pub fn len_prefix(len: u32) -> (r: [u8; 4])
    ensures
        r@ == le_bytes(len),
{
    let r = [
        (len % 256) as u8,
        ((len / 256) % 256) as u8,
        ((len / 65536) % 256) as u8,
        ((len / 16777216) % 256) as u8,
    ];
    assert(r@ =~= le_bytes(len));
    r
}

/// `u32::from_le_bytes`.
pub fn prefix_len(b: [u8; 4]) -> (r: u32)
    ensures
        r as int == le_value(b@),
{
    let v: u64 = b[0] as u64 + 256 * b[1] as u64 + 65536 * b[2] as u64 + 16777216 * b[3] as u64;
    v as u32
}

/// A message on the pipe: the payload's length (as a `u32`, wrapping like
/// `as u32`) in little-endian bytes, then the payload.
pub fn frame_message(payload: &Vec<u8>) -> (r: Vec<u8>)
    ensures
        r@ == le_bytes(payload@.len() as u32) + payload@,
{
    let p = len_prefix(payload.len() as u32);
    let mut out: Vec<u8> = Vec::new();
    out.push(p[0]);
    out.push(p[1]);
    out.push(p[2]);
    out.push(p[3]);
    let n = payload.len();
    for i in 0..n
        invariant
            n == payload@.len(),
            out@ == le_bytes(payload@.len() as u32) + payload@.take(i as int),
    {
        out.push(payload[i]);
        assert(payload@.take(i + 1) =~= payload@.take(i as int).push(payload@[i as int]));
        assert(out@ =~= le_bytes(payload@.len() as u32) + payload@.take(i + 1));
    }
    assert(payload@.take(n as int) =~= payload@);
    out
}

/// The payload length that a length prefix announces, when a reader with
/// limit `max` accepts it: it must be neither zero nor above `max`.
pub fn accepted_len(prefix: [u8; 4], max: usize) -> (r: Option<usize>)
    ensures
        match r {
            Some(n) => n as int == le_value(prefix@) && 0 < n <= max,
            None => le_value(prefix@) == 0 || le_value(prefix@) > max,
        },
{
    let v = prefix_len(prefix);
    if v == 0 || v as u64 > max as u64 {
        None
    } else {
        Some(v as usize)
    }
}

/// Reading back a framed message: its first four bytes announce the
/// payload's length, and the payload follows them unchanged.
pub proof fn lemma_frame_round_trip(payload: Seq<u8>)
    requires
        payload.len() <= u32::MAX,
    ensures
        ({
            let m = le_bytes(payload.len() as u32) + payload;
            &&& le_value(m.take(4)) == payload.len()
            &&& m.skip(4) == payload
        }),
{
    let v = payload.len() as u32;
    let m = le_bytes(v) + payload;
    assert(m.skip(4) =~= payload);
    assert(m.take(4) =~= le_bytes(v));
    let b0 = v % 256;
    let b1 = (v / 256) % 256;
    let b2 = (v / 65536) % 256;
    let b3 = (v / 16777216) % 256;
    assert(b0 + 256 * b1 + 65536 * b2 + 16777216 * b3 == v) by (nonlinear_arith)
        requires
            b0 == v % 256,
            b1 == (v / 256) % 256,
            b2 == (v / 65536) % 256,
            b3 == (v / 16777216) % 256,
            v < 0x1_0000_0000,
    ;
}

} // verus!
