//! Message framing on a stream: each message is its payload's length as a
//! big-endian `u32` followed by the payload, at most 1 MiB and never empty.

use vstd::prelude::*;
use vstd::string::*;
use crate::codec::{append_bytes, be_u32, put_u32_be};
use crate::pairing::{be_u32_value, read_be_u32};

verus! {

/// The largest payload a frame carries.
pub const MAX_FRAME: usize = 1024 * 1024;

/// The bytes of a frame holding `payload`.
pub open spec fn frame(payload: Seq<u8>) -> Seq<u8> {
    be_u32(payload.len() as u32) + payload
}

/// Frames a payload; one over 1 MiB is refused.
pub fn encode_frame(payload: &[u8]) -> (result: Result<Vec<u8>, String>)
    ensures
        match result {
            Ok(bytes) => payload@.len() <= MAX_FRAME && bytes@ == frame(payload@),
            Err(e) => payload@.len() > MAX_FRAME && e@ == "协议帧超过 1 MiB"@,
        },
{
    if payload.len() > MAX_FRAME {
        return Err(String::from_str("协议帧超过 1 MiB"));
    }
    let mut bytes: Vec<u8> = Vec::new();
    put_u32_be(&mut bytes, payload.len() as u32);
    append_bytes(&mut bytes, payload);
    proof {
        assert(bytes@ =~= frame(payload@));
    }
    Ok(bytes)
}

/// The payload length a frame's four-byte header announces; an empty or
/// oversized payload is refused.
pub fn frame_length(header: &[u8; 4]) -> (result: Result<usize, String>)
    ensures
        match result {
            Ok(n) => n == be_u32_value(header@) && 0 < n <= MAX_FRAME,
            Err(e) => (be_u32_value(header@) == 0 || be_u32_value(header@) > MAX_FRAME) && e@ == "协议帧长度无效"@,
        },
{
    let length = read_be_u32(header);
    if length == 0 || length as usize > MAX_FRAME {
        return Err(String::from_str("协议帧长度无效"));
    }
    Ok(length as usize)
}

/// A frame's header announces its payload's length, and the payload
/// follows: what `encode_frame` writes, `frame_length` reads back.
pub proof fn lemma_frame_round_trip(payload: Seq<u8>)
    requires
        payload.len() <= MAX_FRAME,
    ensures
        be_u32_value(frame(payload).take(4)) == payload.len(),
        frame(payload).skip(4) == payload,
{
    let n = payload.len() as u32;
    let f = frame(payload);
    assert(f.take(4) =~= be_u32(n));
    assert(f.skip(4) =~= payload);
    let b = be_u32(n);
    assert(b[0] == (n / 0x100_0000) as u8);
    assert(n == (n / 0x100_0000) * 0x100_0000 + ((n / 0x1_0000) % 0x100) * 0x1_0000 + ((n / 0x100) % 0x100) * 0x100 + n % 0x100)
        by (nonlinear_arith);
}

} // verus!
