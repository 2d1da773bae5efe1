//! The wire format: a little-endian `u32` length followed by exactly that
//! many payload bytes.

use vstd::bytes::{
    lemma_auto_spec_u32_to_from_le_bytes, spec_u32_from_le_bytes, spec_u32_to_le_bytes,
    u32_from_le_bytes, u32_to_le_bytes,
};
use vstd::prelude::*;

verus! {

/// Number of bytes in the length field that starts every frame.
pub const LENGTH_FIELD_BYTES: usize = 4;

/// Why a frame could not be produced or read.
#[derive(Debug, Clone, Copy, PartialEq, Eq, Structural)]
pub enum FrameError {
    /// The payload is longer than the length field can state.
    FrameTooLarge,
    /// The bytes end before the frame they announce is complete.
    UnexpectedEof,
}

/// The bytes of the frame that carries `payload`.
pub open spec fn frame_of(payload: Seq<u8>) -> Seq<u8>
    recommends
        payload.len() <= u32::MAX,
{
    spec_u32_to_le_bytes(payload.len() as u32) + payload
}

/// The payload length that a frame starting at the front of `bytes` declares.
pub open spec fn declared_length(bytes: Seq<u8>) -> nat
    recommends
        bytes.len() >= 4,
{
    spec_u32_from_le_bytes(bytes.subrange(0, 4)) as nat
}

/// The frame at the front of `bytes`: its payload and the number of bytes
/// it occupies, or `None` when `bytes` end before the frame is complete.
pub open spec fn frame_at_front(bytes: Seq<u8>) -> Option<(Seq<u8>, nat)> {
    if bytes.len() < 4 {
        None
    } else {
        let n = declared_length(bytes);
        if bytes.len() < 4 + n {
            None
        } else {
            Some((bytes.subrange(4, 4 + n as int), 4 + n))
        }
    }
}

/// Encodes `payload` as one frame, or fails with `FrameTooLarge` when its
/// length does not fit the length field; nothing is produced then.
pub fn encode(payload: &[u8]) -> (r: Result<Vec<u8>, FrameError>)
    ensures
        r is Ok <==> payload@.len() <= u32::MAX,
        r matches Ok(bytes) ==> bytes@ == frame_of(payload@),
        r matches Err(e) ==> e == FrameError::FrameTooLarge,
{
    if payload.len() as u64 > u32::MAX as u64 {
        return Err(FrameError::FrameTooLarge);
    }
    let mut out = u32_to_le_bytes(payload.len() as u32);
    let ghost prefix = out@;
    let mut i: usize = 0;
    while i < payload.len()
        invariant
            i <= payload@.len(),
            out@ == prefix + payload@.subrange(0, i as int),
        decreases payload@.len() - i,
    {
        out.push(payload[i]);
        i = i + 1;
        assert(out@ =~= prefix + payload@.subrange(0, i as int));
    }
    assert(payload@.subrange(0, payload@.len() as int) =~= payload@);
    Ok(out)
}

/// The payload length declared by a length field.
pub fn decode_length(field: &[u8; 4]) -> (r: u32)
    ensures
        r == spec_u32_from_le_bytes(field@),
{
    u32_from_le_bytes(field.as_slice())
}

/// Reads the frame at the front of `bytes`, returning its payload and the
/// number of bytes it occupies. Fails with `UnexpectedEof` when `bytes` end
/// before the length field or the payload it declares is complete; no part of
/// a frame is returned then.
pub fn decode(bytes: &[u8]) -> (r: Result<(Vec<u8>, usize), FrameError>)
    ensures
        match r {
            Ok((payload, used)) => frame_at_front(bytes@) == Some((payload@, used as nat)),
            Err(e) => frame_at_front(bytes@) is None && e == FrameError::UnexpectedEof,
        },
{
    if bytes.len() < LENGTH_FIELD_BYTES {
        return Err(FrameError::UnexpectedEof);
    }
    let n = u32_from_le_bytes(vstd::slice::slice_subrange(bytes, 0, LENGTH_FIELD_BYTES));
    if ((bytes.len() - LENGTH_FIELD_BYTES) as u64) < n as u64 {
        return Err(FrameError::UnexpectedEof);
    }
    let end: usize = LENGTH_FIELD_BYTES + n as usize;
    let mut payload: Vec<u8> = Vec::new();
    let mut i: usize = LENGTH_FIELD_BYTES;
    while i < end
        invariant
            LENGTH_FIELD_BYTES <= i <= end <= bytes@.len(),
            end == 4 + n,
            payload@ == bytes@.subrange(4, i as int),
        decreases end - i,
    {
        payload.push(bytes[i]);
        i = i + 1;
        assert(payload@ =~= bytes@.subrange(4, i as int));
    }
    Ok((payload, end))
}

/// Decoding the bytes of an encoded frame, whatever follows them on the
/// stream, gives back the original payload and consumes exactly the frame.
pub proof fn lemma_round_trip(payload: Seq<u8>, rest: Seq<u8>)
    requires
        payload.len() <= u32::MAX,
    ensures
        frame_at_front(frame_of(payload) + rest) == Some((payload, payload.len() + 4)),
{
    lemma_auto_spec_u32_to_from_le_bytes();
    let bytes = frame_of(payload) + rest;
    let field = spec_u32_to_le_bytes(payload.len() as u32);
    assert(bytes.subrange(0, 4) =~= field);
    assert(bytes.subrange(4, 4 + payload.len() as int) =~= payload);
}

} // verus!
