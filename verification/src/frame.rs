//! Length-prefixed framing of messages on the daemon's byte stream.
//!
//! Each message on the wire is a 4-byte little-endian length prefix
//! followed by exactly that many payload bytes. A declared length above
//! a fixed cap is rejected before any payload byte is read or any
//! buffer allocated, so a misbehaving or hostile peer cannot force a
//! huge allocation.

use crate::messages::LoginError;
use vstd::bytes::spec_u32_from_le_bytes;
use vstd::bytes::spec_u32_to_le_bytes;
use vstd::bytes::u32_from_le_bytes;
use vstd::bytes::u32_to_le_bytes;
use vstd::prelude::*;

verus! {

/// Largest payload, in bytes, that a peer may declare or that this
/// client will send: 1 MiB.
pub const MAX_PAYLOAD_LEN: u32 = 1048576;

/// The framed form of a payload: its length as a 4-byte little-endian
/// prefix, followed by the payload bytes themselves.
pub open spec fn framed(payload: Seq<u8>) -> Seq<u8> {
    spec_u32_to_le_bytes(payload.len() as u32) + payload
}

/// Wrap an encoded payload in its length-prefixed frame. Fails with a
/// protocol error on a payload above the cap instead of declaring a
/// length the peer would be entitled to reject.
pub fn encode_frame(payload: &Vec<u8>) -> (r: Result<Vec<u8>, LoginError>)
    ensures
        r is Ok <==> payload@.len() <= MAX_PAYLOAD_LEN,
        r matches Ok(f) ==> f@ == framed(payload@),
        r matches Err(e) ==> e is ProtocolError,
{
    if payload.len() > MAX_PAYLOAD_LEN as usize {
        return Err(LoginError::ProtocolError {
            description: "outbound message exceeds the payload cap".to_owned(),
        });
    }
    let mut frame = u32_to_le_bytes(payload.len() as u32);
    let mut i: usize = 0;
    while i < payload.len()
        invariant
            i <= payload@.len(),
            frame@ == spec_u32_to_le_bytes(payload@.len() as u32) + payload@.take(i as int),
        decreases payload@.len() - i,
    {
        frame.push(payload[i]);
        i = i + 1;
        proof {
            assert(payload@.take(i as int) == payload@.take(i as int - 1) + seq![payload@[i as int - 1]]);
        }
    }
    proof {
        assert(payload@.take(payload@.len() as int) == payload@);
    }
    Ok(frame)
}

/// Read the value of a 4-byte length prefix.
pub fn decode_len_prefix(prefix: &[u8]) -> (len: u32)
    requires
        prefix@.len() == 4,
    ensures
        len == spec_u32_from_le_bytes(prefix@),
{
    u32_from_le_bytes(prefix)
}

/// Check a declared payload length against the cap. This is decided on
/// the prefix alone, before the payload is read: on an oversized
/// declaration the payload must never be read or allocated.
pub fn check_declared_len(len: u32) -> (r: Result<usize, LoginError>)
    ensures
        r is Ok <==> len <= MAX_PAYLOAD_LEN,
        r matches Ok(n) ==> n == len,
        r matches Err(e) ==> e is ProtocolError,
{
    if len > MAX_PAYLOAD_LEN {
        Err(LoginError::ProtocolError {
            description: "declared message length exceeds the payload cap".to_owned(),
        })
    } else {
        Ok(len as usize)
    }
}

} // verus!
