//! Length-prefixed frames: the unit of bytes exchanged over a connection,
//! and the unit to which compression and encryption apply. A frame is a
//! varint length prefix followed by exactly that many body bytes.

use vstd::prelude::*;
use crate::error::ProtocolError;
use crate::varint::{
    decode_varint,
    lemma_varint_round_trip,
    varint_bytes,
    varint_decode,
    varint_incomplete,
    varint_is_incomplete,
};
use crate::wire::{copy_range, push_bytes, write_varint};

verus! {

/// The largest frame body this core accepts or produces: the largest value a
/// three-byte varint can carry.
pub const MAX_FRAME_LEN: u32 = 0x1F_FFFF;

/// The wire form of a frame around `body`.
pub open spec fn frame_bytes(body: Seq<u8>) -> Seq<u8> {
    varint_bytes(body.len() as u32) + body
}

/// What parsing the head of a receive buffer yields: a complete frame body
/// and the bytes consumed; nothing yet, if more input may complete a frame;
/// or the error that must terminate the session.
pub open spec fn parse_frame_spec(s: Seq<u8>) -> Result<Option<(Seq<u8>, int)>, ProtocolError> {
    match varint_decode(s) {
        None => if varint_incomplete(s) {
            Ok(None)
        } else {
            Err(ProtocolError::MalformedVarInt)
        },
        Some((len, n)) => if len > MAX_FRAME_LEN {
            Err(ProtocolError::FrameTooLarge)
        } else if s.len() < n + len {
            Ok(None)
        } else {
            Ok(Some((s.subrange(n, n + len), n + len)))
        },
    }
}

/// Frames `body` for the wire.
pub fn encode_frame(body: &Vec<u8>) -> (r: Vec<u8>)
    requires
        body@.len() <= MAX_FRAME_LEN,
    ensures
        r@ == frame_bytes(body@),
{
    let mut out: Vec<u8> = Vec::new();
    write_varint(&mut out, body.len() as u32);
    push_bytes(&mut out, body);
    out
}

/// Parses the frame at the head of `buf`. `Ok(None)` means the buffer does
/// not hold a whole frame yet and more input may complete one; if the stream
/// has ended instead, the frame ended mid-sequence and the session fails
/// with `MalformedVarInt`. `MalformedVarInt` is returned outright when the
/// length prefix carries a continuation bit into a sixth byte;
/// `FrameTooLarge` when the announced length exceeds `MAX_FRAME_LEN`.
pub fn parse_frame(buf: &Vec<u8>) -> (r: Result<Option<(Vec<u8>, usize)>, ProtocolError>)
    ensures
        match r {
            Ok(Some((body, consumed))) => {
                &&& parse_frame_spec(buf@) == Ok::<Option<(Seq<u8>, int)>, ProtocolError>(
                    Some((body@, consumed as int)),
                )
                &&& consumed <= buf@.len()
                &&& body@.len() <= MAX_FRAME_LEN
            },
            Ok(None) => parse_frame_spec(buf@) == Ok::<Option<(Seq<u8>, int)>, ProtocolError>(
                None,
            ),
            Err(e) => parse_frame_spec(buf@) == Err::<Option<(Seq<u8>, int)>, ProtocolError>(e),
        },
{
    proof {
        assert(buf@.skip(0) =~= buf@);
    }
    let (len, n) = match decode_varint(buf, 0) {
        Ok(x) => x,
        Err(e) => {
            if varint_is_incomplete(buf, 0) {
                return Ok(None);
            }
            return Err(e);
        },
    };
    if len > MAX_FRAME_LEN {
        return Err(ProtocolError::FrameTooLarge);
    }
    let buf_len = buf.len();
    if buf_len - n < len as usize {
        return Ok(None);
    }
    let body = copy_range(buf, n, n + len as usize);
    Ok(Some((body, n + len as usize)))
}

/// Law: a frame round-trips. Parsing a buffer that starts with the frame for
/// `body` yields `body` and consumes exactly the frame's bytes.
pub proof fn lemma_frame_round_trip(body: Seq<u8>, rest: Seq<u8>)
    requires
        body.len() <= MAX_FRAME_LEN,
    ensures
        parse_frame_spec(frame_bytes(body) + rest) matches Ok(r) && r matches Some((b, c)) && b
            == body && c == frame_bytes(body).len(),
{
    let len32 = body.len() as u32;
    let s = frame_bytes(body) + rest;
    assert(s =~= varint_bytes(len32) + (body + rest));
    lemma_varint_round_trip(len32, body + rest);
    let n = varint_bytes(len32).len() as int;
    assert(s.subrange(n, n + len32) =~= body) by {
        assert forall|k: int| 0 <= k < len32 implies s.subrange(n, n + len32)[k] == body[k] by {
            assert(s[n + k] == (body + rest)[k]);
        }
    }
}

} // verus!
