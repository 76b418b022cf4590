//! The compression layer of a frame body, used once a session has a
//! compression threshold configured: the body begins with an inner varint
//! giving the uncompressed length; 0 means the remaining bytes are stored
//! uncompressed (the payload was below the threshold), a nonzero value means
//! they are a zlib stream that must inflate to exactly that many bytes.

use vstd::prelude::*;
use crate::error::ProtocolError;
use crate::varint::{lemma_varint_round_trip, varint_bytes, varint_decode};
use crate::wire::{copy_range, push_bytes, write_varint};

verus! {

/// What `miniz_oxide::deflate::compress_to_vec_zlib` returns for this input
/// and level: deterministic, a function of its arguments alone.
pub uninterp spec fn deflate_of(data: Seq<u8>, level: u8) -> Seq<u8>;

/// What `miniz_oxide::inflate::decompress_to_vec_zlib` yields for this input:
/// the inflated bytes, or nothing if the input is not a well-formed zlib
/// stream. Deterministic, a function of its argument alone.
pub uninterp spec fn inflate_of(data: Seq<u8>) -> Option<Seq<u8>>;

#[verifier::external_type_specification]
#[verifier::external_body]
pub struct ExDecompressError(miniz_oxide::inflate::DecompressError);

/// Relies on miniz_oxide::deflate::compress_to_vec_zlib: zlib-compresses the
/// input; decompress_to_vec_zlib inverts it (zlib compression is lossless).
#[verifier::external_body]
fn zlib_compress(data: &Vec<u8>, level: u8) -> (r: Vec<u8>)
    ensures
        r@ == deflate_of(data@, level),
        inflate_of(r@) == Some(data@),
{
    miniz_oxide::deflate::compress_to_vec_zlib(data.as_slice(), level)
}

/// Relies on miniz_oxide::inflate::decompress_to_vec_zlib: inflates a zlib
/// stream, and fails exactly on inputs that are not one.
#[verifier::external_body]
fn zlib_decompress(data: &Vec<u8>) -> (r: Result<Vec<u8>, miniz_oxide::inflate::DecompressError>)
    ensures
        match r {
            Ok(d) => inflate_of(data@) == Some(d@),
            Err(_) => inflate_of(data@) is None,
        },
{
    miniz_oxide::inflate::decompress_to_vec_zlib(data.as_slice())
}

/// The compression level every compressed frame body uses.
pub const COMPRESSION_LEVEL: u8 = 6;

/// The frame body that carries `payload` when a compression threshold is
/// active: stored with inner tag 0 below the threshold (or when empty),
/// compressed otherwise.
pub open spec fn compressed_body(payload: Seq<u8>, threshold: u32) -> Seq<u8> {
    if payload.len() < threshold || payload.len() == 0 {
        varint_bytes(0) + payload
    } else {
        varint_bytes(payload.len() as u32) + deflate_of(payload, COMPRESSION_LEVEL)
    }
}

/// What decoding a compression-layer frame body yields.
pub open spec fn decompressed_body(body: Seq<u8>) -> Result<Seq<u8>, ProtocolError> {
    match varint_decode(body) {
        None => Err(ProtocolError::MalformedVarInt),
        Some((inner, n)) => {
            let rest = body.skip(n);
            if inner == 0 {
                Ok(rest)
            } else {
                match inflate_of(rest) {
                    Some(d) => if d.len() == inner {
                        Ok(d)
                    } else {
                        Err(ProtocolError::DecompressionError)
                    },
                    None => Err(ProtocolError::DecompressionError),
                }
            }
        },
    }
}

/// Builds the compression-layer body for `payload`. A payload shorter than
/// the threshold is never compressed: it is stored behind an inner length
/// tag of 0. Every body this produces decodes back to exactly `payload`.
pub fn compress_body(payload: &Vec<u8>, threshold: u32) -> (r: Vec<u8>)
    requires
        payload@.len() < 0x1_0000_0000,
    ensures
        r@ == compressed_body(payload@, threshold),
        payload@.len() < threshold || payload@.len() == 0 ==> r@ == varint_bytes(0) + payload@,
        decompressed_body(r@) == Ok::<Seq<u8>, ProtocolError>(payload@),
{
    let mut out: Vec<u8> = Vec::new();
    if (payload.len() as u64) < (threshold as u64) || payload.len() == 0 {
        write_varint(&mut out, 0);
        push_bytes(&mut out, payload);
        proof {
            lemma_varint_round_trip(0, payload@);
            assert(out@.skip(1) =~= payload@);
        }
    } else {
        let len32 = payload.len() as u32;
        let deflated = zlib_compress(payload, COMPRESSION_LEVEL);
        write_varint(&mut out, len32);
        push_bytes(&mut out, &deflated);
        proof {
            lemma_varint_round_trip(len32, deflated@);
            assert(out@ =~= varint_bytes(len32) + deflated@);
            let n = varint_decode(out@).unwrap().1;
            assert(out@.skip(n) =~= deflated@);
        }
    }
    out
}

/// Decodes a compression-layer frame body: `MalformedVarInt` if the inner
/// length varint is malformed; with a nonzero inner length,
/// `DecompressionError` exactly when the remainder is not a zlib stream that
/// inflates to that many bytes.
pub fn decompress_body(body: &Vec<u8>) -> (r: Result<Vec<u8>, ProtocolError>)
    ensures
        match r {
            Ok(d) => decompressed_body(body@) == Ok::<Seq<u8>, ProtocolError>(d@),
            Err(e) => decompressed_body(body@) == Err::<Seq<u8>, ProtocolError>(e),
        },
{
    let (inner, n) = match crate::varint::decode_varint(body, 0) {
        Ok(x) => x,
        Err(e) => {
            proof {
                assert(body@.skip(0) =~= body@);
            }
            return Err(e);
        },
    };
    proof {
        assert(body@.skip(0) =~= body@);
    }
    let rest = copy_range(body, n, body.len());
    proof {
        assert(body@.subrange(n as int, body@.len() as int) =~= body@.skip(n as int));
    }
    if inner == 0 {
        Ok(rest)
    } else {
        match zlib_decompress(&rest) {
            Ok(d) => {
                if d.len() as u64 == inner as u64 {
                    Ok(d)
                } else {
                    Err(ProtocolError::DecompressionError)
                }
            },
            Err(_) => Err(ProtocolError::DecompressionError),
        }
    }
}

} // verus!
