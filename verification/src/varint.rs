//! Variable-length integer encoding: 7 payload bits per byte, least
//! significant group first, continuation bit `0x80` on every byte but the
//! last. A 32-bit value takes at most 5 bytes; a varint that would need a
//! sixth byte, would exceed the 32-bit range, or ends mid-sequence is
//! malformed.

use vstd::prelude::*;
use crate::error::ProtocolError;

verus! {

/// The bytes of the variable-length encoding of `v`.
pub open spec fn varint_bytes(v: u32) -> Seq<u8>
    decreases v,
{
    if v < 0x80 {
        seq![v as u8]
    } else {
        seq![(v % 0x80 + 0x80) as u8] + varint_bytes((v / 0x80) as u32)
    }
}

/// How many bytes the encoding of `v` takes.
pub open spec fn varint_size(v: u32) -> int {
    if v < 0x80 {
        1
    } else if v < 0x4000 {
        2
    } else if v < 0x20_0000 {
        3
    } else if v < 0x1000_0000 {
        4
    } else {
        5
    }
}

/// Decoding with at most `fuel` bytes left to consume. `None` means there is
/// no well-formed varint here: the buffer ended mid-sequence, a continuation
/// bit asked for a byte past the fifth, or the value would exceed 32 bits
/// (a fifth payload group of `0x10` or more).
pub open spec fn varint_decode_rec(s: Seq<u8>, fuel: nat) -> Option<(int, int)>
    decreases fuel,
{
    if fuel == 0 || s.len() == 0 {
        None
    } else if s[0] < 0x80 {
        if fuel == 1 && s[0] >= 0x10 {
            None
        } else {
            Some((s[0] as int, 1))
        }
    } else {
        match varint_decode_rec(s.skip(1), (fuel - 1) as nat) {
            Some((x, n)) => Some((s[0] - 0x80 + 0x80 * x, n + 1)),
            None => None,
        }
    }
}

/// The value and byte count of the varint at the head of `s`, if any.
pub open spec fn varint_decode(s: Seq<u8>) -> Option<(int, int)> {
    varint_decode_rec(s, 5)
}

/// `s` is a proper prefix of some well-formed varint: every byte seen so far
/// carries the continuation bit and a fifth byte has not arrived yet. More
/// input may still complete it.
pub open spec fn varint_incomplete(s: Seq<u8>) -> bool {
    s.len() < 5 && (forall|i: int| 0 <= i < s.len() ==> s[i] >= 0x80)
}

/// Upper bound on the value a decode with `fuel` bytes can produce.
pub open spec fn varint_rec_bound(fuel: nat) -> int
    decreases fuel,
{
    if fuel <= 1 {
        0x10
    } else {
        0x80 * varint_rec_bound((fuel - 1) as nat)
    }
}

proof fn lemma_varint_rec_bound_values()
    ensures
        varint_rec_bound(4) == 0x200_0000,
        varint_rec_bound(5) == 0x1_0000_0000,
{
    assert(varint_rec_bound(1) == 0x10);
    assert(varint_rec_bound(2) == 0x800);
    assert(varint_rec_bound(3) == 0x4_0000);
    assert(varint_rec_bound(4) == 0x200_0000);
    assert(varint_rec_bound(5) == 0x1_0000_0000);
}

proof fn lemma_varint_rec_bound_at_least(fuel: nat)
    ensures
        varint_rec_bound(fuel) >= 0x10,
    decreases fuel,
{
    if fuel > 1 {
        lemma_varint_rec_bound_at_least((fuel - 1) as nat);
    }
}

/// Any value produced with `fuel` bytes lies below `varint_rec_bound(fuel)`,
/// and its byte count is between 1 and `fuel`.
pub proof fn lemma_varint_decode_rec_bound(s: Seq<u8>, fuel: nat)
    ensures
        varint_decode_rec(s, fuel) matches Some((x, n)) ==>
            0 <= x < varint_rec_bound(fuel) && 1 <= n <= fuel,
    decreases fuel,
{
    if fuel > 0 && s.len() > 0 && s[0] >= 0x80 {
        lemma_varint_decode_rec_bound(s.skip(1), (fuel - 1) as nat);
        if varint_decode_rec(s.skip(1), (fuel - 1) as nat) is Some {
            lemma_varint_rec_bound_at_least((fuel - 1) as nat);
        }
    } else if fuel > 1 && s.len() > 0 && s[0] < 0x80 {
        lemma_varint_rec_bound_at_least(fuel);
    }
}

proof fn lemma_varint_round_trip_rec(v: u32, rest: Seq<u8>, fuel: nat)
    requires
        varint_size(v) <= fuel,
        fuel <= 5,
        v < varint_rec_bound(fuel),
    ensures
        varint_decode_rec(varint_bytes(v) + rest, fuel) == Some((v as int, varint_size(v))),
    decreases v,
{
    let s = varint_bytes(v) + rest;
    if v < 0x80 {
        assert(s[0] == v as u8);
    } else {
        let w = (v / 0x80) as u32;
        assert(varint_rec_bound(fuel) == 0x80 * varint_rec_bound((fuel - 1) as nat));
        lemma_varint_round_trip_rec(w, rest, (fuel - 1) as nat);
        assert(s.skip(1) =~= varint_bytes(w) + rest);
        assert(s[0] == (v % 0x80 + 0x80) as u8);
        assert(s[0] - 0x80 + 0x80 * (w as int) == v as int);
    }
}

/// Law: every 32-bit value round-trips. Decoding the encoding of `v`,
/// whatever bytes follow it, yields `v` back and consumes exactly the
/// encoding's bytes.
pub proof fn lemma_varint_round_trip(v: u32, rest: Seq<u8>)
    ensures
        varint_decode(varint_bytes(v) + rest) == Some((v as int, varint_size(v))),
        varint_bytes(v).len() == varint_size(v),
{
    lemma_varint_rec_bound_values();
    lemma_varint_round_trip_rec(v, rest, 5);
    lemma_varint_bytes_size(v);
}

/// The encoding's length equals `varint_size`.
pub proof fn lemma_varint_bytes_size(v: u32)
    ensures
        varint_bytes(v).len() == varint_size(v),
        1 <= varint_bytes(v).len() <= 5,
    decreases v,
{
    if v >= 0x80 {
        lemma_varint_bytes_size((v / 0x80) as u32);
    }
}

proof fn lemma_varint_all_continuations_rec(s: Seq<u8>, fuel: nat)
    requires
        s.len() >= fuel,
        forall|i: int| 0 <= i < fuel ==> s[i] >= 0x80,
    ensures
        varint_decode_rec(s, fuel) is None,
    decreases fuel,
{
    if fuel > 0 {
        assert(s[0] >= 0x80);
        assert forall|i: int| 0 <= i < fuel - 1 implies s.skip(1)[i] >= 0x80 by {
            assert(s.skip(1)[i] == s[i + 1]);
        }
        lemma_varint_all_continuations_rec(s.skip(1), (fuel - 1) as nat);
    }
}

/// Law: five continuation bytes in a row (a sixth byte would be needed)
/// never decode.
pub proof fn lemma_varint_six_continuations(s: Seq<u8>)
    requires
        s.len() >= 5,
        forall|i: int| 0 <= i < 5 ==> s[i] >= 0x80,
    ensures
        varint_decode(s) is None,
{
    lemma_varint_all_continuations_rec(s, 5);
}

/// Encodes `v` as a varint.
pub fn encode_varint(v: u32) -> (r: Vec<u8>)
    ensures
        r@ == varint_bytes(v),
        1 <= r@.len() <= 5,
{
    let mut out: Vec<u8> = Vec::new();
    let mut x: u32 = v;
    while x >= 0x80
        invariant
            varint_bytes(v) =~= out@ + varint_bytes(x),
        decreases x,
    {
        let ghost pre = out@;
        let ghost xpre = x;
        out.push((x % 0x80 + 0x80) as u8);
        x = x / 0x80;
        proof {
            assert(varint_bytes(xpre) =~= seq![(xpre % 0x80 + 0x80) as u8] + varint_bytes(x));
            assert(pre + varint_bytes(xpre) =~= out@ + varint_bytes(x));
        }
    }
    out.push(x as u8);
    proof {
        assert(varint_bytes(x) =~= seq![x as u8]);
        assert(out@ =~= varint_bytes(v));
        lemma_varint_bytes_size(v);
    }
    out
}

fn decode_varint_rec(v: &Vec<u8>, pos: usize, fuel: u8) -> (r: Option<(u32, usize)>)
    requires
        pos <= v@.len(),
        fuel <= 5,
    ensures
        match r {
            Some((x, n)) => {
                &&& varint_decode_rec(v@.skip(pos as int), fuel as nat) == Some((
                    x as int,
                    n as int,
                ))
                &&& 1 <= n <= fuel
                &&& pos + n <= v@.len()
            },
            None => varint_decode_rec(v@.skip(pos as int), fuel as nat) is None,
        },
    decreases fuel,
{
    if fuel == 0 || pos == v.len() {
        None
    } else {
        let b = v[pos];
        assert(v@.skip(pos as int)[0] == b);
        if b < 0x80 {
            if fuel == 1 && b >= 0x10 {
                None
            } else {
                Some((b as u32, 1))
            }
        } else {
            let rec = decode_varint_rec(v, pos + 1, fuel - 1);
            proof {
                assert(v@.skip(pos as int).skip(1) =~= v@.skip(pos as int + 1));
            }
            match rec {
                Some((x, n)) => {
                    proof {
                        lemma_varint_decode_rec_bound(v@.skip(pos as int + 1), (fuel - 1) as nat);
                        lemma_varint_rec_bound_monotone((fuel - 1) as nat, 4);
                        lemma_varint_rec_bound_values();
                    }
                    Some(((b - 0x80) as u32 + 0x80 * x, n + 1))
                },
                None => None,
            }
        }
    }
}

proof fn lemma_varint_rec_bound_monotone(a: nat, b: nat)
    requires
        a <= b,
    ensures
        varint_rec_bound(a) <= varint_rec_bound(b),
    decreases b,
{
    if a < b && b > 1 {
        lemma_varint_rec_bound_monotone(a, (b - 1) as nat);
        lemma_varint_rec_bound_at_least((b - 1) as nat);
    }
}

/// Decodes the varint starting at `pos`. `MalformedVarInt` exactly when no
/// well-formed varint starts there: a continuation bit on the fifth byte, a
/// value beyond 32 bits, or the buffer ending mid-sequence.
pub fn decode_varint(v: &Vec<u8>, pos: usize) -> (r: Result<(u32, usize), ProtocolError>)
    requires
        pos <= v@.len(),
    ensures
        match r {
            Ok((x, n)) => {
                &&& varint_decode(v@.skip(pos as int)) == Some((x as int, n as int))
                &&& 1 <= n <= 5
                &&& pos + n <= v@.len()
            },
            Err(e) => {
                &&& e == ProtocolError::MalformedVarInt
                &&& varint_decode(v@.skip(pos as int)) is None
            },
        },
{
    match decode_varint_rec(v, pos, 5) {
        Some((x, n)) => Ok((x, n)),
        None => Err(ProtocolError::MalformedVarInt),
    }
}

/// Whether the bytes from `pos` on are a proper prefix of a varint, so that
/// more input may still complete it.
pub fn varint_is_incomplete(v: &Vec<u8>, pos: usize) -> (r: bool)
    requires
        pos <= v@.len(),
    ensures
        r == varint_incomplete(v@.skip(pos as int)),
{
    let len = v.len();
    if len - pos >= 5 {
        return false;
    }
    let mut i: usize = pos;
    while i < len
        invariant
            pos <= i <= len,
            len == v@.len(),
            len - pos < 5,
            forall|j: int| pos <= j < i ==> v@[j] >= 0x80,
        decreases len - i,
    {
        if v[i] < 0x80 {
            assert(v@.skip(pos as int)[i - pos] == v@[i as int]);
            return false;
        }
        i = i + 1;
    }
    assert forall|j: int| 0 <= j < v@.skip(pos as int).len() implies v@.skip(pos as int)[j]
        >= 0x80 by {
        assert(v@.skip(pos as int)[j] == v@[j + pos]);
    }
    true
}

} // verus!
