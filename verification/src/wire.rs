//! Fixed-width big-endian integers and length-prefixed byte strings: the
//! field primitives that packet bodies are built from, with positional
//! decoders and the lemmas that compose them.

use vstd::prelude::*;
use crate::error::ProtocolError;
use crate::varint::{
    decode_varint,
    encode_varint,
    lemma_varint_bytes_size,
    lemma_varint_round_trip,
    varint_bytes,
    varint_decode,
    varint_size,
};

verus! {

/// `0x100` to the power `n`.
pub open spec fn pow256(n: nat) -> int
    decreases n,
{
    if n == 0 {
        1
    } else {
        0x100 * pow256((n - 1) as nat)
    }
}

pub proof fn lemma_pow256_pos(n: nat)
    ensures
        pow256(n) >= 1,
    decreases n,
{
    if n > 0 {
        lemma_pow256_pos((n - 1) as nat);
    }
}

pub proof fn lemma_pow256_monotone(a: nat, b: nat)
    requires
        a <= b,
    ensures
        pow256(a) <= pow256(b),
    decreases b,
{
    if a < b {
        lemma_pow256_monotone(a, (b - 1) as nat);
        lemma_pow256_pos((b - 1) as nat);
    }
}

pub proof fn lemma_pow256_values()
    ensures
        pow256(1) == 0x100,
        pow256(2) == 0x1_0000,
        pow256(8) == 0x1_0000_0000_0000_0000,
        pow256(16) == 0x1_0000_0000_0000_0000_0000_0000_0000_0000,
{
    assert(pow256(0) == 1);
    assert(pow256(1) == 0x100);
    assert(pow256(2) == 0x1_0000);
    assert(pow256(3) == 0x100_0000);
    assert(pow256(4) == 0x1_0000_0000);
    assert(pow256(5) == 0x100_0000_0000);
    assert(pow256(6) == 0x1_0000_0000_0000);
    assert(pow256(7) == 0x100_0000_0000_0000);
    assert(pow256(8) == 0x1_0000_0000_0000_0000);
    assert(pow256(9) == 0x100_0000_0000_0000_0000);
    assert(pow256(10) == 0x1_0000_0000_0000_0000_0000);
    assert(pow256(11) == 0x100_0000_0000_0000_0000_0000);
    assert(pow256(12) == 0x1_0000_0000_0000_0000_0000_0000);
    assert(pow256(13) == 0x100_0000_0000_0000_0000_0000_0000);
    assert(pow256(14) == 0x1_0000_0000_0000_0000_0000_0000_0000);
    assert(pow256(15) == 0x100_0000_0000_0000_0000_0000_0000_0000);
    assert(pow256(16) == 0x1_0000_0000_0000_0000_0000_0000_0000_0000);
}

/// The `n` lowest bytes of `v`, most significant first.
pub open spec fn be_bytes(v: int, n: nat) -> Seq<u8>
    decreases n,
{
    if n == 0 {
        Seq::empty()
    } else {
        be_bytes(v / 0x100, (n - 1) as nat) + seq![(v % 0x100) as u8]
    }
}

/// The unsigned value of a big-endian byte sequence.
pub open spec fn be_value(s: Seq<u8>) -> int
    decreases s.len(),
{
    if s.len() == 0 {
        0
    } else {
        be_value(s.drop_last()) * 0x100 + s.last()
    }
}

pub proof fn lemma_be_bytes_len(v: int, n: nat)
    ensures
        be_bytes(v, n).len() == n,
    decreases n,
{
    if n > 0 {
        lemma_be_bytes_len(v / 0x100, (n - 1) as nat);
    }
}

pub proof fn lemma_be_value_bound(s: Seq<u8>)
    ensures
        0 <= be_value(s) < pow256(s.len()),
    decreases s.len(),
{
    if s.len() > 0 {
        lemma_be_value_bound(s.drop_last());
    }
}

/// Law: a value below `pow256(n)` round-trips through its `n`-byte
/// big-endian encoding.
pub proof fn lemma_be_round_trip(v: int, n: nat)
    requires
        0 <= v < pow256(n),
    ensures
        be_value(be_bytes(v, n)) == v,
    decreases n,
{
    if n > 0 {
        let w = v / 0x100;
        assert(w < pow256((n - 1) as nat)) by (nonlinear_arith)
            requires
                0 <= v,
                v < 0x100 * pow256((n - 1) as nat),
                w == v / 0x100,
        ;
        lemma_be_round_trip(w, (n - 1) as nat);
        lemma_be_bytes_len(w, (n - 1) as nat);
        assert(be_bytes(v, n).drop_last() =~= be_bytes(w, (n - 1) as nat));
        assert(be_bytes(v, n).last() == (v % 0x100) as u8);
    }
}

/// A byte string on the wire: its length as a varint, then its bytes.
pub open spec fn bytes_field(b: Seq<u8>) -> Seq<u8> {
    varint_bytes(b.len() as u32) + b
}

/// Decode a varint at position `i`; yields the value and the next position.
pub open spec fn dec_varint_at(s: Seq<u8>, i: int) -> Option<(u32, int)> {
    if 0 <= i <= s.len() {
        match varint_decode(s.skip(i)) {
            Some((x, n)) => Some((x as u32, i + n)),
            None => None,
        }
    } else {
        None
    }
}

/// Decode an `n`-byte big-endian integer at position `i`.
pub open spec fn dec_be_at(s: Seq<u8>, i: int, n: nat) -> Option<(int, int)> {
    if 0 <= i && i + n <= s.len() {
        Some((be_value(s.subrange(i, i + n)), i + n))
    } else {
        None
    }
}

/// Decode a length-prefixed byte string at position `i`.
pub open spec fn dec_bytes_at(s: Seq<u8>, i: int) -> Option<(Seq<u8>, int)> {
    match dec_varint_at(s, i) {
        Some((len, j)) => if j + len <= s.len() {
            Some((s.subrange(j, j + len as int), j + len as int))
        } else {
            None
        },
        None => None,
    }
}

pub proof fn lemma_dec_varint_at(s: Seq<u8>, i: int, v: u32, rest: Seq<u8>)
    requires
        0 <= i <= s.len(),
        s.skip(i) == varint_bytes(v) + rest,
    ensures
        dec_varint_at(s, i) == Some((v, i + varint_size(v))),
        i + varint_size(v) <= s.len(),
        s.skip(i + varint_size(v)) == rest,
{
    lemma_varint_round_trip(v, rest);
    lemma_varint_bytes_size(v);
    assert(s.skip(i + varint_size(v)) =~= rest) by {
        assert forall|k: int| 0 <= k < rest.len() implies s.skip(i + varint_size(v))[k]
            == rest[k] by {
            assert(s.skip(i)[varint_size(v) + k] == rest[k]);
        }
    }
}

pub proof fn lemma_dec_be_at(s: Seq<u8>, i: int, v: int, n: nat, rest: Seq<u8>)
    requires
        0 <= i <= s.len(),
        0 <= v < pow256(n),
        s.skip(i) == be_bytes(v, n) + rest,
    ensures
        dec_be_at(s, i, n) == Some((v, i + n)),
        i + n <= s.len(),
        s.skip(i + n) == rest,
{
    lemma_be_bytes_len(v, n);
    assert(s.skip(i).len() == n + rest.len());
    assert(i + n <= s.len());
    assert(s.subrange(i, i + n) =~= be_bytes(v, n)) by {
        assert forall|k: int| 0 <= k < n implies s.subrange(i, i + n)[k] == be_bytes(v, n)[k] by {
            assert(s.skip(i)[k] == be_bytes(v, n)[k]);
        }
    }
    lemma_be_round_trip(v, n);
    assert(s.skip(i + n) =~= rest) by {
        assert forall|k: int| 0 <= k < rest.len() implies s.skip(i + n)[k] == rest[k] by {
            assert(s.skip(i)[n + k] == rest[k]);
        }
    }
}

pub proof fn lemma_dec_bytes_at(s: Seq<u8>, i: int, b: Seq<u8>, rest: Seq<u8>)
    requires
        0 <= i <= s.len(),
        b.len() < 0x1_0000_0000,
        s.skip(i) == bytes_field(b) + rest,
    ensures
        dec_bytes_at(s, i) == Some((b, i + bytes_field(b).len())),
        i + bytes_field(b).len() <= s.len(),
        s.skip(i + bytes_field(b).len()) == rest,
{
    let lv = b.len() as u32;
    lemma_varint_bytes_size(lv);
    assert(s.skip(i) =~= varint_bytes(lv) + (b + rest));
    lemma_dec_varint_at(s, i, lv, b + rest);
    let j = i + varint_size(lv);
    assert(s.skip(j).len() == lv + rest.len());
    assert(j + lv <= s.len());
    assert(s.subrange(j, j + lv as int) =~= b) by {
        assert forall|k: int| 0 <= k < lv implies s.subrange(j, j + lv as int)[k] == b[k] by {
            assert(s.skip(j)[k] == (b + rest)[k]);
        }
    }
    assert(s.skip(j + lv as int) =~= rest) by {
        assert forall|k: int| 0 <= k < rest.len() implies s.skip(j + lv as int)[k] == rest[k] by {
            assert(s.skip(j)[lv + k] == (b + rest)[lv + k]);
        }
    }
    assert(bytes_field(b).len() == varint_size(lv) + lv as int);
}

/// Reads the `n`-byte big-endian integer at `pos`.
pub fn read_be(v: &Vec<u8>, pos: usize, n: usize) -> (r: u128)
    requires
        n <= 16,
        pos + n <= v@.len(),
    ensures
        r as int == be_value(v@.subrange(pos as int, pos + n)),
{
    let vlen = v.len();
    let mut acc: u128 = 0;
    let mut i: usize = 0;
    proof {
        assert(v@.subrange(pos as int, pos as int) =~= Seq::<u8>::empty());
    }
    while i < n
        invariant
            i <= n,
            n <= 16,
            vlen == v@.len(),
            pos + n <= vlen,
            acc as int == be_value(v@.subrange(pos as int, pos + i)),
        decreases n - i,
    {
        proof {
            lemma_be_value_bound(v@.subrange(pos as int, pos + i));
            lemma_pow256_monotone(i as nat, 15);
            lemma_pow256_values();
            assert(pow256(15) * 0x100 == pow256(16));
        }
        let b = v[pos + i];
        acc = acc * 0x100 + (b as u128);
        proof {
            assert(v@.subrange(pos as int, pos + i + 1).drop_last() =~= v@.subrange(
                pos as int,
                pos + i,
            ));
            assert(v@.subrange(pos as int, pos + i + 1).last() == b);
        }
        i = i + 1;
    }
    acc
}

/// Appends the `n`-byte big-endian encoding of `v` (its `n` lowest bytes).
pub fn write_be(out: &mut Vec<u8>, v: u128, n: usize)
    requires
        n <= 16,
    ensures
        final(out)@ == old(out)@ + be_bytes(v as int, n as nat),
    decreases n,
{
    if n == 0 {
        proof {
            assert(out@ =~= out@ + be_bytes(v as int, 0));
        }
    } else {
        write_be(out, v / 0x100, n - 1);
        out.push((v % 0x100) as u8);
        proof {
            assert(out@ =~= old(out)@ + be_bytes(v as int, n as nat));
        }
    }
}

/// Copies `v[a..b]` out into a fresh vector.
pub fn copy_range(v: &Vec<u8>, a: usize, b: usize) -> (r: Vec<u8>)
    requires
        a <= b <= v@.len(),
    ensures
        r@ == v@.subrange(a as int, b as int),
{
    let mut out: Vec<u8> = Vec::new();
    let mut i: usize = a;
    while i < b
        invariant
            a <= i <= b <= v@.len(),
            out@ =~= v@.subrange(a as int, i as int),
        decreases b - i,
    {
        out.push(v[i]);
        proof {
            assert(out@ =~= v@.subrange(a as int, i + 1));
        }
        i = i + 1;
    }
    out
}

/// Copies `v[a..b]` out into a fresh vector.
pub fn copy_options(v: &Vec<Option<u32>>, a: usize, b: usize) -> (r: Vec<Option<u32>>)
    requires
        a <= b <= v@.len(),
    ensures
        r@ == v@.subrange(a as int, b as int),
{
    let mut out: Vec<Option<u32>> = Vec::new();
    let mut i: usize = a;
    while i < b
        invariant
            a <= i <= b <= v@.len(),
            out@ =~= v@.subrange(a as int, i as int),
        decreases b - i,
    {
        out.push(v[i]);
        proof {
            assert(out@ =~= v@.subrange(a as int, i + 1));
        }
        i = i + 1;
    }
    out
}

/// Appends all of `data` to `out`.
pub fn push_bytes(out: &mut Vec<u8>, data: &Vec<u8>)
    ensures
        final(out)@ == old(out)@ + data@,
{
    let mut i: usize = 0;
    while i < data.len()
        invariant
            i <= data@.len(),
            out@ =~= old(out)@ + data@.subrange(0, i as int),
        decreases data@.len() - i,
    {
        out.push(data[i]);
        proof {
            assert(out@ =~= old(out)@ + data@.subrange(0, i + 1));
        }
        i = i + 1;
    }
    proof {
        assert(out@ =~= old(out)@ + data@);
    }
}

/// Appends the varint encoding of `v`.
pub fn write_varint(out: &mut Vec<u8>, v: u32)
    ensures
        final(out)@ == old(out)@ + varint_bytes(v),
{
    let enc = encode_varint(v);
    push_bytes(out, &enc);
}

/// Whether two byte vectors hold the same bytes.
pub fn bytes_eq(a: &Vec<u8>, b: &Vec<u8>) -> (r: bool)
    ensures
        r == (a@ == b@),
{
    if a.len() != b.len() {
        return false;
    }
    let mut i: usize = 0;
    while i < a.len()
        invariant
            i <= a@.len(),
            a@.len() == b@.len(),
            forall|j: int| 0 <= j < i ==> a@[j] == b@[j],
        decreases a@.len() - i,
    {
        if a[i] != b[i] {
            return false;
        }
        i = i + 1;
    }
    proof {
        assert(a@ =~= b@);
    }
    true
}

/// Reads the varint field at `pos`: the value and the position after it.
pub fn read_varint_field(v: &Vec<u8>, pos: usize) -> (r: Result<(u32, usize), ProtocolError>)
    requires
        pos <= v@.len(),
    ensures
        match r {
            Ok((x, j)) => {
                &&& dec_varint_at(v@, pos as int) == Some((x, j as int))
                &&& pos < j <= v@.len()
            },
            Err(e) => {
                &&& e == ProtocolError::MalformedVarInt
                &&& dec_varint_at(v@, pos as int) is None
            },
        },
{
    let vlen = v.len();
    match decode_varint(v, pos) {
        Ok((x, n)) => {
            assert(pos + n <= vlen);
            Ok((x, pos + n))
        },
        Err(e) => Err(e),
    }
}

/// Reads the `n`-byte big-endian integer field at `pos`.
pub fn read_be_field(v: &Vec<u8>, pos: usize, n: usize) -> (r: Result<(u128, usize), ProtocolError>)
    requires
        n <= 16,
        pos <= v@.len(),
    ensures
        match r {
            Ok((x, j)) => {
                &&& dec_be_at(v@, pos as int, n as nat) == Some((x as int, j as int))
                &&& j == pos + n
                &&& j <= v@.len()
                &&& x < pow256(n as nat)
            },
            Err(e) => {
                &&& e == ProtocolError::MalformedPacket
                &&& dec_be_at(v@, pos as int, n as nat) is None
            },
        },
{
    let vlen = v.len();
    if n > vlen - pos {
        return Err(ProtocolError::MalformedPacket);
    }
    let x = read_be(v, pos, n);
    proof {
        lemma_be_value_bound(v@.subrange(pos as int, pos + n));
    }
    Ok((x, pos + n))
}

/// Reads the length-prefixed byte string field at `pos`.
pub fn read_bytes_field(v: &Vec<u8>, pos: usize) -> (r: Result<(Vec<u8>, usize), ProtocolError>)
    requires
        pos <= v@.len(),
    ensures
        match r {
            Ok((b, j)) => {
                &&& dec_bytes_at(v@, pos as int) == Some((b@, j as int))
                &&& pos <= j <= v@.len()
                &&& b@.len() < 0x1_0000_0000
            },
            Err(e) => {
                &&& e == ProtocolError::MalformedPacket
                &&& dec_bytes_at(v@, pos as int) is None
            },
        },
{
    let vlen = v.len();
    match decode_varint(v, pos) {
        Err(_) => Err(ProtocolError::MalformedPacket),
        Ok((len32, n)) => {
            let start = pos + n;
            if (len32 as usize) > vlen - start {
                Err(ProtocolError::MalformedPacket)
            } else {
                let b = copy_range(v, start, start + (len32 as usize));
                Ok((b, start + (len32 as usize)))
            }
        },
    }
}

/// Appends `data` as a length-prefixed byte string.
pub fn write_bytes_field(out: &mut Vec<u8>, data: &Vec<u8>)
    requires
        data@.len() < 0x1_0000_0000,
    ensures
        final(out)@ == old(out)@ + bytes_field(data@),
{
    write_varint(out, data.len() as u32);
    push_bytes(out, data);
    proof {
        assert(out@ =~= old(out)@ + bytes_field(data@));
    }
}

} // verus!
