//! Little-endian integer fields as they appear in ZIP records.
use vstd::prelude::*;

verus! {

/// The two bytes of `v`, least significant first.
pub open spec fn u16_le_bytes(v: u16) -> Seq<u8> {
    seq![(v % 256) as u8, (v / 256) as u8]
}

/// The four bytes of `v`, least significant first.
pub open spec fn u32_le_bytes(v: u32) -> Seq<u8> {
    seq![(v % 256) as u8, ((v / 256) % 256) as u8, ((v / 65536) % 256) as u8, (v / 16777216) as u8]
}

/// The integer stored in `b[pos]`, `b[pos + 1]`.
pub open spec fn le_u16_at(b: Seq<u8>, pos: int) -> u16 {
    (b[pos] as int + b[pos + 1] as int * 256) as u16
}

/// The integer stored in `b[pos]` .. `b[pos + 3]`.
pub open spec fn le_u32_at(b: Seq<u8>, pos: int) -> u32 {
    (b[pos] as int + b[pos + 1] as int * 256 + b[pos + 2] as int * 65536 + b[pos + 3] as int
        * 16777216) as u32
}

pub fn read_u16_le(data: &[u8], pos: usize) -> (r: u16)
    requires
        pos + 2 <= data@.len(),
    ensures
        r == le_u16_at(data@, pos as int),
{
    let b0 = data[pos] as u16;
    let b1 = data[pos + 1] as u16;
    assert(b1 * 256 <= 65280) by (nonlinear_arith)
        requires
            b1 <= 255,
    ;
    b0 + b1 * 256
}

pub fn read_u32_le(data: &[u8], pos: usize) -> (r: u32)
    requires
        pos + 4 <= data@.len(),
    ensures
        r == le_u32_at(data@, pos as int),
{
    let b0 = data[pos] as u32;
    let b1 = data[pos + 1] as u32;
    let b2 = data[pos + 2] as u32;
    let b3 = data[pos + 3] as u32;
    assert(b1 * 256 + b2 * 65536 + b3 * 16777216 <= 4294967040) by (nonlinear_arith)
        requires
            b1 <= 255,
            b2 <= 255,
            b3 <= 255,
    ;
    b0 + b1 * 256 + b2 * 65536 + b3 * 16777216
}

pub fn push_u16_le(out: &mut Vec<u8>, v: u16)
    ensures
        final(out)@ == old(out)@ + u16_le_bytes(v),
{
    out.push((v % 256) as u8);
    out.push((v / 256) as u8);
    assert(final(out)@ =~= old(out)@ + u16_le_bytes(v));
}

pub fn push_u32_le(out: &mut Vec<u8>, v: u32)
    ensures
        final(out)@ == old(out)@ + u32_le_bytes(v),
{
    out.push((v % 256) as u8);
    out.push(((v / 256) % 256) as u8);
    out.push(((v / 65536) % 256) as u8);
    out.push((v / 16777216) as u8);
    assert(final(out)@ =~= old(out)@ + u32_le_bytes(v));
}

pub fn push_bytes(out: &mut Vec<u8>, bytes: &[u8])
    ensures
        final(out)@ == old(out)@ + bytes@,
{
    let mut i: usize = 0;
    while i < bytes.len()
        invariant
            i <= bytes@.len(),
            out@ == old(out)@ + bytes@.subrange(0, i as int),
        decreases bytes@.len() - i,
    {
        out.push(bytes[i]);
        i = i + 1;
        assert(out@ =~= old(out)@ + bytes@.subrange(0, i as int));
    }
    assert(bytes@.subrange(0, i as int) =~= bytes@);
}

/// Copies `data[start .. start + len]` into a new vector.
pub fn copy_range(data: &[u8], start: usize, len: usize) -> (r: Vec<u8>)
    requires
        start + len <= data@.len(),
    ensures
        r@ == data@.subrange(start as int, start + len),
{
    let n = data.len();
    let mut r: Vec<u8> = Vec::with_capacity(len);
    let mut i: usize = 0;
    while i < len
        invariant
            i <= len,
            n == data@.len(),
            start + len <= data@.len(),
            r@ == data@.subrange(start as int, start + i),
        decreases len - i,
    {
        r.push(data[start + i]);
        i = i + 1;
        assert(r@ =~= data@.subrange(start as int, start + i));
    }
    r
}

/// Reading back the two bytes written for `v` gives `v`; and the bytes at
/// any position are the bytes written for the integer read there.
pub proof fn lemma_u16_round_trip(b: Seq<u8>, pos: int)
    requires
        0 <= pos,
        pos + 2 <= b.len(),
    ensures
        u16_le_bytes(le_u16_at(b, pos)) == b.subrange(pos, pos + 2),
{
    let b0 = b[pos] as int;
    let b1 = b[pos + 1] as int;
    let v = b0 + b1 * 256;
    assert(0 <= v < 65536 && v % 256 == b0 && v / 256 == b1) by (nonlinear_arith)
        requires
            0 <= b0 < 256,
            0 <= b1 < 256,
            v == b0 + b1 * 256,
    ;
    assert(u16_le_bytes(le_u16_at(b, pos)) =~= b.subrange(pos, pos + 2));
}

pub proof fn lemma_u32_round_trip(b: Seq<u8>, pos: int)
    requires
        0 <= pos,
        pos + 4 <= b.len(),
    ensures
        u32_le_bytes(le_u32_at(b, pos)) == b.subrange(pos, pos + 4),
{
    let b0 = b[pos] as int;
    let b1 = b[pos + 1] as int;
    let b2 = b[pos + 2] as int;
    let b3 = b[pos + 3] as int;
    let v = b0 + b1 * 256 + b2 * 65536 + b3 * 16777216;
    assert(0 <= v < 4294967296 && v % 256 == b0 && (v / 256) % 256 == b1 && (v / 65536) % 256
        == b2 && v / 16777216 == b3) by (nonlinear_arith)
        requires
            0 <= b0 < 256,
            0 <= b1 < 256,
            0 <= b2 < 256,
            0 <= b3 < 256,
            v == b0 + b1 * 256 + b2 * 65536 + b3 * 16777216,
    ;
    assert(u32_le_bytes(le_u32_at(b, pos)) =~= b.subrange(pos, pos + 4));
}

/// Two adjacent ranges of a sequence make up the range that spans both.
pub proof fn lemma_concat_subranges(s: Seq<u8>, a: int, b: int, c: int)
    requires
        0 <= a <= b <= c <= s.len(),
    ensures
        s.subrange(a, b) + s.subrange(b, c) == s.subrange(a, c),
{
    assert(s.subrange(a, b) + s.subrange(b, c) =~= s.subrange(a, c));
}

} // verus!
