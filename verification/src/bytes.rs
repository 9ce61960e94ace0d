//! Little-endian integer fields of a wave container header.

use vstd::prelude::*;
use vstd::arithmetic::div_mod::lemma_fundamental_div_mod;

verus! {

/// The value of two bytes read as a little-endian integer.
pub open spec fn le16(b0: u8, b1: u8) -> int {
    b0 + 256 * b1
}

/// The value of four bytes read as a little-endian integer.
pub open spec fn le32(b0: u8, b1: u8, b2: u8, b3: u8) -> int {
    b0 + 256 * b1 + 65536 * b2 + 16777216 * b3
}

/// The two little-endian bytes of a 16-bit value, low byte first.
pub open spec fn le16_bytes(x: u16) -> Seq<u8> {
    seq![(x % 256) as u8, (x / 256) as u8]
}

/// The four little-endian bytes of a 32-bit value, low byte first.
pub open spec fn le32_bytes(x: u32) -> Seq<u8> {
    seq![
        (x % 256) as u8,
        ((x / 256) % 256) as u8,
        ((x / 65536) % 256) as u8,
        (x / 16777216) as u8,
    ]
}

/// Reading back the two little-endian bytes of a 16-bit value gives the value.
pub proof fn lemma_le16_round(x: u16)
    ensures
        le16(le16_bytes(x)[0], le16_bytes(x)[1]) == x,
{
    lemma_fundamental_div_mod(x as int, 256);
}

/// Reading back the four little-endian bytes of a 32-bit value gives the value.
pub proof fn lemma_le32_round(x: u32)
    ensures
        le32(le32_bytes(x)[0], le32_bytes(x)[1], le32_bytes(x)[2], le32_bytes(x)[3]) == x,
{
    let q1 = x as int / 256;
    let q2 = q1 / 256;
    lemma_fundamental_div_mod(x as int, 256);
    lemma_fundamental_div_mod(q1, 256);
    lemma_fundamental_div_mod(q2, 256);
    assert(x as int / 65536 == q2) by {
        vstd::arithmetic::div_mod::lemma_div_denominator(x as int, 256, 256);
    }
    assert(x as int / 16777216 == q2 / 256) by {
        vstd::arithmetic::div_mod::lemma_div_denominator(x as int, 65536, 256);
    }
}

/// Combines two bytes into the 16-bit value they spell little-endian.
pub fn u16_from(b0: u8, b1: u8) -> (r: u16)
    ensures
        r == le16(b0, b1),
{
    b0 as u16 + 256 * (b1 as u16)
}

/// Combines four bytes into the 32-bit value they spell little-endian.
pub fn u32_from(b0: u8, b1: u8, b2: u8, b3: u8) -> (r: u32)
    ensures
        r == le32(b0, b1, b2, b3),
{
    b0 as u32 + 256 * (b1 as u32) + 65536 * (b2 as u32) + 16777216 * (b3 as u32)
}

/// Appends the two little-endian bytes of a 16-bit value.
pub fn push_u16(out: &mut Vec<u8>, x: u16)
    ensures
        final(out)@ == old(out)@ + le16_bytes(x),
{
    out.push((x % 256) as u8);
    out.push((x / 256) as u8);
    proof {
        assert(out@ =~= old(out)@ + le16_bytes(x));
    }
}

/// Appends the four little-endian bytes of a 32-bit value.
pub fn push_u32(out: &mut Vec<u8>, x: u32)
    ensures
        final(out)@ == old(out)@ + le32_bytes(x),
{
    out.push((x % 256) as u8);
    out.push(((x / 256) % 256) as u8);
    out.push(((x / 65536) % 256) as u8);
    proof {
        assert(x / 16777216 < 256) by {
            lemma_fundamental_div_mod(x as int, 16777216);
        }
    }
    out.push((x / 16777216) as u8);
    proof {
        assert(out@ =~= old(out)@ + le32_bytes(x));
    }
}

/// The views of a vector of byte strings.
pub open spec fn byte_views(v: Seq<Vec<u8>>) -> Seq<Seq<u8>> {
    v.map_values(|t: Vec<u8>| t@)
}

/// Copies the byte range `[a, b)` out of a buffer.
pub fn copy_range(s: &Vec<u8>, a: usize, b: usize) -> (r: Vec<u8>)
    requires
        a <= b <= s@.len(),
    ensures
        r@ == s@.subrange(a as int, b as int),
{
    let mut r: Vec<u8> = Vec::new();
    let mut j: usize = a;
    while j < b
        invariant
            a <= j <= b <= s@.len(),
            r@ == s@.subrange(a as int, j as int),
        decreases b - j,
    {
        r.push(s[j]);
        proof {
            assert(r@ =~= s@.subrange(a as int, j as int + 1));
        }
        j = j + 1;
    }
    r
}

} // verus!
