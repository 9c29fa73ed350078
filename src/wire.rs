//! Little-endian integers on the wire.
use vstd::prelude::*;

verus! {

/// The two little-endian bytes of `v`, for `0 ≤ v < 2^16`.
pub open spec fn le16(v: int) -> Seq<u8> {
    seq![(v % 256) as u8, ((v / 256) % 256) as u8]
}

/// The four little-endian bytes of `v`, for `0 ≤ v < 2^32`.
pub open spec fn le32(v: int) -> Seq<u8> {
    le16(v % 65536) + le16((v / 65536) % 65536)
}

/// The two's complement pattern of an `i16`.
pub open spec fn bits16(v: i16) -> int {
    if v < 0 { v + 65536 } else { v as int }
}

/// The two's complement pattern of an `i32`.
pub open spec fn bits32(v: i32) -> int {
    if v < 0 { v + 0x1_0000_0000 } else { v as int }
}

proof fn lemma_split(v: int, d: int)
    requires
        0 <= v < d * d,
        0 < d,
    ensures
        v % d + d * (v / d) == v,
        0 <= v % d < d,
        0 <= v / d < d,
        (v / d) % d == v / d,
{
    vstd::arithmetic::div_mod::lemma_fundamental_div_mod(v, d);
    vstd::arithmetic::div_mod::lemma_mod_bound(v, d);
    vstd::arithmetic::div_mod::lemma_div_pos_is_pos(v, d);
    vstd::arithmetic::div_mod::lemma_div_is_ordered(v, d * d - 1, d);
    assert((d * d - 1) / d < d) by {
        assert(d * d - 1 == (d - 1) * d + (d - 1)) by (nonlinear_arith);
        vstd::arithmetic::div_mod::lemma_fundamental_div_mod_converse(d * d - 1, d, d - 1, d - 1);
    }
    vstd::arithmetic::div_mod::lemma_small_mod((v / d) as nat, d as nat);
}

proof fn lemma_join(lo: int, hi: int, d: int)
    requires
        0 <= lo < d,
        0 <= hi < d,
        0 < d,
    ensures
        (lo + d * hi) % d == lo,
        (lo + d * hi) / d == hi,
        ((lo + d * hi) / d) % d == hi,
{
    assert(lo + d * hi == hi * d + lo) by (nonlinear_arith);
    vstd::arithmetic::div_mod::lemma_fundamental_div_mod_converse(lo + d * hi, d, hi, lo);
    vstd::arithmetic::div_mod::lemma_small_mod(hi as nat, d as nat);
}

/// Distinct values in range have distinct little-endian bytes.
pub proof fn lemma_le16_injective(v: int, w: int)
    requires
        0 <= v < 65536,
        0 <= w < 65536,
        le16(v) == le16(w),
    ensures
        v == w,
{
    lemma_split(v, 256);
    lemma_split(w, 256);
    assert(le16(v)[0] == le16(w)[0]);
    assert(le16(v)[1] == le16(w)[1]);
}

/// Distinct values in range have distinct little-endian bytes.
pub proof fn lemma_le32_injective(v: int, w: int)
    requires
        0 <= v < 0x1_0000_0000,
        0 <= w < 0x1_0000_0000,
        le32(v) == le32(w),
    ensures
        v == w,
{
    lemma_split(v, 65536);
    lemma_split(w, 65536);
    assert(le32(v).subrange(0, 2) =~= le16(v % 65536));
    assert(le32(w).subrange(0, 2) =~= le16(w % 65536));
    assert(le32(v).subrange(2, 4) =~= le16((v / 65536) % 65536));
    assert(le32(w).subrange(2, 4) =~= le16((w / 65536) % 65536));
    lemma_le16_injective(v % 65536, w % 65536);
    lemma_le16_injective(v / 65536, w / 65536);
}

pub proof fn lemma_bits16_injective(a: i16, b: i16)
    requires
        bits16(a) == bits16(b),
    ensures
        a == b,
{
}

pub proof fn lemma_bits32_injective(a: i32, b: i32)
    requires
        bits32(a) == bits32(b),
    ensures
        a == b,
{
}

pub fn push_u16(out: &mut Vec<u8>, v: u16)
    ensures
        final(out)@ == old(out)@ + le16(v as int),
{
    proof {
        lemma_split(v as int, 256);
    }
    out.push((v % 256) as u8);
    out.push((v / 256) as u8);
    proof {
        assert(final(out)@ =~= old(out)@ + le16(v as int));
    }
}

pub fn push_i16(out: &mut Vec<u8>, v: i16)
    ensures
        final(out)@ == old(out)@ + le16(bits16(v)),
{
    let u: u16 = if v < 0 { (v as i32 + 65536) as u16 } else { v as u16 };
    push_u16(out, u);
}

pub fn push_u32(out: &mut Vec<u8>, v: u32)
    ensures
        final(out)@ == old(out)@ + le32(v as int),
{
    proof {
        lemma_split(v as int, 65536);
    }
    push_u16(out, (v % 65536) as u16);
    push_u16(out, (v / 65536) as u16);
    proof {
        assert(final(out)@ =~= old(out)@ + le32(v as int));
    }
}

pub fn push_i32(out: &mut Vec<u8>, v: i32)
    ensures
        final(out)@ == old(out)@ + le32(bits32(v)),
{
    let u: u32 = if v < 0 { (v as i64 + 0x1_0000_0000) as u32 } else { v as u32 };
    push_u32(out, u);
}

/// The `u16` whose little-endian bytes start at `i`.
pub fn read_u16(b: &[u8], i: usize) -> (r: u16)
    requires
        i + 2 <= b@.len(),
    ensures
        le16(r as int) == b@.subrange(i as int, i + 2),
{
    let lo = b[i];
    let hi = b[i + 1];
    proof {
        lemma_join(lo as int, hi as int, 256);
        assert(le16(lo + 256 * hi) =~= b@.subrange(i as int, i + 2));
    }
    lo as u16 + 256 * hi as u16
}

pub fn read_i16(b: &[u8], i: usize) -> (r: i16)
    requires
        i + 2 <= b@.len(),
    ensures
        le16(bits16(r)) == b@.subrange(i as int, i + 2),
{
    let u = read_u16(b, i);
    if u >= 32768 {
        (u as i32 - 65536) as i16
    } else {
        u as i16
    }
}

pub fn read_u32(b: &[u8], i: usize) -> (r: u32)
    requires
        i + 4 <= b@.len(),
    ensures
        le32(r as int) == b@.subrange(i as int, i + 4),
{
    let n = b.len();
    proof {
        assert(i + 4 <= n);
    }
    let lo = read_u16(b, i);
    let hi = read_u16(b, i + 2);
    proof {
        lemma_join(lo as int, hi as int, 65536);
        assert(b@.subrange(i as int, i + 4) =~= b@.subrange(i as int, i + 2) + b@.subrange(
            i + 2,
            i + 4,
        ));
    }
    lo as u32 + 65536 * hi as u32
}

pub fn read_i32(b: &[u8], i: usize) -> (r: i32)
    requires
        i + 4 <= b@.len(),
    ensures
        le32(bits32(r)) == b@.subrange(i as int, i + 4),
{
    let u = read_u32(b, i);
    if u >= 0x8000_0000 {
        (u as i64 - 0x1_0000_0000) as i32
    } else {
        u as i32
    }
}

} // verus!
