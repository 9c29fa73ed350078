//! Signed Q20.12 fixed-point numbers with wrapping arithmetic.
use vstd::prelude::*;

verus! {

/// The raw value of one unit.
pub const ONE_BITS: i32 = 4096;

/// The raw value of π, truncated to 12 fractional bits.
pub const PI_BITS: i32 = 12867;

/// The raw value of π/2, truncated to 12 fractional bits.
pub const FRAC_PI_2_BITS: i32 = 6433;

/// The raw value of π/4, truncated to 12 fractional bits.
pub const FRAC_PI_4_BITS: i32 = 3216;

/// The raw value of √2, truncated to 12 fractional bits.
pub const SQRT_2_BITS: i32 = 5792;

/// Reduces an integer to the `i32` range, modulo 2^32.
#[verifier::opaque]
pub open spec fn wrap(x: int) -> int {
    (x - i32::MIN) % 0x1_0000_0000 + i32::MIN
}

/// Division rounding toward zero.
pub open spec fn trunc_div(a: int, b: int) -> int {
    if (a >= 0) == (b > 0) || a == 0 {
        if a >= 0 { a / b } else { (-a) / (-b) }
    } else if a < 0 {
        -((-a) / b)
    } else {
        -(a / (-b))
    }
}

/// The raw value of a fixed-point sum.
pub open spec fn fx_add(a: int, b: int) -> int {
    wrap(a + b)
}

/// The raw value of a fixed-point difference.
pub open spec fn fx_sub(a: int, b: int) -> int {
    wrap(a - b)
}

/// The raw value of a fixed-point product: rounded toward negative infinity.
pub open spec fn fx_mul(a: int, b: int) -> int {
    wrap((a * b) / 4096)
}

/// The raw value of a fixed-point quotient: rounded toward zero.
pub open spec fn fx_div(a: int, b: int) -> int {
    wrap(trunc_div(a * 4096, b))
}

/// The raw value of a fixed-point number times an integer.
pub open spec fn fx_mul_int(a: int, n: int) -> int {
    wrap(a * n)
}

/// The raw value of a fixed-point number divided by an integer, rounded toward zero.
pub open spec fn fx_div_int(a: int, n: int) -> int {
    wrap(trunc_div(a, n))
}

pub proof fn lemma_wrap_in_range(x: int)
    requires
        i32::MIN <= x <= i32::MAX,
    ensures
        wrap(x) == x,
{
    reveal(wrap);
}

proof fn lemma_mul_bound(a: int, b: int)
    requires
        i32::MIN <= a <= i32::MAX,
        i32::MIN <= b <= i32::MAX,
    ensures
        -0x4000_0000_0000_0000 <= a * b <= 0x4000_0000_0000_0000,
{
    assert(-0x4000_0000_0000_0000 <= a * b <= 0x4000_0000_0000_0000) by (nonlinear_arith)
        requires
            i32::MIN <= a <= i32::MAX,
            i32::MIN <= b <= i32::MAX,
    ;
}

/// Reduces a wide integer to `i32`, modulo 2^32.
fn wrap_wide(x: i128) -> (r: i32)
    requires
        -0x4000_0000_0000_0000_0000 <= x <= 0x4000_0000_0000_0000_0000,
    ensures
        r as int == wrap(x as int),
{
    reveal(wrap);
    let t: u128 = (x + 0x4000_0000_0000_0000_8000_0000) as u128;
    let m: u128 = t % 0x1_0000_0000;
    proof {
        let k: int = 0x4000_0000_0000int;
        assert(k * 0x1_0000_0000 == 0x4000_0000_0000_0000_0000);
        vstd::arithmetic::div_mod::lemma_mod_multiples_vanish(
            k,
            (x as int) + 0x8000_0000,
            0x1_0000_0000,
        );
    }
    (m as i64 - 0x8000_0000) as i32
}

/// Division of wide integers, rounding toward zero.
fn trunc_div_wide(x: i128, d: i128) -> (r: i128)
    requires
        d != 0,
        -0x1_0000_0000_0000_0000 <= x <= 0x1_0000_0000_0000_0000,
        -0x1_0000_0000_0000_0000 <= d <= 0x1_0000_0000_0000_0000,
    ensures
        r as int == trunc_div(x as int, d as int),
        -0x1_0000_0000_0000_0000 <= r <= 0x1_0000_0000_0000_0000,
{
    let nx: u128 = if x < 0 { (-x) as u128 } else { x as u128 };
    let nd: u128 = if d < 0 { (-d) as u128 } else { d as u128 };
    let q: u128 = nx / nd;
    proof {
        vstd::arithmetic::div_mod::lemma_div_is_ordered_by_denominator(nx as int, 1, nd as int);
        vstd::arithmetic::div_mod::lemma_div_basics(nx as int);
    }
    if (x < 0) == (d < 0) {
        q as i128
    } else {
        -(q as i128)
    }
}

/// A signed fixed-point number with 20 integer bits and 12 fractional bits,
/// held as its raw `i32` pattern.
#[derive(Clone, Copy, Debug, PartialEq, Eq, Structural)]
pub struct Fixed {
    pub bits: i32,
}

impl Fixed {
    /// The raw value, as an integer.
    pub open spec fn raw(self) -> int {
        self.bits as int
    }

    pub fn from_bits(bits: i32) -> (r: Fixed)
        ensures
            r.bits == bits,
    {
        Fixed { bits }
    }

    pub fn to_bits(self) -> (r: i32)
        ensures
            r == self.bits,
    {
        self.bits
    }

    /// The fixed-point number equal to an integer.
    pub fn from_int(n: i16) -> (r: Fixed)
        ensures
            r.raw() == n * 4096,
    {
        Fixed { bits: n as i32 * 4096 }
    }

    pub fn zero() -> (r: Fixed)
        ensures
            r.raw() == 0,
    {
        Fixed { bits: 0 }
    }

    pub fn one() -> (r: Fixed)
        ensures
            r.raw() == 4096,
    {
        Fixed { bits: ONE_BITS }
    }

    pub fn pi() -> (r: Fixed)
        ensures
            r.raw() == PI_BITS,
    {
        Fixed { bits: PI_BITS }
    }

    pub fn frac_pi_2() -> (r: Fixed)
        ensures
            r.raw() == FRAC_PI_2_BITS,
    {
        Fixed { bits: FRAC_PI_2_BITS }
    }

    pub fn frac_pi_4() -> (r: Fixed)
        ensures
            r.raw() == FRAC_PI_4_BITS,
    {
        Fixed { bits: FRAC_PI_4_BITS }
    }

    pub fn sqrt_2() -> (r: Fixed)
        ensures
            r.raw() == SQRT_2_BITS,
    {
        Fixed { bits: SQRT_2_BITS }
    }

    pub fn wrapping_add(self, o: Fixed) -> (r: Fixed)
        ensures
            r.raw() == fx_add(self.raw(), o.raw()),
    {
        Fixed { bits: wrap_wide(self.bits as i128 + o.bits as i128) }
    }

    pub fn wrapping_sub(self, o: Fixed) -> (r: Fixed)
        ensures
            r.raw() == fx_sub(self.raw(), o.raw()),
    {
        Fixed { bits: wrap_wide(self.bits as i128 - o.bits as i128) }
    }

    pub fn wrapping_neg(self) -> (r: Fixed)
        ensures
            r.raw() == wrap(-self.raw()),
    {
        Fixed { bits: wrap_wide(-(self.bits as i128)) }
    }

    pub fn wrapping_abs(self) -> (r: Fixed)
        ensures
            r.raw() == wrap(if self.raw() < 0 { -self.raw() } else { self.raw() }),
    {
        if self.bits < 0 {
            self.wrapping_neg()
        } else {
            proof {
                lemma_wrap_in_range(self.raw());
            }
            self
        }
    }

    pub fn wrapping_mul(self, o: Fixed) -> (r: Fixed)
        ensures
            r.raw() == fx_mul(self.raw(), o.raw()),
    {
        proof {
            lemma_mul_bound(self.raw(), o.raw());
        }
        let p: i128 = self.bits as i128 * o.bits as i128;
        let t: u128 = (p + 0x4000_0000_0000_0000) as u128;
        let q: i128 = (t / 4096) as i128 - 0x4_0000_0000_0000;
        proof {
            let tq = t as int / 4096;
            let tr = t as int % 4096;
            vstd::arithmetic::div_mod::lemma_fundamental_div_mod(t as int, 4096);
            vstd::arithmetic::div_mod::lemma_mod_bound(t as int, 4096);
            vstd::arithmetic::div_mod::lemma_fundamental_div_mod_converse(
                p as int,
                4096,
                tq - 0x4_0000_0000_0000,
                tr,
            );
        }
        Fixed { bits: wrap_wide(q) }
    }

    pub fn wrapping_div(self, o: Fixed) -> (r: Fixed)
        requires
            o.raw() != 0,
        ensures
            r.raw() == fx_div(self.raw(), o.raw()),
    {
        let q = trunc_div_wide(self.bits as i128 * 4096, o.bits as i128);
        Fixed { bits: wrap_wide(q) }
    }

    pub fn wrapping_mul_int(self, n: i32) -> (r: Fixed)
        ensures
            r.raw() == fx_mul_int(self.raw(), n as int),
    {
        proof {
            lemma_mul_bound(self.raw(), n as int);
        }
        Fixed { bits: wrap_wide(self.bits as i128 * n as i128) }
    }

    pub fn wrapping_div_int(self, n: i32) -> (r: Fixed)
        requires
            n != 0,
        ensures
            r.raw() == fx_div_int(self.raw(), n as int),
    {
        let q = trunc_div_wide(self.bits as i128, n as i128);
        Fixed { bits: wrap_wide(q) }
    }

    /// Limits the value to the range `[lo, hi]`.
    pub fn clamp(self, lo: Fixed, hi: Fixed) -> (r: Fixed)
        requires
            lo.raw() <= hi.raw(),
        ensures
            r.raw() == clamp_int(self.raw(), lo.raw(), hi.raw()),
    {
        if self.bits < lo.bits {
            lo
        } else if self.bits > hi.bits {
            hi
        } else {
            self
        }
    }

    /// The integer part, rounding toward negative infinity.
    pub fn floor_int(self) -> (r: i32)
        ensures
            r as int == self.raw() / 4096,
    {
        let t: u64 = (self.bits as i64 + 0x8000_0000) as u64;
        proof {
            vstd::arithmetic::div_mod::lemma_fundamental_div_mod(t as int, 4096);
            vstd::arithmetic::div_mod::lemma_mod_bound(t as int, 4096);
            vstd::arithmetic::div_mod::lemma_fundamental_div_mod_converse(
                self.raw(),
                4096,
                t as int / 4096 - 0x8_0000,
                t as int % 4096,
            );
        }
        ((t / 4096) as i64 - 0x8_0000) as i32
    }
}

/// Limits an integer to a range.
pub open spec fn clamp_int(x: int, lo: int, hi: int) -> int {
    if x < lo {
        lo
    } else if x > hi {
        hi
    } else {
        x
    }
}

impl Fixed {
}

} // verus!
