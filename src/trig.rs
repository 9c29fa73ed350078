//! Trigonometric functions and square roots on [`Fixed`], computed by CORDIC.
//!
//! Each result is named by an uninterpreted function of the raw argument: the
//! library's contracts speak of these names, not of their numeric values.
use crate::fixed_point::Fixed;
use fixed::types::I20F12;
use vstd::prelude::*;

verus! {

/// Raw value of the CORDIC sine of a raw angle in radians.
pub uninterp spec fn sin_of(x: int) -> int;

/// Raw value of the CORDIC cosine of a raw angle in radians.
pub uninterp spec fn cos_of(x: int) -> int;

/// Raw value of the CORDIC arc-sine, in radians, of a raw value.
pub uninterp spec fn asin_of(x: int) -> int;

/// Raw value of the CORDIC arc-tangent, in radians, of a raw value.
pub uninterp spec fn atan_of(x: int) -> int;

/// Raw value of the CORDIC square root of a raw value.
pub uninterp spec fn sqrt_of(x: int) -> int;

/// Largest raw value accepted by [`sqrt`]; above it the search overflows.
pub const SQRT_MAX_BITS: i32 = 0x3fff_ffff;

/// Relies on `cordic::sin` for `I20F12`: a function of its argument alone,
/// defined for every argument.
#[verifier::external_body]
pub(crate) fn sin(x: Fixed) -> (r: Fixed)
    ensures
        r.raw() == sin_of(x.raw()),
{
    Fixed { bits: cordic::sin(I20F12::from_bits(x.bits)).to_bits() }
}

/// Relies on `cordic::cos` for `I20F12`: a function of its argument alone,
/// defined for every argument.
#[verifier::external_body]
pub(crate) fn cos(x: Fixed) -> (r: Fixed)
    ensures
        r.raw() == cos_of(x.raw()),
{
    Fixed { bits: cordic::cos(I20F12::from_bits(x.bits)).to_bits() }
}

/// Relies on `cordic::asin` for `I20F12`: a function of its argument alone.
/// Arguments are kept within `[-1, 1]`, where its iterations stay in range.
#[verifier::external_body]
pub(crate) fn asin(x: Fixed) -> (r: Fixed)
    requires
        -4096 <= x.raw() <= 4096,
    ensures
        r.raw() == asin_of(x.raw()),
{
    Fixed { bits: cordic::asin(I20F12::from_bits(x.bits)).to_bits() }
}

/// Relies on `cordic::atan` for `I20F12`: a function of its argument alone.
/// Arguments are kept within `[-1, 1]`, where its iterations stay in range.
#[verifier::external_body]
pub(crate) fn atan(x: Fixed) -> (r: Fixed)
    requires
        -4096 <= x.raw() <= 4096,
    ensures
        r.raw() == atan_of(x.raw()),
{
    Fixed { bits: cordic::atan(I20F12::from_bits(x.bits)).to_bits() }
}

/// Relies on `cordic::sqrt` for `I20F12`: a function of its argument alone.
/// A negative argument never ends its search, and one of 2^18 or more
/// overflows a square inside it, so both are left out. Its search only
/// keeps a candidate whose square (rounded down) is at most the argument,
/// starting from zero or a non-negative power of two, so the root is
/// non-negative and its square does not exceed the argument.
#[verifier::external_body]
pub(crate) fn sqrt(x: Fixed) -> (r: Fixed)
    requires
        0 <= x.raw() <= SQRT_MAX_BITS,
    ensures
        r.raw() == sqrt_of(x.raw()),
        0 <= r.raw(),
        (r.raw() * r.raw()) / 4096 <= x.raw(),
{
    Fixed { bits: cordic::sqrt(I20F12::from_bits(x.bits)).to_bits() }
}

} // verus!
