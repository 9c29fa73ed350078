//! Plain values shared by the kinematics, the servo mapping and the protocol.
use crate::fixed_point::{clamp_int, fx_div, fx_div_int, fx_mul, fx_mul_int, fx_add, fx_sub, wrap, Fixed, PI_BITS};
use vstd::prelude::*;

verus! {

/// A joint angle in degrees. No normalization is applied.
#[derive(Clone, Copy, Debug, PartialEq, Eq, Structural)]
pub struct Angle(pub Fixed);

/// Raw degrees of an angle given in raw radians.
pub open spec fn degrees_of_radians(rad: int) -> int {
    fx_div(fx_mul_int(rad, 180), PI_BITS as int)
}

/// Raw radians of an angle given in raw degrees.
pub open spec fn radians_of_degrees(deg: int) -> int {
    fx_div_int(fx_mul(deg, PI_BITS as int), 180)
}

/// Raw value of `a·(1 − λ) + b·λ`, where λ is `ratio` limited to `[0, 1]`.
pub open spec fn lerp(a: int, b: int, ratio: int) -> int {
    let lambda = clamp_int(ratio, 0, 4096);
    fx_add(fx_mul(a, fx_sub(4096, lambda)), fx_mul(b, lambda))
}

impl Angle {
    /// Raw degrees.
    pub open spec fn deg(self) -> int {
        self.0.raw()
    }

    pub fn from_degrees(deg: Fixed) -> (r: Angle)
        ensures
            r.deg() == deg.raw(),
    {
        Angle(deg)
    }

    pub fn from_radians(rad: Fixed) -> (r: Angle)
        ensures
            r.deg() == degrees_of_radians(rad.raw()),
    {
        Angle(rad.wrapping_mul_int(180).wrapping_div(Fixed::pi()))
    }

    pub fn degrees(self) -> (r: Fixed)
        ensures
            r.raw() == self.deg(),
    {
        self.0
    }

    pub fn radians(self) -> (r: Fixed)
        ensures
            r.raw() == radians_of_degrees(self.deg()),
    {
        self.0.wrapping_mul(Fixed::pi()).wrapping_div_int(180)
    }

    /// Limits the angle to `[lower, upper]`.
    pub fn clamp(self, lower: Angle, upper: Angle) -> (r: Angle)
        requires
            lower.deg() <= upper.deg(),
        ensures
            r.deg() == clamp_int(self.deg(), lower.deg(), upper.deg()),
    {
        Angle(self.0.clamp(lower.0, upper.0))
    }

    /// Linear interpolation from `self` (ratio 0) to `other` (ratio 1); the
    /// ratio is limited to `[0, 1]`.
    pub fn interpolate(&self, other: Angle, ratio: Fixed) -> (r: Angle)
        ensures
            r.deg() == lerp(self.deg(), other.deg(), ratio.raw()),
    {
        let lambda = ratio.clamp(Fixed::zero(), Fixed::one());
        let mu = Fixed::one().wrapping_sub(lambda);
        Angle(self.0.wrapping_mul(mu).wrapping_add(other.0.wrapping_mul(lambda)))
    }

    pub fn neg(self) -> (r: Angle)
        ensures
            r.deg() == wrap(-self.deg()),
    {
        Angle(self.0.wrapping_neg())
    }

    pub fn add(self, rhs: Angle) -> (r: Angle)
        ensures
            r.deg() == fx_add(self.deg(), rhs.deg()),
    {
        Angle(self.0.wrapping_add(rhs.0))
    }

    pub fn add_assign(&mut self, rhs: Angle)
        ensures
            final(self).deg() == fx_add(old(self).deg(), rhs.deg()),
    {
        self.0 = self.0.wrapping_add(rhs.0);
    }

    pub fn sub(self, rhs: Angle) -> (r: Angle)
        ensures
            r.deg() == fx_sub(self.deg(), rhs.deg()),
    {
        Angle(self.0.wrapping_sub(rhs.0))
    }
}

/// Shoulder and elbow angles.
#[derive(Clone, Copy, Debug, PartialEq, Eq, Structural)]
pub struct Angles {
    pub shoulder: Angle,
    pub elbow: Angle,
}

/// A point of the drawing surface.
#[derive(Clone, Copy, Debug, PartialEq, Eq, Structural)]
pub struct Point {
    pub x: Fixed,
    pub y: Fixed,
}

/// The raw pulse widths, in microseconds, of the shoulder, elbow and pen servos.
#[derive(Clone, Copy, Debug, PartialEq, Eq, Structural)]
pub struct ServoPosition {
    pub shoulder: u16,
    pub elbow: u16,
    pub pen: u16,
}

/// Where the arm is: as raw pulse widths, or as a point of the drawing
/// surface.
#[derive(Clone, Copy, Debug, PartialEq, Eq, Structural)]
pub enum Position {
    Raw(ServoPosition),
    Cooked(Point),
}

/// A change of the shoulder and elbow pulse widths, in microseconds.
#[derive(Clone, Copy, Debug, PartialEq, Eq, Structural)]
pub struct ServoPositionDelta {
    pub shoulder: i16,
    pub elbow: i16,
}

/// Adds a signed change to a pulse width, limited to the `u16` range.
pub open spec fn shifted_duty(d: u16, delta: i16) -> int {
    clamp_int(d + delta, 0, u16::MAX as int)
}

fn shift_duty(d: u16, delta: i16) -> (r: u16)
    ensures
        r == shifted_duty(d, delta),
{
    let v: i32 = d as i32 + delta as i32;
    if v < 0 {
        0
    } else if v > u16::MAX as i32 {
        u16::MAX
    } else {
        v as u16
    }
}

/// `p` with a change applied to the shoulder and elbow; the pen is kept.
pub open spec fn shifted_position(p: ServoPosition, delta: ServoPositionDelta) -> ServoPosition {
    ServoPosition {
        shoulder: shifted_duty(p.shoulder, delta.shoulder) as u16,
        elbow: shifted_duty(p.elbow, delta.elbow) as u16,
        pen: p.pen,
    }
}

impl ServoPosition {
    /// Applies a change to the shoulder and elbow; the pen is kept.
    pub fn apply_delta(self, delta: ServoPositionDelta) -> (r: ServoPosition)
        ensures
            r == shifted_position(self, delta),
            r.shoulder == shifted_duty(self.shoulder, delta.shoulder),
            r.elbow == shifted_duty(self.elbow, delta.elbow),
            r.pen == self.pen,
    {
        ServoPosition {
            shoulder: shift_duty(self.shoulder, delta.shoulder),
            elbow: shift_duty(self.elbow, delta.elbow),
            pen: self.pen,
        }
    }
}

#[derive(Clone, Copy, Debug, PartialEq, Eq, Structural)]
pub enum Joint {
    Shoulder,
    Elbow,
}

#[derive(Clone, Copy, Debug, PartialEq, Eq, Structural)]
pub enum PenState {
    Up,
    Down,
}

impl PenState {
    /// The other pen state.
    pub fn not(self) -> (r: PenState)
        ensures
            r != self,
    {
        match self {
            PenState::Up => PenState::Down,
            PenState::Down => PenState::Up,
        }
    }
}

#[derive(Clone, Copy, Debug, PartialEq, Eq, Structural)]
pub enum Direction {
    Increasing,
    Decreasing,
}

/// A delay in milliseconds, between 0 and 1000.
#[derive(Debug, PartialEq, Eq, Structural)]
pub struct Delay(u16);

impl Delay {
    #[verifier::type_invariant]
    spec fn inv(self) -> bool {
        self.0 <= 1000
    }

    pub closed spec fn millis(&self) -> int {
        self.0 as int
    }

    pub fn from_millis(ms: u16) -> (r: Delay)
        ensures
            r.millis() == clamp_int(ms as int, 0, 1000),
    {
        Delay(if ms > 1000 { 1000 } else { ms })
    }

    pub fn to_millis(&self) -> (r: u16)
        ensures
            r == self.millis(),
            r <= 1000,
    {
        proof {
            use_type_invariant(self);
        }
        self.0
    }
}

} // verus!
