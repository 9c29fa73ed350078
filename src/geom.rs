//! Forward and inverse kinematics of the two-link arm, and the check that a
//! configuration's rectangular workspace is reachable.
use crate::fixed_point::{
    clamp_int, fx_add, fx_div, fx_div_int, fx_mul, fx_mul_int, fx_sub, wrap, Fixed,
    FRAC_PI_2_BITS, FRAC_PI_4_BITS, PI_BITS, SQRT_2_BITS,
};
use crate::trig::{asin, asin_of, atan, atan_of, cos, cos_of, sin, sin_of, sqrt, sqrt_of, SQRT_MAX_BITS};
use crate::types::{degrees_of_radians, radians_of_degrees, Angle, Angles};
use vstd::prelude::*;

verus! {

/// The geometry of the arm and the rectangle of the drawing surface that it serves.
#[derive(Clone, Copy, Debug)]
pub struct Config {
    /// Length of each of the two links.
    pub arm_len: Fixed,
    pub shoulder_range: (Angle, Angle),
    pub elbow_range: (Angle, Angle),
    pub x_range: (Fixed, Fixed),
    pub y_range: (Fixed, Fixed),
}

/// The absolute value of a raw fixed-point value, wrapping as the type does.
pub open spec fn fx_abs(a: int) -> int {
    wrap(if a < 0 { -a } else { a })
}

/// Whether a raw value lies in `[-1, 1]`.
pub open spec fn unit_range(q: int) -> bool {
    -4096 <= q <= 4096
}

/// The polar angle, in raw radians, of the point `(x, y)` with `y ≥ 0`: the
/// arc-tangent is taken of the ratio whose magnitude is at most one. `None`
/// where that ratio cannot be formed.
pub open spec fn polar_angle(x: int, y: int) -> Option<int> {
    if fx_abs(x) > fx_abs(y) {
        if x == 0 || !unit_range(fx_div(y, x)) {
            None
        } else {
            let t = atan_of(fx_div(y, x));
            Some(if t < 0 { fx_add(t, PI_BITS as int) } else { t })
        }
    } else {
        if y == 0 || !unit_range(fx_div(x, y)) {
            None
        } else {
            Some(fx_sub(FRAC_PI_2_BITS as int, atan_of(fx_div(x, y))))
        }
    }
}

impl Config {
    /// Whether `(x, y)` lies in the configured rectangle.
    pub open spec fn contains(self, x: int, y: int) -> bool {
        self.x_range.0.raw() <= x <= self.x_range.1.raw() && self.y_range.0.raw() <= y
            <= self.y_range.1.raw()
    }

    pub open spec fn shoulder_ok(self, deg: int) -> bool {
        self.shoulder_range.0.deg() <= deg <= self.shoulder_range.1.deg()
    }

    pub open spec fn elbow_ok(self, deg: int) -> bool {
        self.elbow_range.0.deg() <= deg <= self.elbow_range.1.deg()
    }

    /// Twice the squared arm length, raw.
    pub open spec fn two_ell_sq(self) -> int {
        fx_mul(fx_mul_int(self.arm_len.raw(), 2), self.arm_len.raw())
    }

    /// The sine of the elbow angle for a hand at squared distance `r2`:
    /// `1 − r²/(2ℓ²)`, limited to `[-1, 1]`.
    pub open spec fn sin_elbow(self, r2: int) -> int {
        clamp_int(fx_sub(4096, fx_div(r2, self.two_ell_sq())), -4096, 4096)
    }

    /// Raw (shoulder, elbow) degrees for the hand at `(x, y)`: the elbow is
    /// `−asin(1 − r²/(2ℓ²))` and the shoulder `π/2 + π/4 − θ + elbow/2`.
    /// `None` outside the rectangle, or where a quotient cannot be formed.
    pub open spec fn inverse(self, x: int, y: int) -> Option<(int, int)> {
        if !self.contains(x, y) || self.two_ell_sq() == 0 {
            None
        } else {
            match polar_angle(x, y) {
                None => None,
                Some(theta) => {
                    let r2 = fx_add(fx_mul(x, x), fx_mul(y, y));
                    let elbow_rads = wrap(-asin_of(self.sin_elbow(r2)));
                    let shoulder_rads = fx_add(
                        fx_sub(fx_add(FRAC_PI_2_BITS as int, FRAC_PI_4_BITS as int), theta),
                        fx_div_int(elbow_rads, 2),
                    );
                    Some((degrees_of_radians(shoulder_rads), degrees_of_radians(elbow_rads)))
                },
            }
        }
    }

    /// Raw `(x, y)` of the hand for raw joint degrees: at distance
    /// `√2·ℓ·√(1 + sin α)` and polar angle `π/2 + π/4 + α/2 − β`; the sine is
    /// limited to `[-1, 1]`.
    pub open spec fn forward(self, shoulder: int, elbow: int) -> (int, int) {
        let el = radians_of_degrees(elbow);
        let sh = radians_of_degrees(shoulder);
        let s = clamp_int(sin_of(el), -4096, 4096);
        let r = fx_mul(fx_mul(SQRT_2_BITS as int, self.arm_len.raw()), sqrt_of(fx_add(4096, s)));
        let theta = fx_sub(
            fx_add(fx_add(FRAC_PI_2_BITS as int, FRAC_PI_4_BITS as int), fx_div_int(el, 2)),
            sh,
        );
        (fx_mul(r, cos_of(theta)), fx_mul(r, sin_of(theta)))
    }

    /// Whether both joints are in range at the hand position `(x, y)`.
    pub open spec fn reaches(self, x: int, y: int) -> bool {
        match self.inverse(x, y) {
            None => false,
            Some(a) => self.shoulder_ok(a.0) && self.elbow_ok(a.1),
        }
    }

    /// `(a − ℓ)/ℓ`, raw.
    pub open spec fn offset_ratio(self, a: int) -> int {
        fx_div(fx_sub(a, self.arm_len.raw()), self.arm_len.raw())
    }

    /// `ℓ² − (a − ℓ)²`, raw.
    pub open spec fn leg_sq(self, a: int) -> int {
        let d = fx_sub(a, self.arm_len.raw());
        fx_sub(fx_mul(self.arm_len.raw(), self.arm_len.raw()), fx_mul(d, d))
    }

    /// Whether a quotient and a root about the boundary line at `a` can be formed.
    pub open spec fn boundary_defined(self, a: int) -> bool {
        self.arm_len.raw() != 0 && unit_range(self.offset_ratio(a)) && 0 <= self.leg_sq(a)
            <= SQRT_MAX_BITS
    }

    /// The critical point of the shoulder angle on the horizontal line `y = a`
    /// (forearm vertical) is in range of both joints, or off the rectangle.
    pub open spec fn horizontal_ok(self, a: int) -> bool {
        if !self.boundary_defined(a) {
            false
        } else {
            let shoulder = degrees_of_radians(asin_of(self.offset_ratio(a)));
            let elbow = wrap(-shoulder);
            let x = wrap(-sqrt_of(self.leg_sq(a)));
            !(self.x_range.0.raw() <= x <= self.x_range.1.raw()) || (self.shoulder_ok(shoulder)
                && self.elbow_ok(elbow))
        }
    }

    /// The critical point of the shoulder angle on the vertical line `x = b`
    /// (forearm horizontal) is in range of both joints, or off the rectangle;
    /// only lines with `b > 0` have one.
    pub open spec fn vertical_ok(self, b: int) -> bool {
        if b <= 0 {
            true
        } else if !self.boundary_defined(b) {
            false
        } else {
            let elbow_rads = wrap(-asin_of(self.offset_ratio(b)));
            let elbow = degrees_of_radians(elbow_rads);
            let shoulder = degrees_of_radians(fx_add(FRAC_PI_2_BITS as int, elbow_rads));
            let y = sqrt_of(self.leg_sq(b));
            !(self.y_range.0.raw() <= y <= self.y_range.1.raw()) || (self.shoulder_ok(shoulder)
                && self.elbow_ok(elbow))
        }
    }

    /// The reachability check: an ordered rectangle above the shoulder, inside
    /// the arms' radial reach, with both joints in range at its four corners
    /// and at the critical points of its edges, and an elbow that cannot bend
    /// back past −90°.
    pub open spec fn valid(self) -> bool {
        let (x0, x1) = (self.x_range.0.raw(), self.x_range.1.raw());
        let (y0, y1) = (self.y_range.0.raw(), self.y_range.1.raw());
        let ell = self.arm_len.raw();
        let x_max = if fx_abs(x0) >= fx_abs(x1) { fx_abs(x0) } else { fx_abs(x1) };
        &&& 0 < y0 < y1
        &&& x0 < x1
        &&& fx_add(fx_mul(x_max, x_max), fx_mul(y1, y1)) < fx_mul(fx_mul_int(ell, 4), ell)
        &&& self.reaches(x0, y0) && self.reaches(x0, y1) && self.reaches(x1, y0)
            && self.reaches(x1, y1)
        &&& self.horizontal_ok(y0) && self.horizontal_ok(y1)
        &&& self.elbow_range.0.deg() >= -90 * 4096
        &&& self.vertical_ok(x0) && self.vertical_ok(x1)
    }
}

/// The polar angle of `(x, y)`, as [`polar_angle`] states it.
fn polar_angle_exec(x: Fixed, y: Fixed) -> (r: Option<Fixed>)
    ensures
        match polar_angle(x.raw(), y.raw()) {
            None => r.is_none(),
            Some(t) => r.is_some() && r.unwrap().raw() == t,
        },
{
    if x.wrapping_abs().bits > y.wrapping_abs().bits {
        if x.bits == 0 {
            return None;
        }
        let q = y.wrapping_div(x);
        if q.bits < -4096 || q.bits > 4096 {
            return None;
        }
        let t = atan(q);
        if t.bits < 0 {
            Some(t.wrapping_add(Fixed::pi()))
        } else {
            Some(t)
        }
    } else {
        if y.bits == 0 {
            return None;
        }
        let q = x.wrapping_div(y);
        if q.bits < -4096 || q.bits > 4096 {
            return None;
        }
        Some(Fixed::frac_pi_2().wrapping_sub(atan(q)))
    }
}

impl Config {
    /// The default configuration.
    pub open spec fn default_spec() -> Config {
        Config {
            arm_len: Fixed { bits: 32768i32 },
            shoulder_range: (Angle(Fixed { bits: -184320i32 }), Angle(Fixed { bits: 491520i32 })),
            elbow_range: (Angle(Fixed { bits: -245760i32 }), Angle(Fixed { bits: 307200i32 })),
            x_range: (Fixed { bits: -32768i32 }, Fixed { bits: 32768i32 }),
            y_range: (Fixed { bits: 20480i32 }, Fixed { bits: 53248i32 }),
        }
    }

    /// Arm length 8; shoulder from −45° to 120°; elbow from −60° to 75°;
    /// the rectangle `[−8, 8] × [5, 13]`.
    pub fn default() -> (r: Config)
        ensures
            r == Config::default_spec(),
            r.arm_len.raw() == 8 * 4096,
            r.shoulder_range.0.deg() == -45 * 4096,
            r.shoulder_range.1.deg() == 120 * 4096,
            r.elbow_range.0.deg() == -60 * 4096,
            r.elbow_range.1.deg() == 75 * 4096,
            r.x_range.0.raw() == -8 * 4096,
            r.x_range.1.raw() == 8 * 4096,
            r.y_range.0.raw() == 5 * 4096,
            r.y_range.1.raw() == 13 * 4096,
    {
        Config {
            arm_len: Fixed::from_int(8),
            shoulder_range: (
                Angle::from_degrees(Fixed::from_int(-45)),
                Angle::from_degrees(Fixed::from_int(120)),
            ),
            elbow_range: (
                Angle::from_degrees(Fixed::from_int(-60)),
                Angle::from_degrees(Fixed::from_int(75)),
            ),
            x_range: (Fixed::from_int(-8), Fixed::from_int(8)),
            y_range: (Fixed::from_int(5), Fixed::from_int(13)),
        }
    }

    pub fn shoulder_is_valid(&self, shoulder: Angle) -> (r: bool)
        ensures
            r == self.shoulder_ok(shoulder.deg()),
    {
        self.shoulder_range.0.degrees().bits <= shoulder.degrees().bits
            && shoulder.degrees().bits <= self.shoulder_range.1.degrees().bits
    }

    pub fn elbow_is_valid(&self, elbow: Angle) -> (r: bool)
        ensures
            r == self.elbow_ok(elbow.deg()),
    {
        self.elbow_range.0.degrees().bits <= elbow.degrees().bits
            && elbow.degrees().bits <= self.elbow_range.1.degrees().bits
    }

    pub fn coord_is_valid(&self, x: Fixed, y: Fixed) -> (r: bool)
        ensures
            r == self.contains(x.raw(), y.raw()),
    {
        self.x_range.0.bits <= x.bits && x.bits <= self.x_range.1.bits && self.y_range.0.bits
            <= y.bits && y.bits <= self.y_range.1.bits
    }

    /// The joint angles that put the hand at `(x, y)`; not checked against the
    /// joints' ranges. Fails outside the rectangle, and where the arm length
    /// or the point leaves a quotient undefined.
    pub fn at_coord(&self, x: Fixed, y: Fixed) -> (r: Result<Angles, ()>)
        ensures
            match self.inverse(x.raw(), y.raw()) {
                None => r.is_err(),
                Some(a) => r.is_ok() && r.unwrap().shoulder.deg() == a.0
                    && r.unwrap().elbow.deg() == a.1,
            },
    {
        if x.bits < self.x_range.0.bits || x.bits > self.x_range.1.bits || y.bits
            < self.y_range.0.bits || y.bits > self.y_range.1.bits {
            return Err(());
        }
        let denom = self.arm_len.wrapping_mul_int(2).wrapping_mul(self.arm_len);
        if denom.bits == 0 {
            return Err(());
        }
        let theta = match polar_angle_exec(x, y) {
            Some(t) => t,
            None => {
                return Err(());
            },
        };
        let r2 = x.wrapping_mul(x).wrapping_add(y.wrapping_mul(y));
        let sin_elbow = Fixed::one().wrapping_sub(r2.wrapping_div(denom));
        let sin_elbow = sin_elbow.clamp(Fixed::from_bits(-4096), Fixed::one());
        let elbow_rads = asin(sin_elbow).wrapping_neg();
        let elbow = Angle::from_radians(elbow_rads);
        let shoulder_rads = Fixed::frac_pi_2().wrapping_add(Fixed::frac_pi_4()).wrapping_sub(
            theta,
        ).wrapping_add(elbow_rads.wrapping_div_int(2));
        let shoulder = Angle::from_radians(shoulder_rads);
        Ok(Angles { shoulder, elbow })
    }

    /// Whether both joints are in range at the hand position `(x, y)`.
    fn reaches_exec(&self, x: Fixed, y: Fixed) -> (r: bool)
        ensures
            r == self.reaches(x.raw(), y.raw()),
    {
        match self.at_coord(x, y) {
            Ok(angles) => self.shoulder_is_valid(angles.shoulder) && self.elbow_is_valid(
                angles.elbow,
            ),
            Err(()) => false,
        }
    }

    /// `(a − ℓ)/ℓ` and `ℓ² − (a − ℓ)²`, where they can be handed to the
    /// arc-sine and the square root.
    fn boundary_terms(&self, a: Fixed) -> (r: Option<(Fixed, Fixed)>)
        ensures
            r.is_some() == self.boundary_defined(a.raw()),
            r.is_some() ==> r.unwrap().0.raw() == self.offset_ratio(a.raw()) && r.unwrap().1.raw()
                == self.leg_sq(a.raw()),
    {
        let ell = self.arm_len;
        if ell.bits == 0 {
            return None;
        }
        let d = a.wrapping_sub(ell);
        let q = d.wrapping_div(ell);
        let leg = ell.wrapping_mul(ell).wrapping_sub(d.wrapping_mul(d));
        if q.bits < -4096 || q.bits > 4096 || leg.bits < 0 || leg.bits > SQRT_MAX_BITS {
            None
        } else {
            Some((q, leg))
        }
    }

    fn horizontal_check(&self, a: Fixed) -> (r: bool)
        ensures
            r == self.horizontal_ok(a.raw()),
    {
        let (q, leg) = match self.boundary_terms(a) {
            Some(t) => t,
            None => {
                return false;
            },
        };
        let shoulder = Angle::from_radians(asin(q));
        let elbow = shoulder.neg();
        let x = sqrt(leg).wrapping_neg();
        if self.x_range.0.bits <= x.bits && x.bits <= self.x_range.1.bits {
            self.shoulder_is_valid(shoulder) && self.elbow_is_valid(elbow)
        } else {
            true
        }
    }

    fn vertical_check(&self, b: Fixed) -> (r: bool)
        ensures
            r == self.vertical_ok(b.raw()),
    {
        if b.bits <= 0 {
            return true;
        }
        let (q, leg) = match self.boundary_terms(b) {
            Some(t) => t,
            None => {
                return false;
            },
        };
        let elbow_rads = asin(q).wrapping_neg();
        let elbow = Angle::from_radians(elbow_rads);
        let shoulder = Angle::from_radians(Fixed::frac_pi_2().wrapping_add(elbow_rads));
        let y = sqrt(leg);
        if self.y_range.0.bits <= y.bits && y.bits <= self.y_range.1.bits {
            self.shoulder_is_valid(shoulder) && self.elbow_is_valid(elbow)
        } else {
            true
        }
    }

    /// Whether every point of the rectangle can be reached with both joints in
    /// range. The shoulder angle takes its extremes on the rectangle's
    /// boundary, and on each edge it has at most one interior critical point
    /// (where the forearm is perpendicular to the edge), so the four corners
    /// and those points are checked.
    pub fn is_valid(&self) -> (r: bool)
        ensures
            r == self.valid(),
    {
        let (y0, y1) = self.y_range;
        let (x0, x1) = self.x_range;
        let ell = self.arm_len;
        if y0.bits <= 0 || y1.bits <= y0.bits || x1.bits <= x0.bits {
            return false;
        }
        let ax0 = x0.wrapping_abs();
        let ax1 = x1.wrapping_abs();
        let x_max = if ax0.bits >= ax1.bits { ax0 } else { ax1 };
        let reach = x_max.wrapping_mul(x_max).wrapping_add(y1.wrapping_mul(y1));
        if reach.bits >= ell.wrapping_mul_int(4).wrapping_mul(ell).bits {
            return false;
        }
        if !self.reaches_exec(x0, y0) || !self.reaches_exec(x0, y1) || !self.reaches_exec(x1, y0)
            || !self.reaches_exec(x1, y1) {
            return false;
        }
        if !self.horizontal_check(y0) || !self.horizontal_check(y1) {
            return false;
        }
        // An elbow bent back past −90° would put the hand on the other side
        // of the forearm at the vertical edges' critical points.
        if self.elbow_range.0.degrees().bits < -90 * 4096 {
            return false;
        }
        self.vertical_check(x0) && self.vertical_check(x1)
    }

    /// The hand position for the given joint angles.
    pub fn coord_at_angle(&self, angles: Angles) -> (r: (Fixed, Fixed))
        ensures
            (r.0.raw(), r.1.raw()) == self.forward(angles.shoulder.deg(), angles.elbow.deg()),
    {
        let el = angles.elbow.radians();
        let s = sin(el).clamp(Fixed::from_bits(-4096), Fixed::one());
        proof {
            crate::fixed_point::lemma_wrap_in_range(4096 + s.raw());
        }
        let r = Fixed::sqrt_2().wrapping_mul(self.arm_len).wrapping_mul(
            sqrt(Fixed::one().wrapping_add(s)),
        );
        let theta = Fixed::frac_pi_2().wrapping_add(Fixed::frac_pi_4()).wrapping_add(
            el.wrapping_div_int(2),
        ).wrapping_sub(angles.shoulder.radians());
        (r.wrapping_mul(cos(theta)), r.wrapping_mul(sin(theta)))
    }
}

/// A configuration that passes the check has both joints in range at each
/// corner of its rectangle.
pub proof fn lemma_valid_corners_reachable(c: Config)
    requires
        c.valid(),
    ensures
        c.reaches(c.x_range.0.raw(), c.y_range.0.raw()),
        c.reaches(c.x_range.0.raw(), c.y_range.1.raw()),
        c.reaches(c.x_range.1.raw(), c.y_range.0.raw()),
        c.reaches(c.x_range.1.raw(), c.y_range.1.raw()),
{
}

} // verus!
