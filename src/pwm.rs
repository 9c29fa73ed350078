//! Servo calibration: joint angles to pulse widths through direction-specific
//! piecewise-linear tables.
use crate::types::{Angle, Angles, Direction, Joint, PenState, ServoPosition};
use arrayvec::ArrayVec;
use vstd::prelude::*;

verus! {

#[verifier::external_type_specification]
#[verifier::external_body]
#[verifier::reject_recursive_types(T)]
pub struct ExArrayVec<T, const CAP: usize>(ArrayVec<T, CAP>);

/// A pair of (degrees, pulse width in microseconds).
pub type CalibrationEntry = (i16, u16);

/// At most sixteen entries, sorted by degrees.
pub type CalibrationTable = ArrayVec<CalibrationEntry, 16>;

/// Longest calibration table.
pub const MAX_ENTRIES: usize = 16;

/// The entries of a calibration table, in order.
pub uninterp spec fn entries(t: ArrayVec<(i16, u16), 16>) -> Seq<(i16, u16)>;

/// Relies on `ArrayVec::new`: an empty vector.
#[verifier::external_body]
pub(crate) fn table_new() -> (r: CalibrationTable)
    ensures
        entries(r) == Seq::<(i16, u16)>::empty(),
{
    ArrayVec::new()
}

/// Relies on `ArrayVec::len`: the number of entries, at most the capacity.
#[verifier::external_body]
pub(crate) fn table_len(t: &CalibrationTable) -> (r: usize)
    ensures
        r == entries(*t).len(),
        r <= MAX_ENTRIES,
{
    t.len()
}

/// Relies on indexing an `ArrayVec` through its slice: the entry at `i`.
#[verifier::external_body]
pub(crate) fn table_get(t: &CalibrationTable, i: usize) -> (r: CalibrationEntry)
    requires
        i < entries(*t).len(),
    ensures
        r == entries(*t)[i as int],
{
    t[i]
}

/// Relies on `ArrayVec::push`: appends an entry; it panics only when full.
#[verifier::external_body]
pub(crate) fn table_push(t: &mut CalibrationTable, e: CalibrationEntry)
    requires
        entries(*old(t)).len() < MAX_ENTRIES,
    ensures
        entries(*final(t)) == entries(*old(t)).push(e),
{
    t.push(e)
}

/// Builds a table from a list of at most sixteen entries.
pub fn table_from(list: &[CalibrationEntry]) -> (r: CalibrationTable)
    requires
        list@.len() <= MAX_ENTRIES,
    ensures
        entries(r) == list@,
{
    let mut t = table_new();
    let mut i: usize = 0;
    while i < list.len()
        invariant
            i <= list@.len() <= MAX_ENTRIES,
            entries(t) == list@.subrange(0, i as int),
        decreases list@.len() - i,
    {
        table_push(&mut t, list[i]);
        i += 1;
        proof {
            assert(list@.subrange(0, i as int) =~= list@.subrange(0, i - 1).push(list@[i - 1]));
        }
    }
    proof {
        assert(list@.subrange(0, i as int) =~= list@);
    }
    t
}

/// The fraction, in raw fixed-point units, of the way from `d0` degrees to
/// `d1` degrees that the raw angle `deg` has come.
pub open spec fn window_ratio(d0: int, d1: int, deg: int) -> int {
    ((deg - d0 * 4096) * 4096) / ((d1 - d0) * 4096)
}

/// The pulse width between two entries, linearly interpolated and rounded
/// to the nearest microsecond (halves up).
pub open spec fn window_duty(e0: (i16, u16), e1: (i16, u16), deg: int) -> int {
    if e0.0 == e1.0 {
        e0.1 as int
    } else {
        let l = window_ratio(e0.0 as int, e1.0 as int, deg);
        (e0.1 * (4096 - l) + e1.1 * l + 2048) / 4096
    }
}

/// The pulse width that a table gives for the raw angle `deg`, searching
/// from entry `i`: below an entry, that entry's width; between two
/// neighbours, their interpolation; past the last, the last width. An empty
/// table gives 0.
pub open spec fn table_duty_from(t: Seq<(i16, u16)>, deg: int, i: int) -> int
    decreases t.len() - i,
{
    if t.len() == 0 {
        0
    } else if i < 0 || i + 1 >= t.len() {
        t.last().1 as int
    } else if deg < t[i].0 * 4096 {
        t[i].1 as int
    } else if deg <= t[i + 1].0 * 4096 {
        window_duty(t[i], t[i + 1], deg)
    } else {
        table_duty_from(t, deg, i + 1)
    }
}

pub open spec fn table_duty(t: Seq<(i16, u16)>, deg: int) -> int {
    table_duty_from(t, deg, 0)
}

proof fn lemma_window_duty_bounds(e0: (i16, u16), e1: (i16, u16), deg: int)
    requires
        e0.0 < e1.0,
        e0.0 * 4096 <= deg <= e1.0 * 4096,
    ensures
        0 <= window_ratio(e0.0 as int, e1.0 as int, deg) <= 4096,
        0 <= window_duty(e0, e1, deg) <= u16::MAX,
{
    let num = (deg - e0.0 * 4096) * 4096;
    let den = (e1.0 - e0.0) * 4096;
    assert(0 <= num <= den * 4096) by (nonlinear_arith)
        requires
            num == (deg - e0.0 * 4096) * 4096,
            den == (e1.0 - e0.0) * 4096,
            e0.0 * 4096 <= deg <= e1.0 * 4096,
    ;
    vstd::arithmetic::div_mod::lemma_div_is_ordered(num, den * 4096, den);
    vstd::arithmetic::div_mod::lemma_div_multiples_vanish(4096, den);
    vstd::arithmetic::div_mod::lemma_div_pos_is_pos(num, den);
    let l = window_ratio(e0.0 as int, e1.0 as int, deg);
    let v = e0.1 * (4096 - l) + e1.1 * l;
    assert(0 <= v <= 65535 * 4096) by (nonlinear_arith)
        requires
            v == e0.1 * (4096 - l) + e1.1 * l,
            0 <= l <= 4096,
            0 <= e0.1 <= 65535,
            0 <= e1.1 <= 65535,
    ;
}

/// Entries in strictly increasing order of degrees.
pub open spec fn sorted_by_degrees(t: Seq<(i16, u16)>) -> bool {
    forall|j: int, k: int| 0 <= j < k < t.len() ==> #[trigger] t[j].0 < #[trigger] t[k].0
}

proof fn lemma_table_duty_in_window(t: Seq<(i16, u16)>, deg: int, i: int, j: int)
    requires
        sorted_by_degrees(t),
        0 <= j <= i,
        i + 1 < t.len(),
        t[i].0 * 4096 < deg <= t[i + 1].0 * 4096,
    ensures
        table_duty_from(t, deg, j) == window_duty(t[i], t[i + 1], deg),
    decreases i - j,
{
    if j < i {
        assert(t[j].0 < t[i].0 || j == i);
        if j + 1 < i {
            assert(t[j + 1].0 < t[i].0);
        }
        lemma_table_duty_in_window(t, deg, i, j + 1);
    }
}

proof fn lemma_window_duty_ends(e0: (i16, u16), e1: (i16, u16))
    requires
        e0.0 < e1.0,
    ensures
        window_duty(e0, e1, e0.0 * 4096) == e0.1,
        window_duty(e0, e1, e1.0 * 4096) == e1.1,
{
    let den = (e1.0 - e0.0) * 4096;
    assert(((e0.0 * 4096 - e0.0 * 4096) * 4096) == 0);
    vstd::arithmetic::div_mod::lemma_div_basics(den);
    assert((e1.0 * 4096 - e0.0 * 4096) * 4096 == 4096 * den) by (nonlinear_arith)
        requires
            den == (e1.0 - e0.0) * 4096,
    ;
    vstd::arithmetic::div_mod::lemma_div_multiples_vanish(4096, den);
    assert(window_ratio(e0.0 as int, e1.0 as int, e0.0 * 4096) == 0);
    assert(window_ratio(e0.0 as int, e1.0 as int, e1.0 * 4096) == 4096);
    vstd::arithmetic::div_mod::lemma_fundamental_div_mod_converse(
        e0.1 * (4096 - 0) + e1.1 * 0 + 2048,
        4096,
        e0.1 as int,
        2048,
    );
    vstd::arithmetic::div_mod::lemma_fundamental_div_mod_converse(
        e0.1 * (4096 - 4096) + e1.1 * 4096 + 2048,
        4096,
        e1.1 as int,
        2048,
    );
}

/// Within the closed span of two neighbouring entries of a sorted table,
/// the table gives their interpolation.
proof fn lemma_table_duty_closed_window(t: Seq<(i16, u16)>, deg: int, i: int)
    requires
        sorted_by_degrees(t),
        0 <= i,
        i + 1 < t.len(),
        t[i].0 * 4096 <= deg <= t[i + 1].0 * 4096,
    ensures
        table_duty(t, deg) == window_duty(t[i], t[i + 1], deg),
{
    if deg > t[i].0 * 4096 {
        lemma_table_duty_in_window(t, deg, i, 0);
    } else if i > 0 {
        assert(t[i - 1].0 < t[i].0);
        lemma_table_duty_in_window(t, deg, i - 1, 0);
        assert(t[i].0 < t[i + 1].0);
        lemma_window_duty_ends(t[i - 1], t[i]);
        lemma_window_duty_ends(t[i], t[i + 1]);
    } else {
        assert(t[0].0 < t[1].0);
    }
}

proof fn lemma_window_duty_monotone(e0: (i16, u16), e1: (i16, u16), deg1: int, deg2: int)
    requires
        e0.0 < e1.0,
        e0.0 * 4096 <= deg1 <= deg2 <= e1.0 * 4096,
    ensures
        e0.1 <= e1.1 ==> window_duty(e0, e1, deg1) <= window_duty(e0, e1, deg2),
        e0.1 >= e1.1 ==> window_duty(e0, e1, deg1) >= window_duty(e0, e1, deg2),
{
    let den = (e1.0 - e0.0) * 4096;
    let n1 = (deg1 - e0.0 * 4096) * 4096;
    let n2 = (deg2 - e0.0 * 4096) * 4096;
    assert(n1 <= n2) by (nonlinear_arith)
        requires
            n1 == (deg1 - e0.0 * 4096) * 4096,
            n2 == (deg2 - e0.0 * 4096) * 4096,
            deg1 <= deg2,
    ;
    vstd::arithmetic::div_mod::lemma_div_is_ordered(n1, n2, den);
    let l1 = window_ratio(e0.0 as int, e1.0 as int, deg1);
    let l2 = window_ratio(e0.0 as int, e1.0 as int, deg2);
    let v1 = e0.1 * (4096 - l1) + e1.1 * l1;
    let v2 = e0.1 * (4096 - l2) + e1.1 * l2;
    assert(e0.1 <= e1.1 ==> v1 <= v2) by (nonlinear_arith)
        requires
            l1 <= l2,
            v1 == e0.1 * (4096 - l1) + e1.1 * l1,
            v2 == e0.1 * (4096 - l2) + e1.1 * l2,
    ;
    assert(e0.1 >= e1.1 ==> v1 >= v2) by (nonlinear_arith)
        requires
            l1 <= l2,
            v1 == e0.1 * (4096 - l1) + e1.1 * l1,
            v2 == e0.1 * (4096 - l2) + e1.1 * l2,
    ;
    if e0.1 <= e1.1 {
        vstd::arithmetic::div_mod::lemma_div_is_ordered(v1 + 2048, v2 + 2048, 4096);
    }
    if e0.1 >= e1.1 {
        vstd::arithmetic::div_mod::lemma_div_is_ordered(v2 + 2048, v1 + 2048, 4096);
    }
}

/// Between two neighbouring entries of a sorted table, the pulse width moves
/// monotonically with the angle, toward the second entry's width: it never
/// falls where the widths rise, and never rises where they fall.
pub proof fn lemma_duty_monotone_between_entries(t: Seq<(i16, u16)>, i: int, deg1: int, deg2: int)
    requires
        sorted_by_degrees(t),
        0 <= i,
        i + 1 < t.len(),
        t[i].0 * 4096 <= deg1 <= deg2 <= t[i + 1].0 * 4096,
    ensures
        t[i].1 <= t[i + 1].1 ==> table_duty(t, deg1) <= table_duty(t, deg2),
        t[i].1 >= t[i + 1].1 ==> table_duty(t, deg1) >= table_duty(t, deg2),
{
    assert(t[i].0 < t[i + 1].0);
    lemma_table_duty_closed_window(t, deg1, i);
    lemma_table_duty_closed_window(t, deg2, i);
    lemma_window_duty_monotone(t[i], t[i + 1], deg1, deg2);
}

/// Interpolates between two table entries.
fn interpolate_window(e0: CalibrationEntry, e1: CalibrationEntry, deg: i32) -> (r: u16)
    requires
        e0.0 * 4096 <= deg <= e1.0 * 4096,
    ensures
        r == window_duty(e0, e1, deg as int),
{
    if e0.0 == e1.0 {
        return e0.1;
    }
    proof {
        lemma_window_duty_bounds(e0, e1, deg as int);
    }
    let num: i64 = (deg as i64 - e0.0 as i64 * 4096) * 4096;
    let den: i64 = (e1.0 as i64 - e0.0 as i64) * 4096;
    let l: i64 = num / den;
    let v: i64 = e0.1 as i64 * (4096 - l) + e1.1 as i64 * l;
    ((v + 2048) / 4096) as u16
}

/// The pulse width that a table gives for a raw angle.
pub fn lookup(t: &CalibrationTable, deg: i32) -> (r: u16)
    ensures
        r == table_duty(entries(*t), deg as int),
{
    let n = table_len(t);
    if n == 0 {
        return 0;
    }
    let mut i: usize = 0;
    while i + 1 < n
        invariant
            n == entries(*t).len(),
            0 < n <= MAX_ENTRIES,
            i < n,
            table_duty(entries(*t), deg as int) == table_duty_from(entries(*t), deg as int, i as int),
        decreases n - i,
    {
        let e0 = table_get(t, i);
        let e1 = table_get(t, i + 1);
        if deg < e0.0 as i32 * 4096 {
            return e0.1;
        } else if deg <= e1.0 as i32 * 4096 {
            return interpolate_window(e0, e1, deg);
        }
        i += 1;
    }
    table_get(t, n - 1).1
}

/// The two calibration tables of one joint.
#[derive(Debug)]
pub struct Pwm {
    /// Used when the angle is increasing.
    pub inc: CalibrationTable,
    /// Used when the angle is decreasing or unchanged.
    pub dec: CalibrationTable,
}

/// The table that a move from `last` to `angle` (raw degrees) reads: the
/// increasing one when the angle grows, else the decreasing one.
pub open spec fn pwm_duty(p: Pwm, last: int, angle: int) -> int {
    if angle > last {
        table_duty(entries(p.inc), angle)
    } else {
        table_duty(entries(p.dec), angle)
    }
}

impl Pwm {
    /// The shoulder's default: −45° at 1167 µs to 120° at 250 µs, both ways.
    pub fn shoulder() -> (r: Pwm)
        ensures
            entries(r.inc) == seq![(-45i16, 1167u16), (120i16, 250u16)],
            entries(r.dec) == seq![(-45i16, 1167u16), (120i16, 250u16)],
    {
        let e = [(-45i16, 1167u16), (120i16, 250u16)];
        proof {
            assert(e@ =~= seq![(-45i16, 1167u16), (120i16, 250u16)]);
        }
        Pwm { inc: table_from(&e), dec: table_from(&e) }
    }

    /// The elbow's default: −60° at 2167 µs to 75° at 833 µs, both ways.
    pub fn elbow() -> (r: Pwm)
        ensures
            entries(r.inc) == seq![(-60i16, 2167u16), (75i16, 833u16)],
            entries(r.dec) == seq![(-60i16, 2167u16), (75i16, 833u16)],
    {
        let e = [(-60i16, 2167u16), (75i16, 833u16)];
        proof {
            assert(e@ =~= seq![(-60i16, 2167u16), (75i16, 833u16)]);
        }
        Pwm { inc: table_from(&e), dec: table_from(&e) }
    }

    /// The pulse width for moving the joint from `last_angle` to `angle`.
    pub fn duty(&self, last_angle: Angle, angle: Angle) -> (r: u16)
        ensures
            r == pwm_duty(*self, last_angle.deg(), angle.deg()),
    {
        let deg = angle.degrees().to_bits();
        if deg > last_angle.degrees().to_bits() {
            lookup(&self.inc, deg)
        } else {
            lookup(&self.dec, deg)
        }
    }
}

/// The pen servo's two pulse widths.
#[derive(Clone, Copy, Debug, PartialEq, Eq, Structural)]
pub struct TogglePwm {
    /// Pen down.
    pub on: u16,
    /// Pen up.
    pub off: u16,
}

impl TogglePwm {
    /// The default pen servo: 750 µs up, 1250 µs down.
    pub fn pen() -> (r: TogglePwm)
        ensures
            r.off == 750,
            r.on == 1250,
    {
        TogglePwm { off: 750, on: 1250 }
    }

    pub fn duty(&self, state: PenState) -> (r: u16)
        ensures
            r == (match state {
                PenState::Up => self.off,
                PenState::Down => self.on,
            }),
    {
        match state {
            PenState::Up => self.off,
            PenState::Down => self.on,
        }
    }
}

/// The calibration of all three servos.
#[derive(Debug)]
pub struct Calibration {
    pub shoulder: Pwm,
    pub elbow: Pwm,
    pub pen: TogglePwm,
}

impl Calibration {
    pub fn default() -> (r: Calibration)
        ensures
            entries(r.shoulder.inc) == seq![(-45i16, 1167u16), (120i16, 250u16)],
            entries(r.shoulder.dec) == seq![(-45i16, 1167u16), (120i16, 250u16)],
            entries(r.elbow.inc) == seq![(-60i16, 2167u16), (75i16, 833u16)],
            entries(r.elbow.dec) == seq![(-60i16, 2167u16), (75i16, 833u16)],
            r.pen.off == 750,
            r.pen.on == 1250,
    {
        Calibration { shoulder: Pwm::shoulder(), elbow: Pwm::elbow(), pen: TogglePwm::pen() }
    }
}

/// The calibration, with the angles last commanded, which choose the tables.
#[derive(Debug)]
pub struct CalibratedPosition {
    pub calib: Calibration,
    pub last_angles: Angles,
}

impl CalibratedPosition {
    /// The default calibration, with both joints last at 0°.
    pub fn default() -> (r: CalibratedPosition)
        ensures
            r.last_angles.shoulder.deg() == 0,
            r.last_angles.elbow.deg() == 0,
            entries(r.calib.shoulder.inc) == seq![(-45i16, 1167u16), (120i16, 250u16)],
            entries(r.calib.shoulder.dec) == seq![(-45i16, 1167u16), (120i16, 250u16)],
            entries(r.calib.elbow.inc) == seq![(-60i16, 2167u16), (75i16, 833u16)],
            entries(r.calib.elbow.dec) == seq![(-60i16, 2167u16), (75i16, 833u16)],
            r.calib.pen.off == 750,
            r.calib.pen.on == 1250,
    {
        let zero = Angle::from_degrees(crate::fixed_point::Fixed::zero());
        CalibratedPosition {
            calib: Calibration::default(),
            last_angles: Angles { shoulder: zero, elbow: zero },
        }
    }

    /// The pulse widths for the given angles and pen state; the angles become
    /// the last commanded ones.
    pub fn update(&mut self, angles: Angles, pen: PenState) -> (r: ServoPosition)
        ensures
            r.shoulder == pwm_duty(
                old(self).calib.shoulder,
                old(self).last_angles.shoulder.deg(),
                angles.shoulder.deg(),
            ),
            r.elbow == pwm_duty(
                old(self).calib.elbow,
                old(self).last_angles.elbow.deg(),
                angles.elbow.deg(),
            ),
            r.pen == (match pen {
                PenState::Up => old(self).calib.pen.off,
                PenState::Down => old(self).calib.pen.on,
            }),
            final(self).last_angles == angles,
            final(self).calib == old(self).calib,
    {
        let shoulder = self.calib.shoulder.duty(self.last_angles.shoulder, angles.shoulder);
        let elbow = self.calib.elbow.duty(self.last_angles.elbow, angles.elbow);
        let pen = self.calib.pen.duty(pen);
        self.last_angles = angles;
        ServoPosition { shoulder, elbow, pen }
    }

    /// Replaces one of the four tables.
    pub fn change_calibration(&mut self, joint: Joint, dir: Direction, table: CalibrationTable)
        ensures
            final(self).last_angles == old(self).last_angles,
            final(self).calib.pen == old(self).calib.pen,
            entries(final(self).calib.shoulder.inc) == if joint == Joint::Shoulder && dir
                == Direction::Increasing {
                entries(table)
            } else {
                entries(old(self).calib.shoulder.inc)
            },
            entries(final(self).calib.shoulder.dec) == if joint == Joint::Shoulder && dir
                == Direction::Decreasing {
                entries(table)
            } else {
                entries(old(self).calib.shoulder.dec)
            },
            entries(final(self).calib.elbow.inc) == if joint == Joint::Elbow && dir
                == Direction::Increasing {
                entries(table)
            } else {
                entries(old(self).calib.elbow.inc)
            },
            entries(final(self).calib.elbow.dec) == if joint == Joint::Elbow && dir
                == Direction::Decreasing {
                entries(table)
            } else {
                entries(old(self).calib.elbow.dec)
            },
    {
        match (joint, dir) {
            (Joint::Shoulder, Direction::Increasing) => self.calib.shoulder.inc = table,
            (Joint::Shoulder, Direction::Decreasing) => self.calib.shoulder.dec = table,
            (Joint::Elbow, Direction::Increasing) => self.calib.elbow.inc = table,
            (Joint::Elbow, Direction::Decreasing) => self.calib.elbow.dec = table,
        }
    }
}

} // verus!
