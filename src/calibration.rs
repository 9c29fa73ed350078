//! Capturing servo calibrations: the keys that nudge the servos, the
//! sequence of angles to calibrate, the four tables being filled, their
//! measured defaults and the calibration file.
use crate::protocol::table_bytes;
use crate::pwm::{entries, table_from, Pwm};
use crate::types::{Direction, Joint, ServoPositionDelta};
use crate::wire::{push_i16, push_u16, read_i16, read_u16};
use vstd::prelude::*;

verus! {

/// The change of pulse widths that a key asks for: `k`/`j` move the
/// shoulder up/down, `f`/`d` the elbow, by one microsecond, or by ten with
/// the upper-case letter. Other keys ask for nothing.
pub open spec fn key_delta(c: char) -> Option<(int, int)> {
    let mag: int = if 'A' <= c <= 'Z' { 10 } else { 1 };
    if c == 'k' || c == 'K' {
        Some((mag, 0))
    } else if c == 'j' || c == 'J' {
        Some((-mag, 0))
    } else if c == 'f' || c == 'F' {
        Some((0, mag))
    } else if c == 'd' || c == 'D' {
        Some((0, -mag))
    } else {
        None
    }
}

pub fn duty_delta(c: char) -> (r: Option<ServoPositionDelta>)
    ensures
        match key_delta(c) {
            None => r.is_none(),
            Some((s, e)) => r matches Some(d) && d.shoulder == s && d.elbow == e,
        },
{
    let mag: i16 = if 'A' <= c && c <= 'Z' { 10 } else { 1 };
    let (shoulder, elbow): (i16, i16) = if c == 'k' || c == 'K' {
        (1, 0)
    } else if c == 'j' || c == 'J' {
        (-1, 0)
    } else if c == 'f' || c == 'F' {
        (0, 1)
    } else if c == 'd' || c == 'D' {
        (0, -1)
    } else {
        return None;
    };
    Some(ServoPositionDelta { shoulder: shoulder * mag, elbow: elbow * mag })
}

/// One step of a calibration: bring a joint, moving in a direction, to the
/// angle marked with a name.
#[derive(Clone, Copy, Debug, PartialEq, Eq, Structural)]
pub struct Instruction {
    pub joint: Joint,
    pub direction: Direction,
    pub target_angle: i16,
    /// Index of the angle's mark in the joint's list of marks.
    pub mark: usize,
}

/// The shoulder angles that are calibrated, ascending.
pub open spec fn shoulder_angles() -> Seq<i16> {
    seq![-45i16, -30i16, 0i16, 15i16, 30i16, 45i16, 60i16, 75i16, 90i16, 105i16, 120i16]
}

/// The elbow angles that are calibrated, ascending.
pub open spec fn elbow_angles() -> Seq<i16> {
    seq![-60i16, -45i16, -30i16, -15i16, 0i16, 15i16, 30i16, 45i16, 60i16, 75i16]
}

/// The steps for one joint and direction: the angles ascending when
/// increasing, descending when decreasing.
pub open spec fn steps_of(angles: Seq<i16>, joint: Joint, direction: Direction) -> Seq<Instruction> {
    Seq::new(
        angles.len(),
        |i: int|
            {
                let k = if direction == Direction::Increasing { i } else { angles.len() - 1 - i };
                Instruction { joint, direction, target_angle: angles[k], mark: k as usize }
            },
    )
}

/// Shoulder up, shoulder down, elbow up, elbow down.
pub open spec fn all_steps() -> Seq<Instruction> {
    steps_of(shoulder_angles(), Joint::Shoulder, Direction::Increasing) + steps_of(
        shoulder_angles(),
        Joint::Shoulder,
        Direction::Decreasing,
    ) + steps_of(elbow_angles(), Joint::Elbow, Direction::Increasing) + steps_of(
        elbow_angles(),
        Joint::Elbow,
        Direction::Decreasing,
    )
}

fn push_steps(out: &mut Vec<Instruction>, angles: &[i16], joint: Joint, direction: Direction)
    ensures
        final(out)@ == old(out)@ + steps_of(angles@, joint, direction),
{
    let n = angles.len();
    let mut i: usize = 0;
    while i < n
        invariant
            n == angles@.len(),
            i <= n,
            out@ == old(out)@ + steps_of(angles@, joint, direction).subrange(0, i as int),
        decreases n - i,
    {
        let k = if direction == Direction::Increasing { i } else { n - 1 - i };
        out.push(Instruction { joint, direction, target_angle: angles[k], mark: k });
        i += 1;
        proof {
            assert(out@ =~= old(out)@ + steps_of(angles@, joint, direction).subrange(0, i as int));
        }
    }
    proof {
        assert(steps_of(angles@, joint, direction).subrange(0, n as int) =~= steps_of(
            angles@,
            joint,
            direction,
        ));
    }
}

/// Every step of a full calibration, in order.
pub fn calibration_instructions() -> (r: Vec<Instruction>)
    ensures
        r@ == all_steps(),
{
    let shoulder = [-45i16, -30, 0, 15, 30, 45, 60, 75, 90, 105, 120];
    let elbow = [-60i16, -45, -30, -15, 0, 15, 30, 45, 60, 75];
    proof {
        assert(shoulder@ =~= shoulder_angles());
        assert(elbow@ =~= elbow_angles());
    }
    let mut out: Vec<Instruction> = Vec::new();
    push_steps(&mut out, &shoulder, Joint::Shoulder, Direction::Increasing);
    push_steps(&mut out, &shoulder, Joint::Shoulder, Direction::Decreasing);
    push_steps(&mut out, &elbow, Joint::Elbow, Direction::Increasing);
    push_steps(&mut out, &elbow, Joint::Elbow, Direction::Decreasing);
    proof {
        assert(out@ =~= all_steps());
    }
    out
}

/// Entries in ascending order, by degrees and then by width.
pub open spec fn sorted_entries(t: Seq<(i16, u16)>) -> bool {
    forall|i: int, j: int|
        0 <= i < j < t.len() ==> (#[trigger] t[i]).0 < (#[trigger] t[j]).0 || (t[i].0 == t[j].0
            && t[i].1 <= t[j].1)
}

/// Relies on `slice::sort`: the same entries, in ascending order; tuples
/// compare by their first field, then their second.
#[verifier::external_body]
fn sort_entries(v: &mut Vec<(i16, u16)>)
    ensures
        final(v)@.to_multiset() == old(v)@.to_multiset(),
        sorted_entries(final(v)@),
{
    v.sort()
}

/// The four tables of a calibration being captured.
#[derive(Debug)]
pub struct Calib {
    pub shoulder_inc: Vec<(i16, u16)>,
    pub shoulder_dec: Vec<(i16, u16)>,
    pub elbow_inc: Vec<(i16, u16)>,
    pub elbow_dec: Vec<(i16, u16)>,
}

impl Calib {
    pub fn new() -> (r: Calib)
        ensures
            r.shoulder_inc@.len() == 0,
            r.shoulder_dec@.len() == 0,
            r.elbow_inc@.len() == 0,
            r.elbow_dec@.len() == 0,
    {
        Calib {
            shoulder_inc: Vec::new(),
            shoulder_dec: Vec::new(),
            elbow_inc: Vec::new(),
            elbow_dec: Vec::new(),
        }
    }

    /// Appends a measured width to the table of a joint and direction.
    pub fn push(&mut self, joint: Joint, dir: Direction, angle: i16, duty: u16)
        ensures
            final(self).shoulder_inc@ == if joint == Joint::Shoulder && dir == Direction::Increasing {
                old(self).shoulder_inc@.push((angle, duty))
            } else {
                old(self).shoulder_inc@
            },
            final(self).shoulder_dec@ == if joint == Joint::Shoulder && dir == Direction::Decreasing {
                old(self).shoulder_dec@.push((angle, duty))
            } else {
                old(self).shoulder_dec@
            },
            final(self).elbow_inc@ == if joint == Joint::Elbow && dir == Direction::Increasing {
                old(self).elbow_inc@.push((angle, duty))
            } else {
                old(self).elbow_inc@
            },
            final(self).elbow_dec@ == if joint == Joint::Elbow && dir == Direction::Decreasing {
                old(self).elbow_dec@.push((angle, duty))
            } else {
                old(self).elbow_dec@
            },
    {
        match (joint, dir) {
            (Joint::Shoulder, Direction::Increasing) => self.shoulder_inc.push((angle, duty)),
            (Joint::Shoulder, Direction::Decreasing) => self.shoulder_dec.push((angle, duty)),
            (Joint::Elbow, Direction::Increasing) => self.elbow_inc.push((angle, duty)),
            (Joint::Elbow, Direction::Decreasing) => self.elbow_dec.push((angle, duty)),
        }
    }

    /// Sorts each table by degrees.
    pub fn sort(&mut self)
        ensures
            final(self).shoulder_inc@.to_multiset() == old(self).shoulder_inc@.to_multiset(),
            final(self).shoulder_dec@.to_multiset() == old(self).shoulder_dec@.to_multiset(),
            final(self).elbow_inc@.to_multiset() == old(self).elbow_inc@.to_multiset(),
            final(self).elbow_dec@.to_multiset() == old(self).elbow_dec@.to_multiset(),
            sorted_entries(final(self).shoulder_inc@),
            sorted_entries(final(self).shoulder_dec@),
            sorted_entries(final(self).elbow_inc@),
            sorted_entries(final(self).elbow_dec@),
    {
        sort_entries(&mut self.shoulder_inc);
        sort_entries(&mut self.shoulder_dec);
        sort_entries(&mut self.elbow_inc);
        sort_entries(&mut self.elbow_dec);
    }
}

/// A table in a calibration file: its entry count, then its entries.
pub open spec fn counted_table(t: Seq<(i16, u16)>) -> Seq<u8> {
    seq![t.len() as u8] + table_bytes(t)
}

/// A calibration file: the shoulder's increasing and decreasing tables,
/// then the elbow's.
pub open spec fn file_bytes(c: Calib) -> Seq<u8> {
    counted_table(c.shoulder_inc@) + counted_table(c.shoulder_dec@) + counted_table(c.elbow_inc@)
        + counted_table(c.elbow_dec@)
}

/// Whether `k` counted tables of at most sixteen entries fill `b` from `i`.
pub open spec fn tables_fill(b: Seq<u8>, i: int, k: nat) -> bool
    decreases k,
{
    if k == 0 {
        i == b.len()
    } else {
        0 <= i < b.len() && b[i] <= 16 && tables_fill(b, i + 1 + 4 * b[i], (k - 1) as nat)
    }
}

fn push_counted(out: &mut Vec<u8>, t: &Vec<(i16, u16)>)
    requires
        t@.len() <= 16,
    ensures
        final(out)@ == old(out)@ + counted_table(t@),
{
    out.push(t.len() as u8);
    let n = t.len();
    let mut i: usize = 0;
    while i < n
        invariant
            n == t@.len() <= 16,
            i <= n,
            out@ == old(out)@ + seq![n as u8] + table_bytes(t@.subrange(0, i as int)),
        decreases n - i,
    {
        let e = t[i];
        push_i16(out, e.0);
        push_u16(out, e.1);
        proof {
            assert(t@.subrange(0, i + 1).drop_last() =~= t@.subrange(0, i as int));
            assert(out@ =~= old(out)@ + seq![n as u8] + table_bytes(t@.subrange(0, i + 1)));
        }
        i += 1;
    }
    proof {
        assert(t@.subrange(0, n as int) =~= t@);
        assert(out@ =~= old(out)@ + counted_table(t@));
    }
}

/// Reads a counted table that starts at `i`, returning it and the offset
/// after it.
fn read_counted(b: &[u8], i: usize) -> (r: Option<(Vec<(i16, u16)>, usize)>)
    ensures
        match r {
            None => !(0 <= i < b@.len() && b@[i as int] <= 16 && i + 1 + 4 * b@[i as int] <= b@.len()),
            Some((t, j)) => {
                &&& i < b@.len() && b@[i as int] <= 16
                &&& j == i + 1 + 4 * b@[i as int] <= b@.len()
                &&& t@.len() <= 16
                &&& counted_table(t@) == b@.subrange(i as int, j as int)
            },
        },
{
    let n = b.len();
    if i >= n || b[i] > 16 || n - (i + 1) < 4 * (b[i] as usize) {
        return None;
    }
    let count = b[i] as usize;
    let mut t: Vec<(i16, u16)> = Vec::new();
    let mut k: usize = 0;
    while k < count
        invariant
            n == b@.len(),
            count == b@[i as int] <= 16,
            i + 1 + 4 * count <= n,
            k <= count,
            t@.len() == k,
            table_bytes(t@) == b@.subrange(i + 1, i + 1 + 4 * k),
        decreases count - k,
    {
        let at = i + 1 + 4 * k;
        let deg = read_i16(b, at);
        let duty = read_u16(b, at + 2);
        let ghost before = t@;
        t.push((deg, duty));
        proof {
            assert(t@.drop_last() =~= before);
            assert(b@.subrange(i + 1, at + 4) =~= b@.subrange(i + 1, at as int) + b@.subrange(
                at as int,
                at + 2,
            ) + b@.subrange(at + 2, at + 4));
        }
        k += 1;
    }
    let j = i + 1 + 4 * count;
    proof {
        assert(b@.subrange(i as int, j as int) =~= seq![b@[i as int]] + b@.subrange(i + 1, j as int));
    }
    Some((t, j))
}

impl Calib {
    /// The calibration file, or `None` where a table has more than sixteen
    /// entries.
    pub fn encode(&self) -> (r: Option<Vec<u8>>)
        ensures
            (self.shoulder_inc@.len() <= 16 && self.shoulder_dec@.len() <= 16
                && self.elbow_inc@.len() <= 16 && self.elbow_dec@.len() <= 16) ==> (r matches Some(v)
                && v@ == file_bytes(*self)),
            !(self.shoulder_inc@.len() <= 16 && self.shoulder_dec@.len() <= 16
                && self.elbow_inc@.len() <= 16 && self.elbow_dec@.len() <= 16) ==> r.is_none(),
    {
        if self.shoulder_inc.len() > 16 || self.shoulder_dec.len() > 16 || self.elbow_inc.len() > 16
            || self.elbow_dec.len() > 16 {
            return None;
        }
        let mut out: Vec<u8> = Vec::new();
        push_counted(&mut out, &self.shoulder_inc);
        push_counted(&mut out, &self.shoulder_dec);
        push_counted(&mut out, &self.elbow_inc);
        push_counted(&mut out, &self.elbow_dec);
        proof {
            assert(out@ =~= file_bytes(*self));
        }
        Some(out)
    }

    /// Reads a calibration file: four counted tables and nothing after.
    pub fn decode(b: &[u8]) -> (r: Option<Calib>)
        ensures
            r.is_some() == tables_fill(b@, 0, 4),
            r matches Some(c) ==> file_bytes(c) == b@,
    {
        proof {
            reveal_with_fuel(tables_fill, 5);
        }
        let (shoulder_inc, i1) = match read_counted(b, 0) {
            Some(x) => x,
            None => {
                return None;
            },
        };
        let (shoulder_dec, i2) = match read_counted(b, i1) {
            Some(x) => x,
            None => {
                return None;
            },
        };
        let (elbow_inc, i3) = match read_counted(b, i2) {
            Some(x) => x,
            None => {
                return None;
            },
        };
        let (elbow_dec, i4) = match read_counted(b, i3) {
            Some(x) => x,
            None => {
                return None;
            },
        };
        if i4 != b.len() {
            return None;
        }
        let c = Calib { shoulder_inc, shoulder_dec, elbow_inc, elbow_dec };
        proof {
            assert(b@ =~= b@.subrange(0, i1 as int) + b@.subrange(i1 as int, i2 as int)
                + b@.subrange(i2 as int, i3 as int) + b@.subrange(i3 as int, i4 as int));
        }
        Some(c)
    }
}

/// The measured shoulder tables of the arm as built.
pub fn default_shoulder_config() -> (r: Pwm)
    ensures
        entries(r.inc) == seq![
            (-45i16, 2509u16), (-30i16, 2321u16), (-15i16, 2115u16), (0i16, 1928u16),
            (15i16, 1762u16), (30i16, 1592u16), (45i16, 1441u16), (60i16, 1299u16),
            (75i16, 1153u16), (90i16, 1017u16), (105i16, 878u16), (120i16, 735u16),
        ],
        entries(r.dec) == seq![
            (-45i16, 2509u16), (-30i16, 2287u16), (-15i16, 2118u16), (0i16, 1930u16),
            (15i16, 1767u16), (30i16, 1605u16), (45i16, 1458u16), (60i16, 1313u16),
            (75i16, 1166u16), (90i16, 1033u16), (105i16, 888u16), (120i16, 736u16),
        ],
{
    let inc = [
        (-45i16, 2509u16), (-30, 2321), (-15, 2115), (0, 1928), (15, 1762), (30, 1592),
        (45, 1441), (60, 1299), (75, 1153), (90, 1017), (105, 878), (120, 735),
    ];
    let dec = [
        (-45i16, 2509u16), (-30, 2287), (-15, 2118), (0, 1930), (15, 1767), (30, 1605),
        (45, 1458), (60, 1313), (75, 1166), (90, 1033), (105, 888), (120, 736),
    ];
    let r = Pwm { inc: table_from(&inc), dec: table_from(&dec) };
    proof {
        assert(entries(r.inc) =~= seq![
            (-45i16, 2509u16), (-30i16, 2321u16), (-15i16, 2115u16), (0i16, 1928u16),
            (15i16, 1762u16), (30i16, 1592u16), (45i16, 1441u16), (60i16, 1299u16),
            (75i16, 1153u16), (90i16, 1017u16), (105i16, 878u16), (120i16, 735u16),
        ]);
        assert(entries(r.dec) =~= seq![
            (-45i16, 2509u16), (-30i16, 2287u16), (-15i16, 2118u16), (0i16, 1930u16),
            (15i16, 1767u16), (30i16, 1605u16), (45i16, 1458u16), (60i16, 1313u16),
            (75i16, 1166u16), (90i16, 1033u16), (105i16, 888u16), (120i16, 736u16),
        ]);
    }
    r
}

/// The measured elbow tables of the arm as built.
pub fn default_elbow_config() -> (r: Pwm)
    ensures
        entries(r.inc) == seq![
            (-60i16, 2182u16), (-45i16, 2008u16), (-30i16, 1844u16), (-15i16, 1699u16),
            (0i16, 1545u16), (15i16, 1397u16), (30i16, 1259u16), (45i16, 1116u16),
            (60i16, 988u16), (75i16, 853u16),
        ],
        entries(r.dec) == seq![
            (-60i16, 2182u16), (-45i16, 1985u16), (-30i16, 1817u16), (-15i16, 1654u16),
            (0i16, 1496u16), (15i16, 1352u16), (30i16, 1208u16), (45i16, 1060u16),
            (60i16, 908u16), (75i16, 739u16),
        ],
{
    let inc = [
        (-60i16, 2182u16), (-45, 2008), (-30, 1844), (-15, 1699), (0, 1545), (15, 1397),
        (30, 1259), (45, 1116), (60, 988), (75, 853),
    ];
    let dec = [
        (-60i16, 2182u16), (-45, 1985), (-30, 1817), (-15, 1654), (0, 1496), (15, 1352),
        (30, 1208), (45, 1060), (60, 908), (75, 739),
    ];
    let r = Pwm { inc: table_from(&inc), dec: table_from(&dec) };
    proof {
        assert(entries(r.inc) =~= seq![
            (-60i16, 2182u16), (-45i16, 2008u16), (-30i16, 1844u16), (-15i16, 1699u16),
            (0i16, 1545u16), (15i16, 1397u16), (30i16, 1259u16), (45i16, 1116u16),
            (60i16, 988u16), (75i16, 853u16),
        ]);
        assert(entries(r.dec) =~= seq![
            (-60i16, 2182u16), (-45i16, 1985u16), (-30i16, 1817u16), (-15i16, 1654u16),
            (0i16, 1496u16), (15i16, 1352u16), (30i16, 1208u16), (45i16, 1060u16),
            (60i16, 908u16), (75i16, 739u16),
        ]);
    }
    r
}

} // verus!
