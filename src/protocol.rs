//! Operations sent to the arm, its responses, and their wire format.
use crate::fixed_point::Fixed;
use crate::pwm::{entries, table_len, table_get, table_new, table_push, CalibrationTable, MAX_ENTRIES};
use crate::types::{Angle, Angles, Direction, Joint, Point, ServoPosition, ServoPositionDelta};
use crate::wire::{
    bits16, bits32, le16, le32, lemma_bits16_injective, lemma_bits32_injective, lemma_le16_injective,
    lemma_le32_injective, push_i16, push_i32, push_u16, read_i16, read_i32, read_u16,
};
use vstd::prelude::*;

verus! {

/// A calibration table carried by an operation.
#[derive(Debug)]
pub struct ServoCalibration {
    pub data: CalibrationTable,
}

/// An operation for the arm. Moves, pen changes and raw position changes
/// take physical time; the rest are handled at once.
#[derive(Debug)]
pub enum Op {
    ChangePosition(ServoPositionDelta),
    MoveTo(Point),
    PenUp,
    PenDown,
    Cancel,
    Calibrate(Joint, Direction, ServoCalibration),
    GetPosition,
}

/// The arm's answer to an operation.
#[derive(Clone, Copy, Debug, PartialEq, Eq, Structural)]
pub enum Resp {
    Ack,
    Nack,
    QueueFull,
    Angles(Angles),
    CurPosition(ServoPosition),
}

pub open spec fn joint_byte(j: Joint) -> u8 {
    match j {
        Joint::Shoulder => 0,
        Joint::Elbow => 1,
    }
}

pub open spec fn direction_byte(d: Direction) -> u8 {
    match d {
        Direction::Increasing => 0,
        Direction::Decreasing => 1,
    }
}

/// The entries of a table, each as its degrees then its width.
pub open spec fn table_bytes(t: Seq<(i16, u16)>) -> Seq<u8>
    decreases t.len(),
{
    if t.len() == 0 {
        Seq::empty()
    } else {
        table_bytes(t.drop_last()) + le16(bits16(t.last().0)) + le16(t.last().1 as int)
    }
}

/// The bytes of an operation: a tag, then its fields in little-endian
/// order; a calibration table goes as a count byte and its entries.
pub open spec fn op_payload(op: Op) -> Seq<u8> {
    match op {
        Op::MoveTo(p) => seq![0u8] + le32(bits32(p.x.bits)) + le32(bits32(p.y.bits)),
        Op::PenUp => seq![1u8],
        Op::PenDown => seq![2u8],
        Op::ChangePosition(d) => seq![3u8] + le16(bits16(d.shoulder)) + le16(bits16(d.elbow)),
        Op::Cancel => seq![4u8],
        Op::Calibrate(j, d, c) => seq![
            5u8,
            joint_byte(j),
            direction_byte(d),
            entries(c.data).len() as u8,
        ] + table_bytes(entries(c.data)),
        Op::GetPosition => seq![6u8],
    }
}

/// Whether bytes have the shape of an operation's.
pub open spec fn op_payload_valid(b: Seq<u8>) -> bool {
    &&& b.len() >= 1
    &&& b[0] == 0 ==> b.len() == 9
    &&& (b[0] == 1 || b[0] == 2 || b[0] == 4 || b[0] == 6) ==> b.len() == 1
    &&& b[0] == 3 ==> b.len() == 5
    &&& b[0] == 5 ==> b.len() >= 4 && b[1] <= 1 && b[2] <= 1 && b[3] <= 16 && b.len() == 4 + 4
        * b[3]
    &&& b[0] <= 6
}

/// Two operations that carry the same values.
pub open spec fn same_op(a: Op, b: Op) -> bool {
    match (a, b) {
        (Op::MoveTo(p), Op::MoveTo(q)) => p == q,
        (Op::PenUp, Op::PenUp) => true,
        (Op::PenDown, Op::PenDown) => true,
        (Op::ChangePosition(d), Op::ChangePosition(e)) => d == e,
        (Op::Cancel, Op::Cancel) => true,
        (Op::Calibrate(j, d, c), Op::Calibrate(k, e, f)) => j == k && d == e && entries(c.data)
            == entries(f.data),
        (Op::GetPosition, Op::GetPosition) => true,
        _ => false,
    }
}

proof fn lemma_table_bytes_len(t: Seq<(i16, u16)>)
    ensures
        table_bytes(t).len() == 4 * t.len(),
    decreases t.len(),
{
    if t.len() > 0 {
        lemma_table_bytes_len(t.drop_last());
    }
}

proof fn lemma_table_bytes_injective(t: Seq<(i16, u16)>, u: Seq<(i16, u16)>)
    requires
        t.len() == u.len(),
        table_bytes(t) == table_bytes(u),
    ensures
        t == u,
    decreases t.len(),
{
    if t.len() > 0 {
        let n = t.len();
        lemma_table_bytes_len(t.drop_last());
        lemma_table_bytes_len(u.drop_last());
        let a = table_bytes(t);
        let b = table_bytes(u);
        let k = 4 * (n - 1);
        assert(a.subrange(0, k) =~= table_bytes(t.drop_last()));
        assert(b.subrange(0, k) =~= table_bytes(u.drop_last()));
        assert(a.subrange(k, k + 2) =~= le16(bits16(t.last().0)));
        assert(b.subrange(k, k + 2) =~= le16(bits16(u.last().0)));
        assert(a.subrange(k + 2, k + 4) =~= le16(t.last().1 as int));
        assert(b.subrange(k + 2, k + 4) =~= le16(u.last().1 as int));
        lemma_table_bytes_injective(t.drop_last(), u.drop_last());
        lemma_le16_injective(bits16(t.last().0), bits16(u.last().0));
        lemma_bits16_injective(t.last().0, u.last().0);
        lemma_le16_injective(t.last().1 as int, u.last().1 as int);
        assert(t =~= t.drop_last().push(t.last()));
        assert(u =~= u.drop_last().push(u.last()));
    }
}

pub open spec fn op_tag(op: Op) -> u8 {
    match op {
        Op::MoveTo(_) => 0,
        Op::PenUp => 1,
        Op::PenDown => 2,
        Op::ChangePosition(_) => 3,
        Op::Cancel => 4,
        Op::Calibrate(..) => 5,
        Op::GetPosition => 6,
    }
}

proof fn lemma_op_payload_tag(op: Op)
    ensures
        op_payload(op).len() >= 1,
        op_payload(op)[0] == op_tag(op),
{
    match op {
        Op::MoveTo(p) => {
            assert((seq![0u8] + le32(bits32(p.x.bits)) + le32(bits32(p.y.bits)))[0] == 0u8);
        },
        Op::ChangePosition(d) => {
            assert((seq![3u8] + le16(bits16(d.shoulder)) + le16(bits16(d.elbow)))[0] == 3u8);
        },
        Op::Calibrate(j, d, c) => {
            let h = seq![5u8, joint_byte(j), direction_byte(d), entries(c.data).len() as u8];
            assert((h + table_bytes(entries(c.data)))[0] == 5u8);
        },
        _ => {},
    }
}

/// Encoding an operation gives bytes of an operation's shape, and two
/// operations with the same bytes carry the same values: decoding an
/// operation's bytes gives it back.
#[verifier::rlimit(50)]
pub proof fn lemma_op_round_trip(a: Op, b: Op)
    requires
        entries_fit(a),
        op_payload(b) == op_payload(a),
    ensures
        op_payload_valid(op_payload(a)),
        same_op(a, b),
{
    let p = op_payload(a);
    lemma_op_payload_tag(a);
    lemma_op_payload_tag(b);
    match a {
        Op::Calibrate(j, d, c) => {
            lemma_table_bytes_len(entries(c.data));
        },
        _ => {},
    }
    match b {
        Op::Calibrate(j, d, c) => {
            lemma_table_bytes_len(entries(c.data));
        },
        _ => {},
    }
    assert(op_payload(b)[0] == p[0]);
    match (a, b) {
        (Op::MoveTo(x), Op::MoveTo(y)) => {
            assert(p.subrange(1, 5) =~= le32(bits32(x.x.bits)));
            assert(op_payload(b).subrange(1, 5) =~= le32(bits32(y.x.bits)));
            assert(p.subrange(5, 9) =~= le32(bits32(x.y.bits)));
            assert(op_payload(b).subrange(5, 9) =~= le32(bits32(y.y.bits)));
            lemma_le32_injective(bits32(x.x.bits), bits32(y.x.bits));
            lemma_le32_injective(bits32(x.y.bits), bits32(y.y.bits));
            lemma_bits32_injective(x.x.bits, y.x.bits);
            lemma_bits32_injective(x.y.bits, y.y.bits);
        },
        (Op::ChangePosition(x), Op::ChangePosition(y)) => {
            assert(p.subrange(1, 3) =~= le16(bits16(x.shoulder)));
            assert(op_payload(b).subrange(1, 3) =~= le16(bits16(y.shoulder)));
            assert(p.subrange(3, 5) =~= le16(bits16(x.elbow)));
            assert(op_payload(b).subrange(3, 5) =~= le16(bits16(y.elbow)));
            lemma_le16_injective(bits16(x.shoulder), bits16(y.shoulder));
            lemma_le16_injective(bits16(x.elbow), bits16(y.elbow));
            lemma_bits16_injective(x.shoulder, y.shoulder);
            lemma_bits16_injective(x.elbow, y.elbow);
        },
        (Op::Calibrate(j, d, c), Op::Calibrate(k, e, f)) => {
            assert(p[1] == op_payload(b)[1]);
            assert(p[2] == op_payload(b)[2]);
            assert(p[3] == op_payload(b)[3]);
            assert(p.subrange(4, p.len() as int) =~= table_bytes(entries(c.data)));
            assert(op_payload(b).subrange(4, p.len() as int) =~= table_bytes(entries(f.data)));
            lemma_table_bytes_injective(entries(c.data), entries(f.data));
        },
        _ => {},
    }
}

fn push_table(out: &mut Vec<u8>, t: &CalibrationTable)
    ensures
        final(out)@ == old(out)@ + table_bytes(entries(*t)),
{
    let n = table_len(t);
    let mut i: usize = 0;
    while i < n
        invariant
            n == entries(*t).len(),
            i <= n,
            out@ == old(out)@ + table_bytes(entries(*t).subrange(0, i as int)),
        decreases n - i,
    {
        let e = table_get(t, i);
        push_i16(out, e.0);
        push_u16(out, e.1);
        proof {
            let s = entries(*t).subrange(0, i + 1);
            assert(s.drop_last() =~= entries(*t).subrange(0, i as int));
            assert(out@ =~= old(out)@ + table_bytes(s));
        }
        i += 1;
    }
    proof {
        assert(entries(*t).subrange(0, n as int) =~= entries(*t));
    }
}

/// The bytes of an operation.
pub fn encode_op(op: &Op) -> (r: Vec<u8>)
    ensures
        r@ == op_payload(*op),
{
    let mut out: Vec<u8> = Vec::new();
    match op {
        Op::MoveTo(p) => {
            out.push(0);
            push_i32(&mut out, p.x.bits);
            push_i32(&mut out, p.y.bits);
        },
        Op::PenUp => out.push(1),
        Op::PenDown => out.push(2),
        Op::ChangePosition(d) => {
            out.push(3);
            push_i16(&mut out, d.shoulder);
            push_i16(&mut out, d.elbow);
        },
        Op::Cancel => out.push(4),
        Op::Calibrate(j, d, c) => {
            out.push(5);
            out.push(
                match j {
                    Joint::Shoulder => 0,
                    Joint::Elbow => 1,
                },
            );
            out.push(
                match d {
                    Direction::Increasing => 0,
                    Direction::Decreasing => 1,
                },
            );
            out.push(table_len(&c.data) as u8);
            push_table(&mut out, &c.data);
        },
        Op::GetPosition => out.push(6),
    }
    proof {
        assert(out@ =~= op_payload(*op));
    }
    out
}

/// Reads `count` table entries that start at byte 4.
fn read_table(b: &[u8], count: usize) -> (r: CalibrationTable)
    requires
        count <= MAX_ENTRIES,
        b@.len() == 4 + 4 * count,
    ensures
        entries(r).len() == count,
        table_bytes(entries(r)) == b@.subrange(4, b@.len() as int),
{
    let mut t = table_new();
    let mut k: usize = 0;
    while k < count
        invariant
            count <= MAX_ENTRIES,
            b@.len() == 4 + 4 * count,
            k <= count,
            entries(t).len() == k,
            table_bytes(entries(t)) == b@.subrange(4, 4 + 4 * k),
        decreases count - k,
    {
        let deg = read_i16(b, 4 + 4 * k);
        let duty = read_u16(b, 6 + 4 * k);
        let ghost before = entries(t);
        table_push(&mut t, (deg, duty));
        proof {
            assert(entries(t).drop_last() =~= before);
            assert(b@.subrange(4, 4 + 4 * (k + 1)) =~= b@.subrange(4, 4 + 4 * k) + b@.subrange(
                4 + 4 * k,
                6 + 4 * k,
            ) + b@.subrange(6 + 4 * k, 8 + 4 * k));
        }
        k += 1;
    }
    t
}

/// The operation that bytes encode, or `None` where they do not have an
/// operation's shape.
pub fn decode_op(b: &[u8]) -> (r: Option<Op>)
    ensures
        r.is_some() == op_payload_valid(b@),
        r matches Some(op) ==> op_payload(op) == b@ && entries_fit(op),
{
    let n = b.len();
    if n == 0 {
        return None;
    }
    let tag = b[0];
    let r = if tag == 0 && n == 9 {
        let x = read_i32(b, 1);
        let y = read_i32(b, 5);
        Some(Op::MoveTo(Point { x: Fixed::from_bits(x), y: Fixed::from_bits(y) }))
    } else if tag == 1 && n == 1 {
        Some(Op::PenUp)
    } else if tag == 2 && n == 1 {
        Some(Op::PenDown)
    } else if tag == 3 && n == 5 {
        let shoulder = read_i16(b, 1);
        let elbow = read_i16(b, 3);
        Some(Op::ChangePosition(ServoPositionDelta { shoulder, elbow }))
    } else if tag == 4 && n == 1 {
        Some(Op::Cancel)
    } else if tag == 5 && n >= 4 && b[1] <= 1 && b[2] <= 1 && b[3] <= 16 && n == 4 + 4 * (
    b[3] as usize) {
        let joint = if b[1] == 0 {
            Joint::Shoulder
        } else {
            Joint::Elbow
        };
        let dir = if b[2] == 0 {
            Direction::Increasing
        } else {
            Direction::Decreasing
        };
        let data = read_table(b, b[3] as usize);
        Some(Op::Calibrate(joint, dir, ServoCalibration { data }))
    } else if tag == 6 && n == 1 {
        Some(Op::GetPosition)
    } else {
        None
    };
    proof {
        if r is Some {
            assert(op_payload(r.unwrap()) =~= b@);
        }
    }
    r
}

/// The bytes of a response: a tag, then its fields in little-endian order.
pub open spec fn resp_payload(r: Resp) -> Seq<u8> {
    match r {
        Resp::Ack => seq![0u8],
        Resp::Nack => seq![1u8],
        Resp::QueueFull => seq![2u8],
        Resp::Angles(a) => seq![3u8] + le32(bits32(a.shoulder.0.bits)) + le32(
            bits32(a.elbow.0.bits),
        ),
        Resp::CurPosition(p) => seq![4u8] + le16(p.shoulder as int) + le16(p.elbow as int) + le16(
            p.pen as int,
        ),
    }
}

/// Whether bytes have the shape of a response's.
pub open spec fn resp_payload_valid(b: Seq<u8>) -> bool {
    &&& b.len() >= 1
    &&& b[0] <= 2 ==> b.len() == 1
    &&& b[0] == 3 ==> b.len() == 9
    &&& b[0] == 4 ==> b.len() == 7
    &&& b[0] <= 4
}

pub open spec fn resp_tag(r: Resp) -> u8 {
    match r {
        Resp::Ack => 0,
        Resp::Nack => 1,
        Resp::QueueFull => 2,
        Resp::Angles(_) => 3,
        Resp::CurPosition(_) => 4,
    }
}

proof fn lemma_resp_payload_tag(r: Resp)
    ensures
        resp_payload(r).len() >= 1,
        resp_payload(r)[0] == resp_tag(r),
{
    match r {
        Resp::Angles(a) => {
            assert((seq![3u8] + le32(bits32(a.shoulder.0.bits)) + le32(bits32(a.elbow.0.bits)))[0]
                == 3u8);
        },
        Resp::CurPosition(p) => {
            assert((seq![4u8] + le16(p.shoulder as int) + le16(p.elbow as int) + le16(
                p.pen as int,
            ))[0] == 4u8);
        },
        _ => {},
    }
}

/// Encoding a response gives bytes of a response's shape, and no other
/// response has the same bytes: decoding them gives it back.
pub proof fn lemma_resp_round_trip(a: Resp, b: Resp)
    requires
        resp_payload(b) == resp_payload(a),
    ensures
        resp_payload_valid(resp_payload(a)),
        a == b,
{
    let p = resp_payload(a);
    let q = resp_payload(b);
    lemma_resp_payload_tag(a);
    lemma_resp_payload_tag(b);
    assert(q[0] == p[0]);
    match (a, b) {
        (Resp::Angles(x), Resp::Angles(y)) => {
            assert(p.subrange(1, 5) =~= le32(bits32(x.shoulder.0.bits)));
            assert(q.subrange(1, 5) =~= le32(bits32(y.shoulder.0.bits)));
            assert(p.subrange(5, 9) =~= le32(bits32(x.elbow.0.bits)));
            assert(q.subrange(5, 9) =~= le32(bits32(y.elbow.0.bits)));
            lemma_le32_injective(bits32(x.shoulder.0.bits), bits32(y.shoulder.0.bits));
            lemma_le32_injective(bits32(x.elbow.0.bits), bits32(y.elbow.0.bits));
            lemma_bits32_injective(x.shoulder.0.bits, y.shoulder.0.bits);
            lemma_bits32_injective(x.elbow.0.bits, y.elbow.0.bits);
        },
        (Resp::CurPosition(x), Resp::CurPosition(y)) => {
            assert(p.subrange(1, 3) =~= le16(x.shoulder as int));
            assert(q.subrange(1, 3) =~= le16(y.shoulder as int));
            assert(p.subrange(3, 5) =~= le16(x.elbow as int));
            assert(q.subrange(3, 5) =~= le16(y.elbow as int));
            assert(p.subrange(5, 7) =~= le16(x.pen as int));
            assert(q.subrange(5, 7) =~= le16(y.pen as int));
            lemma_le16_injective(x.shoulder as int, y.shoulder as int);
            lemma_le16_injective(x.elbow as int, y.elbow as int);
            lemma_le16_injective(x.pen as int, y.pen as int);
        },
        _ => {},
    }
}

/// The bytes of a response.
pub fn encode_resp(resp: &Resp) -> (r: Vec<u8>)
    ensures
        r@ == resp_payload(*resp),
{
    let mut out: Vec<u8> = Vec::new();
    match resp {
        Resp::Ack => out.push(0),
        Resp::Nack => out.push(1),
        Resp::QueueFull => out.push(2),
        Resp::Angles(a) => {
            out.push(3);
            push_i32(&mut out, a.shoulder.0.bits);
            push_i32(&mut out, a.elbow.0.bits);
        },
        Resp::CurPosition(p) => {
            out.push(4);
            push_u16(&mut out, p.shoulder);
            push_u16(&mut out, p.elbow);
            push_u16(&mut out, p.pen);
        },
    }
    proof {
        assert(out@ =~= resp_payload(*resp));
    }
    out
}

/// The response that bytes encode, or `None` where they do not have a
/// response's shape.
pub fn decode_resp(b: &[u8]) -> (r: Option<Resp>)
    ensures
        r.is_some() == resp_payload_valid(b@),
        r matches Some(resp) ==> resp_payload(resp) == b@,
{
    let n = b.len();
    if n == 0 {
        return None;
    }
    let tag = b[0];
    let r = if tag == 0 && n == 1 {
        Some(Resp::Ack)
    } else if tag == 1 && n == 1 {
        Some(Resp::Nack)
    } else if tag == 2 && n == 1 {
        Some(Resp::QueueFull)
    } else if tag == 3 && n == 9 {
        let shoulder = read_i32(b, 1);
        let elbow = read_i32(b, 5);
        Some(
            Resp::Angles(
                Angles {
                    shoulder: Angle(Fixed::from_bits(shoulder)),
                    elbow: Angle(Fixed::from_bits(elbow)),
                },
            ),
        )
    } else if tag == 4 && n == 7 {
        let shoulder = read_u16(b, 1);
        let elbow = read_u16(b, 3);
        let pen = read_u16(b, 5);
        Some(Resp::CurPosition(ServoPosition { shoulder, elbow, pen }))
    } else {
        None
    };
    proof {
        if r is Some {
            assert(resp_payload(r.unwrap()) =~= b@);
        }
    }
    r
}

/// Longest encoded operation: a calibration with a full table.
pub proof fn lemma_op_payload_len(op: Op)
    requires
        entries_fit(op),
    ensures
        op_payload(op).len() <= 68,
{
    match op {
        Op::Calibrate(_, _, c) => lemma_table_bytes_len(entries(c.data)),
        _ => {},
    }
}

pub proof fn lemma_resp_payload_len(r: Resp)
    ensures
        resp_payload(r).len() <= 9,
{
}

/// A calibration table carried by an operation has at most sixteen entries.
pub open spec fn entries_fit(op: Op) -> bool {
    match op {
        Op::Calibrate(_, _, c) => entries(c.data).len() <= MAX_ENTRIES,
        _ => true,
    }
}

} // verus!
