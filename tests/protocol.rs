use brachiograph::framing::{frame, unstuff};
use brachiograph::protocol::{decode_op, decode_resp, encode_op, encode_resp};
use brachiograph::pwm::table_from;
use brachiograph::transport::{op_frame, resp_frame};
use brachiograph::{
    Angle, Angles, Direction, Fixed, FrameError, FrameReader, Joint, Op, Point, Resp, ServoCalibration,
    ServoPosition, ServoPositionDelta,
};

fn full_table() -> Vec<(i16, u16)> {
    (0..16).map(|i| (i as i16 * 15 - 120, 500 + i as u16 * 128)).collect()
}

fn all_ops() -> Vec<Op> {
    vec![
        Op::MoveTo(Point { x: Fixed::from_bits(-32768), y: Fixed::from_bits(46337) }),
        Op::PenUp,
        Op::PenDown,
        Op::ChangePosition(ServoPositionDelta { shoulder: -10, elbow: 256 }),
        Op::Cancel,
        Op::Calibrate(Joint::Elbow, Direction::Decreasing, ServoCalibration { data: table_from(&full_table()) }),
        Op::Calibrate(Joint::Shoulder, Direction::Increasing, ServoCalibration { data: table_from(&[]) }),
        Op::GetPosition,
    ]
}

fn same(a: &Op, b: &Op) -> bool {
    match (a, b) {
        (Op::MoveTo(p), Op::MoveTo(q)) => p == q,
        (Op::PenUp, Op::PenUp) | (Op::PenDown, Op::PenDown) | (Op::Cancel, Op::Cancel) => true,
        (Op::GetPosition, Op::GetPosition) => true,
        (Op::ChangePosition(d), Op::ChangePosition(e)) => d == e,
        (Op::Calibrate(j, d, c), Op::Calibrate(k, e, f)) => {
            j == k && d == e && c.data.as_slice() == f.data.as_slice()
        }
        _ => false,
    }
}

#[test]
fn op_payloads_round_trip() {
    for op in all_ops() {
        let bytes = encode_op(&op);
        let back = decode_op(&bytes).unwrap();
        assert!(same(&op, &back), "{:?} vs {:?}", op, back);
    }
}

#[test]
fn op_payload_layout() {
    let op = Op::MoveTo(Point { x: Fixed::from_int(1), y: Fixed::from_int(-1) });
    assert_eq!(encode_op(&op), vec![0, 0, 0x10, 0, 0, 0, 0xf0, 0xff, 0xff]);
    let op = Op::ChangePosition(ServoPositionDelta { shoulder: -1, elbow: 2 });
    assert_eq!(encode_op(&op), vec![3, 0xff, 0xff, 2, 0]);
    let op = Op::Calibrate(Joint::Elbow, Direction::Increasing, ServoCalibration { data: table_from(&[(-45, 2333)]) });
    assert_eq!(encode_op(&op), vec![5, 1, 0, 1, 0xd3, 0xff, 0x1d, 0x09]);
    assert_eq!(encode_op(&Op::GetPosition), vec![6]);
}

#[test]
fn malformed_payloads_are_rejected() {
    assert!(decode_op(&[]).is_none());
    assert!(decode_op(&[7]).is_none());
    assert!(decode_op(&[1, 0]).is_none());
    assert!(decode_op(&[0, 1, 2]).is_none());
    assert!(decode_op(&[5, 2, 0, 0]).is_none());
    assert!(decode_op(&[5, 0, 0, 17]).is_none());
    assert!(decode_op(&[5, 0, 0, 1, 0, 0]).is_none());
    assert!(decode_resp(&[5]).is_none());
    assert!(decode_resp(&[3, 0]).is_none());
}

#[test]
fn resp_payloads_round_trip() {
    let resps = [
        Resp::Ack,
        Resp::Nack,
        Resp::QueueFull,
        Resp::Angles(Angles {
            shoulder: Angle::from_degrees(Fixed::from_int(-45)),
            elbow: Angle::from_degrees(Fixed::from_bits(123456)),
        }),
        Resp::CurPosition(ServoPosition { shoulder: 1500, elbow: 65535, pen: 0 }),
    ];
    for r in resps {
        assert_eq!(decode_resp(&encode_resp(&r)), Some(r));
    }
    assert_eq!(encode_resp(&Resp::CurPosition(ServoPosition { shoulder: 1, elbow: 256, pen: 2 })), vec![4, 1, 0, 0, 1, 2, 0]);
}

#[test]
fn stuffing_removes_zeros() {
    assert_eq!(frame(&[]), vec![1, 0]);
    assert_eq!(frame(&[0]), vec![1, 1, 0]);
    assert_eq!(frame(&[0x11, 0x22, 0x00, 0x33]), vec![3, 0x11, 0x22, 2, 0x33, 0]);
    assert_eq!(frame(&[0x11, 0x00, 0x00]), vec![2, 0x11, 1, 1, 0]);
    for payload in [vec![], vec![0], vec![0, 0, 5], vec![9; 253]] {
        let f = frame(&payload);
        assert_eq!(*f.last().unwrap(), 0);
        assert!(f[..f.len() - 1].iter().all(|&b| b != 0));
        assert_eq!(unstuff(&f[..f.len() - 1]), Some(payload.clone()));
    }
    assert_eq!(unstuff(&[]), None);
    assert_eq!(unstuff(&[0]), None);
    assert_eq!(unstuff(&[5, 1]), None);
}

#[test]
fn frames_round_trip_through_the_reader() {
    let mut reader = FrameReader::new();
    for op in all_ops() {
        let f = op_frame(&op);
        assert!(f.len() <= 70);
        assert_eq!(reader.feed(&f), f.len());
        let back = reader.read_op().unwrap().unwrap();
        assert!(same(&op, &back));
        assert!(reader.read_op().is_none());
    }
    let f = resp_frame(&Resp::QueueFull);
    reader.feed(&f);
    assert_eq!(reader.read_resp(), Some(Ok(Resp::QueueFull)));
}

#[test]
fn reader_handles_partial_and_back_to_back_frames() {
    let mut reader = FrameReader::new();
    let mut bytes = op_frame(&Op::PenUp);
    bytes.extend(op_frame(&Op::PenDown));
    let (a, b) = bytes.split_at(3);
    reader.feed(a);
    assert!(matches!(reader.read_op(), Some(Ok(Op::PenUp))));
    assert!(reader.read_op().is_none());
    reader.feed(b);
    assert!(matches!(reader.read_op(), Some(Ok(Op::PenDown))));
    assert!(reader.read_op().is_none());
}

#[test]
fn reader_reports_corrupt_and_overlong_frames() {
    let mut reader = FrameReader::new();
    reader.feed(&[5, 1, 0]);
    assert!(matches!(reader.read_op(), Some(Err(FrameError::Corrupt))));
    reader.feed(&[2, 9, 0]);
    assert!(matches!(reader.read_op(), Some(Err(FrameError::Corrupt))));
    let junk = vec![7u8; 200];
    assert_eq!(reader.feed(&junk), 128);
    assert_eq!(reader.remaining(), 0);
    assert!(matches!(reader.read_op(), Some(Err(FrameError::Overflow))));
    assert_eq!(reader.remaining(), 128);
}
