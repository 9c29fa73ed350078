use brachiograph::calibration::{calibration_instructions, default_elbow_config, default_shoulder_config, duty_delta, Calib};
use brachiograph::transport::{reply_action, FrameWriter, ReplyAction};
use brachiograph::{Angle, Direction, Fixed, FrameReader, Joint, Resp, ServoPosition};

#[test]
fn keys_nudge_the_servos() {
    let d = duty_delta('k').unwrap();
    assert_eq!((d.shoulder, d.elbow), (1, 0));
    let d = duty_delta('J').unwrap();
    assert_eq!((d.shoulder, d.elbow), (-10, 0));
    let d = duty_delta('F').unwrap();
    assert_eq!((d.shoulder, d.elbow), (0, 10));
    let d = duty_delta('d').unwrap();
    assert_eq!((d.shoulder, d.elbow), (0, -1));
    assert!(duty_delta('x').is_none());
    assert!(duty_delta('Q').is_none());
}

#[test]
fn instructions_cover_both_joints_both_ways() {
    let steps = calibration_instructions();
    assert_eq!(steps.len(), 42);
    assert_eq!((steps[0].joint, steps[0].direction, steps[0].target_angle), (Joint::Shoulder, Direction::Increasing, -45));
    assert_eq!((steps[11].joint, steps[11].direction, steps[11].target_angle), (Joint::Shoulder, Direction::Decreasing, 120));
    assert_eq!((steps[22].joint, steps[22].direction, steps[22].target_angle), (Joint::Elbow, Direction::Increasing, -60));
    assert_eq!((steps[41].joint, steps[41].direction, steps[41].target_angle), (Joint::Elbow, Direction::Decreasing, -60));
    assert_eq!(steps[41].mark, 0);
}

#[test]
fn calib_push_sort_and_file_round_trip() {
    let mut c = Calib::new();
    c.push(Joint::Shoulder, Direction::Increasing, 30, 1600);
    c.push(Joint::Shoulder, Direction::Increasing, -45, 2500);
    c.push(Joint::Elbow, Direction::Decreasing, 0, 1500);
    c.sort();
    assert_eq!(c.shoulder_inc, vec![(-45, 2500), (30, 1600)]);
    assert!(c.shoulder_dec.is_empty());
    assert_eq!(c.elbow_dec, vec![(0, 1500)]);
    let bytes = c.encode().unwrap();
    assert_eq!(bytes, vec![2, 0xd3, 0xff, 0xc4, 0x09, 30, 0, 0x40, 0x06, 0, 0, 1, 0, 0, 0xdc, 0x05]);
    let back = Calib::decode(&bytes).unwrap();
    assert_eq!(back.shoulder_inc, c.shoulder_inc);
    assert_eq!(back.elbow_dec, c.elbow_dec);
    assert!(Calib::decode(&bytes[..bytes.len() - 1]).is_none());
    assert!(Calib::decode(&[17, 0, 0, 0]).is_none());
    for _ in 0..17 {
        c.push(Joint::Elbow, Direction::Increasing, 0, 0);
    }
    assert!(c.encode().is_none());
}

#[test]
fn measured_tables() {
    let sh = default_shoulder_config();
    let deg = |d: i16| Angle::from_degrees(Fixed::from_int(d));
    assert_eq!(sh.duty(deg(0), deg(0)), 1930);
    assert_eq!(sh.duty(deg(-10), deg(0)), 1928);
    let el = default_elbow_config();
    assert_eq!(el.duty(deg(0), deg(75)), 853);
}

#[test]
fn writer_queues_frames_until_full() {
    let mut w = FrameWriter::new();
    let pos = Resp::CurPosition(ServoPosition { shoulder: 1, elbow: 2, pen: 3 });
    let mut sent = 0;
    while w.send(pos).is_ok() {
        sent += 1;
    }
    // Each frame is 7 payload bytes, a code byte per zero run and a terminator.
    assert_eq!(w.send(pos), Err(pos));
    assert!(sent > 0 && w.bytes().len() <= 128);
    let mut r = FrameReader::new();
    r.feed(w.bytes());
    assert_eq!(r.read_resp(), Some(Ok(pos)));
    let first = w.bytes().len() / sent;
    w.consume(first);
    assert_eq!(w.bytes().len(), first * (sent - 1));
    w.clear();
    assert!(w.bytes().is_empty());
}

#[test]
fn replies_decide_retries() {
    assert_eq!(reply_action(Resp::QueueFull, 1), ReplyAction::Retry);
    assert_eq!(reply_action(Resp::QueueFull, 119), ReplyAction::Retry);
    assert_eq!(reply_action(Resp::QueueFull, 120), ReplyAction::GaveUp);
    assert_eq!(reply_action(Resp::Nack, 1), ReplyAction::Refused);
    assert_eq!(reply_action(Resp::Ack, 1), ReplyAction::Done(Resp::Ack));
}
