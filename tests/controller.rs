use brachiograph::{
    Controller, Direction, Fixed, Instant, Joint, Op, PenState, Point, Resp, ServoCalibration,
    ServoPosition, ServoPositionDelta, State,
};
use brachiograph::pwm::table_from;

fn fx(v: i16) -> Fixed {
    Fixed::from_int(v)
}

fn at(ms: u64) -> Instant {
    Instant::from_ticks(ms * 1000)
}

fn move_to(x: i16, y: i16) -> Op {
    Op::MoveTo(Point { x: fx(x), y: fx(y) })
}

#[test]
fn queue_fills_at_capacity() {
    let mut c = Controller::new(fx(-8), fx(8));
    for _ in 0..32 {
        assert_eq!(c.dispatch(move_to(0, 8)), Resp::Ack);
    }
    assert_eq!(c.queue_len(), 32);
    assert_eq!(c.dispatch(move_to(0, 8)), Resp::QueueFull);
    assert_eq!(c.dispatch(Op::PenUp), Resp::QueueFull);
    assert_eq!(c.queue_len(), 32);
}

#[test]
fn moves_outside_the_workspace_are_refused() {
    let mut c = Controller::new(fx(-8), fx(8));
    assert_eq!(c.dispatch(move_to(0, 20)), Resp::Nack);
    assert_eq!(c.queue_len(), 0);
}

#[test]
fn ops_wait_until_the_arm_rests() {
    let mut c = Controller::new(fx(-8), fx(8));
    assert_eq!(c.dispatch(move_to(-4, 8)), Resp::Ack);
    assert_eq!(c.dispatch(Op::PenDown), Resp::Ack);
    c.tick(at(0));
    assert!(matches!(c.arm_state(), State::Moving(..)));
    assert_eq!(c.queue_len(), 1);
    c.tick(at(500));
    assert!(matches!(c.arm_state(), State::Moving(..)));
    assert_eq!(c.queue_len(), 1);
    c.tick(at(1000));
    assert!(matches!(c.arm_state(), State::Lifting(_, PenState::Down, _)));
    assert_eq!(c.queue_len(), 0);
    c.tick(at(1800));
    assert_eq!(c.arm_state(), State::Resting(Point { x: fx(-4), y: fx(8) }, PenState::Down));
}

#[test]
fn cancel_empties_the_queue_but_lets_the_move_finish() {
    let mut c = Controller::new(fx(-8), fx(8));
    c.dispatch(move_to(-4, 8));
    c.dispatch(move_to(4, 8));
    c.tick(at(0));
    assert_eq!(c.dispatch(Op::Cancel), Resp::Ack);
    assert_eq!(c.queue_len(), 0);
    c.tick(at(1000));
    assert_eq!(c.arm_state(), State::Resting(Point { x: fx(-4), y: fx(8) }, PenState::Up));
    c.tick(at(1100));
    assert_eq!(c.arm_state(), State::Resting(Point { x: fx(-4), y: fx(8) }, PenState::Up));
}

#[test]
fn fast_ops_are_answered_at_once() {
    let mut c = Controller::new(fx(-8), fx(8));
    let pos = c.tick(at(0));
    assert_eq!(c.dispatch(Op::GetPosition), Resp::CurPosition(pos));
    let table = ServoCalibration { data: table_from(&[(-90, 1000), (90, 2000)]) };
    assert_eq!(c.dispatch(Op::Calibrate(Joint::Elbow, Direction::Increasing, table)), Resp::Ack);
    assert_eq!(c.queue_len(), 0);
}

#[test]
fn raw_position_changes_wait_in_the_queue() {
    let mut c = Controller::new(fx(-8), fx(8));
    let pos = c.tick(at(0));
    let delta = ServoPositionDelta { shoulder: 10, elbow: -10 };
    assert_eq!(c.dispatch(Op::ChangePosition(delta)), Resp::Ack);
    assert_eq!(c.queue_len(), 1);
    assert_eq!(c.servos(), pos);
    let moved = c.tick(at(20));
    assert_eq!(moved, ServoPosition { shoulder: pos.shoulder + 10, elbow: pos.elbow - 10, pen: pos.pen });
    assert_eq!(c.queue_len(), 0);
    // Under raw control moves are refused; raw changes still queue, one per tick.
    assert_eq!(c.dispatch(move_to(0, 8)), Resp::Nack);
    assert_eq!(c.dispatch(Op::PenDown), Resp::Nack);
    assert_eq!(c.tick(at(40)), moved);
    assert_eq!(c.dispatch(Op::ChangePosition(delta)), Resp::Ack);
    assert_eq!(c.dispatch(Op::ChangePosition(delta)), Resp::Ack);
    let once = c.tick(at(60));
    assert_eq!(once.shoulder, moved.shoulder + 10);
    assert_eq!(c.queue_len(), 1);
    assert_eq!(c.tick(at(80)).shoulder, moved.shoulder + 20);
}

#[test]
fn raw_changes_wait_for_a_move_to_finish() {
    let mut c = Controller::new(fx(-8), fx(8));
    c.dispatch(move_to(-4, 8));
    c.dispatch(Op::ChangePosition(ServoPositionDelta { shoulder: 1, elbow: 1 }));
    c.tick(at(0));
    c.tick(at(500));
    assert_eq!(c.queue_len(), 1);
    assert!(matches!(c.arm_state(), State::Moving(..)));
    c.tick(at(1000));
    assert_eq!(c.queue_len(), 0);
}

#[test]
fn tick_writes_calibrated_duties() {
    let mut c = Controller::new(fx(-8), fx(8));
    let p = c.tick(at(0));
    assert_eq!(p.pen, 750);
    // At (-8, 8) both joints are near 0 degrees.
    assert!((p.shoulder as i32 - 917).abs() <= 2, "{}", p.shoulder);
    assert!((p.elbow as i32 - 1574).abs() <= 2, "{}", p.elbow);
}

#[test]
fn raw_changes_saturate() {
    let mut c = Controller::new(fx(-8), fx(8));
    c.dispatch(Op::ChangePosition(ServoPositionDelta { shoulder: i16::MIN, elbow: i16::MIN }));
    c.dispatch(Op::ChangePosition(ServoPositionDelta { shoulder: i16::MIN, elbow: i16::MIN }));
    c.tick(at(0));
    c.tick(at(20));
    assert_eq!(c.servos().shoulder, 0);
    assert_eq!(c.servos().elbow, 0);
}
