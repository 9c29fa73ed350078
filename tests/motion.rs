use brachiograph::{Delay, Brachiograph, Duration, Fixed, Instant, MoveError, Movement, PenState, Point, State};

fn fx(v: i16) -> Fixed {
    Fixed::from_int(v)
}

fn at(ms: u64) -> Instant {
    Instant::from_ticks(ms * 1000)
}

#[test]
fn movement_endpoints_and_midpoint() {
    let m = Movement::new(
        Point { x: fx(0), y: fx(6) },
        Point { x: fx(4), y: fx(10) },
        at(1000),
        Duration::millis(2000),
    );
    assert_eq!(m.interpolate(at(1000)), Point { x: fx(0), y: fx(6) });
    assert_eq!(m.interpolate(at(2000)), Point { x: fx(2), y: fx(8) });
    assert_eq!(m.interpolate(at(3000)), Point { x: fx(4), y: fx(10) });
    // Before the start the move has not begun.
    assert_eq!(m.interpolate(at(500)), Point { x: fx(0), y: fx(6) });
    assert!(!m.is_finished(at(2999)));
    assert!(m.is_finished(at(3000)));
}

#[test]
fn state_update_finishes_moves_and_lifts() {
    let m = Movement::new(
        Point { x: fx(0), y: fx(6) },
        Point { x: fx(4), y: fx(10) },
        at(0),
        Duration::millis(100),
    );
    let mut s = State::Moving(m, PenState::Down);
    assert_eq!(s.update(at(50)), Point { x: fx(2), y: fx(8) });
    assert!(!s.is_resting());
    assert_eq!(s.update(at(100)), Point { x: fx(4), y: fx(10) });
    assert_eq!(s, State::Resting(Point { x: fx(4), y: fx(10) }, PenState::Down));

    let mut l = State::Lifting(Point { x: fx(1), y: fx(7) }, PenState::Up, at(800));
    assert_eq!(l.update(at(799)), Point { x: fx(1), y: fx(7) });
    assert!(!l.is_resting());
    l.update(at(800));
    assert_eq!(l, State::Resting(Point { x: fx(1), y: fx(7) }, PenState::Up));
}

#[test]
fn move_to_times_the_move_by_distance() {
    let mut b = Brachiograph::new(fx(-8), fx(8));
    assert!(b.is_resting());
    // 4 units away at 4 units per second.
    assert_eq!(b.move_to(at(0), fx(-4), fx(8)), Ok(()));
    match b.state() {
        State::Moving(m, pen) => {
            assert_eq!(pen, PenState::Up);
            assert!(!m.is_finished(at(999)));
            assert!(m.is_finished(at(1000)));
        }
        other => panic!("unexpected state {:?}", other),
    }
    // Busy while moving.
    assert_eq!(b.move_to(at(10), fx(0), fx(8)), Err(MoveError::Busy));
    assert_eq!(b.pen_down(at(10)), Err(MoveError::Busy));
    let _ = b.update(at(1000));
    assert_eq!(b.resting(), Some((Point { x: fx(-4), y: fx(8) }, PenState::Up)));
}

#[test]
fn move_to_rejects_targets_outside_the_workspace() {
    let mut b = Brachiograph::new(fx(-8), fx(8));
    assert_eq!(b.move_to(at(0), fx(9), fx(8)), Err(MoveError::OutOfRange));
    assert!(b.is_resting());
}

#[test]
fn pen_lifts_take_time_and_switch_halfway() {
    let mut b = Brachiograph::new(fx(-8), fx(8));
    assert_eq!(b.pen_down(at(0)), Ok(()));
    assert_eq!(b.state(), State::Lifting(Point { x: fx(-8), y: fx(8) }, PenState::Down, at(800)));
    assert_eq!(b.pen(at(399)), PenState::Up);
    assert_eq!(b.pen(at(400)), PenState::Down);
    let _ = b.update(at(800));
    assert!(b.is_resting());
    // Already down: nothing to do.
    assert_eq!(b.pen_down(at(900)), Ok(()));
    assert!(b.is_resting());
    assert_eq!(b.pen_up(at(900)), Ok(()));
    assert_eq!(b.pen(at(1000)), PenState::Down);
    assert_eq!(b.pen(at(1300)), PenState::Up);
}

#[test]
fn update_reports_angles() {
    let mut b = Brachiograph::new(fx(-8), fx(8));
    let a = b.update(at(0)).unwrap();
    assert!((a.shoulder.degrees().to_bits() as f64 / 4096.0).abs() < 0.1);
    let mut outside = Brachiograph::new(fx(0), fx(0));
    assert!(outside.update(at(0)).is_err());
}

#[test]
fn time_arithmetic() {
    let d = Duration::millis(1500);
    assert_eq!(d.ticks, 1_500_000);
    assert_eq!(d.to_millis(), 1500);
    assert_eq!(at(1).plus(d), at(1501));
    assert_eq!(at(10).checked_duration_since(at(4)), Some(Duration::millis(6)));
    assert_eq!(at(4).checked_duration_since(at(10)), None);
}

#[test]
fn delay_is_clamped() {
    assert_eq!(Delay::from_millis(250).to_millis(), 250);
    assert_eq!(Delay::from_millis(5000).to_millis(), 1000);
}
