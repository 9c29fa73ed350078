use brachiograph::pwm::table_from;
use brachiograph::{Angle, Angles, CalibratedPosition, Direction, Fixed, Joint, PenState, Pwm, TogglePwm};

fn deg(v: i16) -> Angle {
    Angle::from_degrees(Fixed::from_int(v))
}

fn assert_approx(a: u16, b: u16) {
    assert!((a as i32 - b as i32).abs() < 10);
}

#[test]
fn precomputed_duties() {
    let sh = Pwm::shoulder();
    assert_approx(916, sh.duty(deg(0), deg(0)));
}

#[test]
fn shoulder_duty_interpolates_the_default_table() {
    let sh = Pwm::shoulder();
    // 1167 + (250 - 1167) * 45 / 165, with the ratio in 12 fractional bits.
    assert_eq!(sh.duty(deg(0), deg(0)), 917);
    assert_eq!(sh.duty(deg(0), deg(-45)), 1167);
    assert_eq!(sh.duty(deg(0), deg(120)), 250);
}

#[test]
fn duty_clamps_outside_the_table() {
    let sh = Pwm::shoulder();
    assert_eq!(sh.duty(deg(0), deg(-90)), 1167);
    assert_eq!(sh.duty(deg(0), deg(150)), 250);
}

#[test]
fn duty_picks_the_table_by_direction() {
    let p = Pwm {
        inc: table_from(&[(0, 1000), (100, 2000)]),
        dec: table_from(&[(0, 1100), (100, 2100)]),
    };
    assert_eq!(p.duty(deg(0), deg(50)), 1500);
    assert_eq!(p.duty(deg(60), deg(50)), 1600);
    // An unchanged angle reads the decreasing table.
    assert_eq!(p.duty(deg(50), deg(50)), 1600);
    // Past the end, the table in use gives its last width.
    assert_eq!(p.duty(deg(200), deg(150)), 2100);
    assert_eq!(p.duty(deg(0), deg(150)), 2000);
}

#[test]
fn duty_is_monotone_between_entries() {
    let p = Pwm::elbow();
    let mut last = p.duty(deg(0), deg(-60));
    for d in -59..=75 {
        let cur = p.duty(deg(0), deg(d));
        assert!(cur <= last);
        last = cur;
    }
}

#[test]
fn degenerate_tables() {
    let empty = Pwm { inc: table_from(&[]), dec: table_from(&[]) };
    assert_eq!(empty.duty(deg(0), deg(10)), 0);
    let one = Pwm { inc: table_from(&[(5, 1234)]), dec: table_from(&[(5, 1234)]) };
    assert_eq!(one.duty(deg(0), deg(-10)), 1234);
    assert_eq!(one.duty(deg(0), deg(10)), 1234);
    let dup = Pwm { inc: table_from(&[(5, 1000), (5, 2000)]), dec: table_from(&[]) };
    assert_eq!(dup.duty(deg(0), deg(5)), 1000);
}

#[test]
fn pen_toggle() {
    let pen = TogglePwm::pen();
    assert_eq!(pen.duty(PenState::Up), 750);
    assert_eq!(pen.duty(PenState::Down), 1250);
}

#[test]
fn calibrated_position_tracks_last_angles() {
    let mut c = CalibratedPosition::default();
    let a = Angles { shoulder: deg(0), elbow: deg(0) };
    let pos = c.update(a, PenState::Down);
    assert_eq!(pos.shoulder, 917);
    assert_eq!(pos.pen, 1250);
    assert_eq!(c.last_angles, a);
    c.change_calibration(Joint::Shoulder, Direction::Decreasing, table_from(&[(-90, 1000), (90, 2000)]));
    let pos = c.update(a, PenState::Up);
    assert_eq!(pos.shoulder, 1500);
    assert_eq!(pos.pen, 750);
    // The increasing table is untouched.
    let pos = c.update(Angles { shoulder: deg(120), elbow: deg(0) }, PenState::Up);
    assert_eq!(pos.shoulder, 250);
}
