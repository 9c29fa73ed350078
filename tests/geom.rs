use brachiograph::{Angle, Angles, Config, Fixed};
use fixed::types::I20F12;

fn fx(v: f64) -> Fixed {
    Fixed::from_bits(fixed::types::I20F12::from_num(v).to_bits())
}

fn to_f64(v: Fixed) -> f64 {
    v.to_bits() as f64 / 4096.0
}

fn deg(v: i16) -> Angle {
    Angle::from_degrees(Fixed::from_int(v))
}

fn assert_approx(geom: &Angles, shoulder: f64, elbow: f64) {
    assert!((to_f64(geom.shoulder.degrees()) - shoulder).abs() < 0.1);
    assert!((to_f64(geom.elbow.degrees()) - elbow).abs() < 0.1);
}

fn assert_approx_f64(x: f64, y: f64) {
    assert!((x - y).abs() < 0.01);
}

#[test]
fn precalculated_coords() {
    let b = Config::default();
    assert_approx(&b.at_coord(fx(-8.0), fx(8.0)).unwrap(), 0.0, 0.0);
    assert_approx(&b.at_coord(fx(0.0), fx(11.313)).unwrap(), 45.0, 0.0);
    assert_approx(&b.at_coord(fx(0.0), fx(8.0)).unwrap(), 30.0, -30.0);
    assert_approx(&b.at_coord(fx(8.0), fx(8.0)).unwrap(), 90.0, 0.0);
}

#[test]
fn precalculated_inverse() {
    let b = Config::default();
    let (x, y) = b.coord_at_angle(Angles { shoulder: deg(0), elbow: deg(0) });
    assert_approx_f64(to_f64(x), -8.0);
    assert_approx_f64(to_f64(y), 8.0);

    let (x, y) = b.coord_at_angle(Angles { shoulder: deg(45), elbow: deg(0) });
    assert_approx_f64(to_f64(x), 0.0);
    assert_approx_f64(to_f64(y), 11.313);
}

#[test]
fn default_config() {}

#[test]
fn default_config_is_valid() {
    assert!(Config::default().is_valid());
}

#[test]
fn bad_configs() {
    fn check(good: bool, x0: i16, x1: i16, y0: i16, y1: i16) {
        let mut conf = Config::default();
        conf.x_range = (Fixed::from_int(x0), Fixed::from_int(x1));
        conf.y_range = (Fixed::from_int(y0), Fixed::from_int(y1));
        assert_eq!(good, conf.is_valid());
    }

    // Shoulder doesn't go back far enough to reach all of y=2...
    check(false, -8, 8, 2, 13);
    // ...but if we chop off part of the x axis, it's ok.
    check(true, 4, 8, 2, 13);

    // Can't reach the corners of y=14.
    check(false, -8, 8, 5, 14);
    // The right-hand edge is too far for the shoulder.
    check(false, 4, 14, 3, 4);
}

#[test]
fn at_coord_rejects_points_outside_the_rectangle() {
    let b = Config::default();
    assert!(b.at_coord(fx(0.0), fx(4.0)).is_err());
    assert!(b.at_coord(fx(8.5), fx(8.0)).is_err());
    assert!(b.at_coord(fx(0.0), fx(13.5)).is_err());
}

#[test]
fn at_coord_fails_with_zero_arm_length() {
    let mut b = Config::default();
    b.arm_len = Fixed::from_int(0);
    assert!(b.at_coord(fx(0.0), fx(8.0)).is_err());
    assert!(!b.is_valid());
}

#[test]
fn joint_and_coordinate_ranges() {
    let b = Config::default();
    assert!(b.shoulder_is_valid(deg(-45)));
    assert!(b.shoulder_is_valid(deg(120)));
    assert!(!b.shoulder_is_valid(deg(121)));
    assert!(b.elbow_is_valid(deg(-60)));
    assert!(!b.elbow_is_valid(deg(-61)));
    assert!(b.coord_is_valid(fx(-8.0), fx(5.0)));
    assert!(!b.coord_is_valid(fx(-8.1), fx(5.0)));
    assert!(!b.coord_is_valid(fx(0.0), fx(13.1)));
}

#[test]
fn rectangle_must_be_ordered_and_above_the_shoulder() {
    let mut b = Config::default();
    b.y_range = (Fixed::from_int(0), Fixed::from_int(13));
    assert!(!b.is_valid());
    let mut b = Config::default();
    b.x_range = (Fixed::from_int(8), Fixed::from_int(-8));
    assert!(!b.is_valid());
}

#[test]
fn elbow_bending_back_past_ninety_is_invalid() {
    let mut b = Config::default();
    b.x_range = (Fixed::from_int(4), Fixed::from_int(8));
    b.y_range = (Fixed::from_int(2), Fixed::from_int(13));
    b.elbow_range = (deg(-100), deg(75));
    assert!(!b.is_valid());
}

#[test]
fn kinematics_round_trip_on_a_grid() {
    let b = Config::default();
    let mut x = -7.5;
    while x <= 7.5 {
        let mut y = 5.5;
        while y <= 12.5 {
            let a = b.at_coord(fx(x), fx(y)).unwrap();
            let (bx, by) = b.coord_at_angle(a);
            assert!((to_f64(bx) - x).abs() < 0.1, "x {} {}", x, to_f64(bx));
            assert!((to_f64(by) - y).abs() < 0.1, "y {} {}", y, to_f64(by));
            let back = b.at_coord(bx, by).unwrap();
            assert!((to_f64(back.shoulder.degrees()) - to_f64(a.shoulder.degrees())).abs() < 0.5);
            assert!((to_f64(back.elbow.degrees()) - to_f64(a.elbow.degrees())).abs() < 0.5);
            y += 1.0;
        }
        x += 1.0;
    }
}

#[test]
fn valid_workspace_is_covered() {
    let b = Config::default();
    let mut narrow = Config::default();
    narrow.x_range = (Fixed::from_int(4), Fixed::from_int(8));
    narrow.y_range = (Fixed::from_int(2), Fixed::from_int(13));
    assert!(narrow.is_valid());
    for conf in [&narrow] {
        let mut x = 4.0;
        while x <= 8.0 {
            let mut y = 2.0;
            while y <= 13.0 {
                let a = conf.at_coord(fx(x), fx(y)).unwrap();
                assert!(conf.shoulder_is_valid(a.shoulder), "{} {}", x, y);
                assert!(conf.elbow_is_valid(a.elbow), "{} {}", x, y);
                y += 0.25;
            }
            x += 0.25;
        }
    }
    let _ = b;
}

#[test]
fn angle_conversions() {
    let a = Angle::from_degrees(Fixed::from_int(180));
    assert!((to_f64(a.radians()) - std::f64::consts::PI).abs() < 0.01);
    let r = Angle::from_radians(Fixed::frac_pi_2());
    assert!((to_f64(r.degrees()) - 90.0).abs() < 0.05);
    let half = deg(0).interpolate(deg(90), fx(0.5));
    assert_eq!(half.degrees(), Fixed::from_int(45));
    let clamped = deg(0).interpolate(deg(90), fx(2.0));
    assert_eq!(clamped.degrees(), Fixed::from_int(90));
    assert_eq!(deg(100).clamp(deg(0), deg(90)).degrees(), Fixed::from_int(90));
    assert_eq!(deg(30).sub(deg(45)).degrees(), Fixed::from_int(-15));
    assert_eq!(deg(30).add(deg(45)).degrees(), Fixed::from_int(75));
    assert_eq!(deg(30).neg().degrees(), Fixed::from_int(-30));
}

#[test]
fn fixed_arithmetic_matches_the_fixed_crate() {
    let vals = [-70000.25, -8.0, -1.5, -0.001, 0.0, 0.3, 1.0, 2.5, 11.313, 300.75];
    for &a in &vals {
        for &b in &vals {
            let (fa, fb) = (I20F12::from_num(a), I20F12::from_num(b));
            let (xa, xb) = (fx(a), fx(b));
            assert_eq!(xa.wrapping_add(xb).to_bits(), fa.wrapping_add(fb).to_bits());
            assert_eq!(xa.wrapping_sub(xb).to_bits(), fa.wrapping_sub(fb).to_bits());
            assert_eq!(xa.wrapping_mul(xb).to_bits(), fa.wrapping_mul(fb).to_bits());
            if b != 0.0 {
                assert_eq!(xa.wrapping_div(xb).to_bits(), fa.wrapping_div(fb).to_bits());
            }
        }
        let fa = I20F12::from_num(a);
        assert_eq!(fx(a).wrapping_mul_int(180).to_bits(), fa.wrapping_mul_int(180).to_bits());
        assert_eq!(fx(a).wrapping_div_int(180).to_bits(), fa.wrapping_div_int(180).to_bits());
        assert_eq!(fx(a).floor_int(), fa.floor().to_num::<i32>());
    }
    assert_eq!(Fixed::pi().to_bits(), I20F12::PI.to_bits());
    assert_eq!(Fixed::frac_pi_2().to_bits(), I20F12::FRAC_PI_2.to_bits());
    assert_eq!(Fixed::frac_pi_4().to_bits(), I20F12::FRAC_PI_4.to_bits());
    assert_eq!(Fixed::sqrt_2().to_bits(), I20F12::SQRT_2.to_bits());
}
