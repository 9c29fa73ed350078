use brachiograph::turtle::{interpret, TurtleCmd};
use brachiograph::{Config, Fixed, Op};

fn fx(v: i16) -> Fixed {
    Fixed::from_int(v)
}

fn point(op: &Op) -> (f64, f64) {
    match op {
        Op::MoveTo(p) => (p.x.to_bits() as f64 / 4096.0, p.y.to_bits() as f64 / 4096.0),
        other => panic!("expected a move, got {:?}", other),
    }
}

fn near(a: (f64, f64), b: (f64, f64)) -> bool {
    (a.0 - b.0).abs() < 0.02 && (a.1 - b.1).abs() < 0.02
}

#[test]
fn turtle_walks_from_the_centre() {
    let cfg = Config::default();
    let ops = interpret(
        &[TurtleCmd::Forward(fx(2)), TurtleCmd::Right(fx(90)), TurtleCmd::Forward(fx(3)), TurtleCmd::Left(fx(90)), TurtleCmd::Back(fx(1))],
        &cfg,
    );
    assert_eq!(ops.len(), 3);
    assert!(near(point(&ops[0]), (0.0, 11.0)), "{:?}", point(&ops[0]));
    assert!(near(point(&ops[1]), (3.0, 11.0)), "{:?}", point(&ops[1]));
    assert!(near(point(&ops[2]), (3.0, 10.0)), "{:?}", point(&ops[2]));
}

#[test]
fn turtle_points_are_clamped_to_the_rectangle() {
    let cfg = Config::default();
    let ops = interpret(&[TurtleCmd::Forward(fx(10)), TurtleCmd::Left(fx(90)), TurtleCmd::Forward(fx(20))], &cfg);
    assert!(near(point(&ops[0]), (0.0, 13.0)));
    assert!(near(point(&ops[1]), (-8.0, 13.0)));
}

#[test]
fn turtle_arcs_lift_the_pen_around_them() {
    let cfg = Config::default();
    let ops = interpret(&[TurtleCmd::PenDown, TurtleCmd::Arc { degrees: 90, radius: fx(2) }], &cfg);
    assert_eq!(ops.len(), 1 + 3 + 10 + 3);
    assert!(matches!(ops[0], Op::PenDown));
    assert!(matches!(ops[1], Op::PenUp));
    assert!(near(point(&ops[2]), (0.0, 11.0)));
    assert!(matches!(ops[3], Op::PenDown));
    assert!(near(point(&ops[4]), (0.0, 11.0)));
    assert!(near(point(&ops[13]), (2.0, 9.0)));
    assert!(matches!(ops[14], Op::PenUp));
    assert!(near(point(&ops[15]), (0.0, 9.0)));
    assert!(matches!(ops[16], Op::PenDown));
}
