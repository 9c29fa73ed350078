//! Turning turtle-graphics primitives into arm operations. The turtle starts
//! at the centre of the drawing rectangle, heading up (90°); every point it
//! sends is limited to the rectangle.
use crate::fixed_point::{clamp_int, fx_add, fx_div_int, fx_mul, fx_sub, Fixed};
use crate::geom::Config;
use crate::protocol::Op;
use crate::trig::{cos, cos_of, sin, sin_of};
use crate::types::{radians_of_degrees, Angle, Point};
use vstd::prelude::*;

verus! {

/// A turtle-graphics primitive.
#[derive(Clone, Copy, Debug, PartialEq, Eq, Structural)]
pub enum TurtleCmd {
    /// Walk forward along the heading.
    Forward(Fixed),
    /// Walk backward along the heading.
    Back(Fixed),
    /// Turn counter-clockwise, in degrees.
    Left(Fixed),
    /// Turn clockwise, in degrees.
    Right(Fixed),
    /// Draw an arc clockwise from the heading, of the given radius around
    /// the turtle, which neither moves nor turns.
    Arc { degrees: u16, radius: Fixed },
    PenUp,
    PenDown,
}

/// Where the turtle is, raw, relative to the rectangle's centre, and its
/// heading in raw degrees.
pub type TurtleState = (int, int, int);

/// The raw point `dist` along the heading `h` from `(x, y)`.
pub open spec fn walked(x: int, y: int, h: int, dist: int) -> (int, int) {
    let rad = radians_of_degrees(h);
    (fx_add(x, fx_mul(cos_of(rad), dist)), fx_add(y, fx_mul(sin_of(rad), dist)))
}

/// Centre of a range, raw.
pub open spec fn middle(lo: int, hi: int) -> int {
    fx_div_int(fx_add(lo, hi), 2)
}

/// The move to a point relative to the rectangle's centre, limited to the
/// rectangle.
pub open spec fn placed(cfg: Config, x: int, y: int) -> Op {
    let (x0, x1) = (cfg.x_range.0.raw(), cfg.x_range.1.raw());
    let (y0, y1) = (cfg.y_range.0.raw(), cfg.y_range.1.raw());
    Op::MoveTo(
        Point {
            x: Fixed { bits: clamp_int(fx_add(middle(x0, x1), x), x0, x1) as i32 },
            y: Fixed { bits: clamp_int(fx_add(middle(y0, y1), y), y0, y1) as i32 },
        },
    )
}

/// The points of an arc from angle `i` on, in steps of ten degrees up to
/// `degrees`, clockwise from the heading `h`.
pub open spec fn arc_points(cfg: Config, x: int, y: int, h: int, radius: int, degrees: int, i: int) -> Seq<Op>
    decreases degrees + 10 - i,
{
    if i > degrees || i < 0 {
        Seq::empty()
    } else {
        let (px, py) = walked(x, y, fx_sub(h, i * 4096), radius);
        seq![placed(cfg, px, py)] + arc_points(cfg, x, y, h, radius, degrees, i + 10)
    }
}

/// The turtle's state and operations after one primitive.
pub open spec fn turtle_step(cfg: Config, st: TurtleState, cmd: TurtleCmd) -> (TurtleState, Seq<Op>) {
    let (x, y, h) = st;
    match cmd {
        TurtleCmd::Forward(d) => {
            let (nx, ny) = walked(x, y, h, d.raw());
            ((nx, ny, h), seq![placed(cfg, nx, ny)])
        },
        TurtleCmd::Back(d) => {
            let (nx, ny) = walked(x, y, h, fx_sub(0, d.raw()));
            ((nx, ny, h), seq![placed(cfg, nx, ny)])
        },
        TurtleCmd::Left(a) => ((x, y, fx_add(h, a.raw())), Seq::empty()),
        TurtleCmd::Right(a) => ((x, y, fx_sub(h, a.raw())), Seq::empty()),
        TurtleCmd::Arc { degrees, radius } => {
            let (sx, sy) = walked(x, y, h, radius.raw());
            (
                st,
                seq![Op::PenUp, placed(cfg, sx, sy), Op::PenDown] + arc_points(
                    cfg,
                    x,
                    y,
                    h,
                    radius.raw(),
                    degrees as int,
                    0,
                ) + seq![Op::PenUp, placed(cfg, x, y), Op::PenDown],
            )
        },
        TurtleCmd::PenUp => (st, seq![Op::PenUp]),
        TurtleCmd::PenDown => (st, seq![Op::PenDown]),
    }
}

/// The turtle's state and operations after a list of primitives, starting
/// at the centre heading up.
pub open spec fn turtle_run(cfg: Config, steps: Seq<TurtleCmd>) -> (TurtleState, Seq<Op>)
    decreases steps.len(),
{
    if steps.len() == 0 {
        ((0int, 0int, 368640int), Seq::empty())
    } else {
        let (st, ops) = turtle_run(cfg, steps.drop_last());
        let (st2, more) = turtle_step(cfg, st, steps.last());
        (st2, ops + more)
    }
}

/// Whether both ranges of the rectangle are ordered.
pub open spec fn ordered(cfg: Config) -> bool {
    cfg.x_range.0.raw() <= cfg.x_range.1.raw() && cfg.y_range.0.raw() <= cfg.y_range.1.raw()
}

fn walk(x: Fixed, y: Fixed, heading: Fixed, dist: Fixed) -> (r: (Fixed, Fixed))
    ensures
        (r.0.raw(), r.1.raw()) == walked(x.raw(), y.raw(), heading.raw(), dist.raw()),
{
    let rad = Angle::from_degrees(heading).radians();
    (x.wrapping_add(cos(rad).wrapping_mul(dist)), y.wrapping_add(sin(rad).wrapping_mul(dist)))
}

fn place(cfg: &Config, x: Fixed, y: Fixed) -> (r: Op)
    requires
        ordered(*cfg),
    ensures
        r == placed(*cfg, x.raw(), y.raw()),
{
    let cx = cfg.x_range.0.wrapping_add(cfg.x_range.1).wrapping_div_int(2);
    let cy = cfg.y_range.0.wrapping_add(cfg.y_range.1).wrapping_div_int(2);
    let px = cx.wrapping_add(x).clamp(cfg.x_range.0, cfg.x_range.1);
    let py = cy.wrapping_add(y).clamp(cfg.y_range.0, cfg.y_range.1);
    Op::MoveTo(Point { x: px, y: py })
}

fn push_arc(out: &mut Vec<Op>, cfg: &Config, x: Fixed, y: Fixed, h: Fixed, radius: Fixed, degrees: u16)
    requires
        ordered(*cfg),
    ensures
        final(out)@ == old(out)@ + arc_points(*cfg, x.raw(), y.raw(), h.raw(), radius.raw(), degrees as int, 0),
{
    let mut i: u32 = 0;
    while i <= degrees as u32
        invariant
            ordered(*cfg),
            i <= degrees as u32 + 10,
            old(out)@ + arc_points(*cfg, x.raw(), y.raw(), h.raw(), radius.raw(), degrees as int, 0)
                == out@ + arc_points(*cfg, x.raw(), y.raw(), h.raw(), radius.raw(), degrees as int, i as int),
        decreases degrees as u32 + 10 - i,
    {
        let turned = h.wrapping_sub(Fixed::from_bits(i as i32 * 4096));
        let (px, py) = walk(x, y, turned, radius);
        let ghost before = out@;
        out.push(place(cfg, px, py));
        proof {
            assert(arc_points(*cfg, x.raw(), y.raw(), h.raw(), radius.raw(), degrees as int, i as int)
                == seq![placed(*cfg, px.raw(), py.raw())] + arc_points(
                *cfg,
                x.raw(),
                y.raw(),
                h.raw(),
                radius.raw(),
                degrees as int,
                i + 10,
            ));
            assert(before + arc_points(*cfg, x.raw(), y.raw(), h.raw(), radius.raw(), degrees as int, i as int)
                =~= out@ + arc_points(*cfg, x.raw(), y.raw(), h.raw(), radius.raw(), degrees as int, i + 10));
        }
        i += 10;
    }
    proof {
        assert(out@ + arc_points(*cfg, x.raw(), y.raw(), h.raw(), radius.raw(), degrees as int, i as int) =~= out@);
    }
}

/// The operations that draw a list of turtle primitives on the rectangle of
/// `cfg`.
pub fn interpret(steps: &[TurtleCmd], cfg: &Config) -> (r: Vec<Op>)
    requires
        ordered(*cfg),
    ensures
        r@ == turtle_run(*cfg, steps@).1,
{
    let mut x = Fixed::zero();
    let mut y = Fixed::zero();
    let mut h = Fixed::from_int(90);
    let mut out: Vec<Op> = Vec::new();
    let mut i: usize = 0;
    while i < steps.len()
        invariant
            ordered(*cfg),
            i <= steps@.len(),
            turtle_run(*cfg, steps@.subrange(0, i as int)) == ((x.raw(), y.raw(), h.raw()), out@),
        decreases steps@.len() - i,
    {
        let ghost prefix = steps@.subrange(0, i + 1);
        proof {
            assert(prefix.drop_last() =~= steps@.subrange(0, i as int));
        }
        match steps[i] {
            TurtleCmd::Forward(d) => {
                let (nx, ny) = walk(x, y, h, d);
                x = nx;
                y = ny;
                out.push(place(cfg, x, y));
            },
            TurtleCmd::Back(d) => {
                let (nx, ny) = walk(x, y, h, Fixed::zero().wrapping_sub(d));
                x = nx;
                y = ny;
                out.push(place(cfg, x, y));
            },
            TurtleCmd::Left(a) => {
                h = h.wrapping_add(a);
            },
            TurtleCmd::Right(a) => {
                h = h.wrapping_sub(a);
            },
            TurtleCmd::Arc { degrees, radius } => {
                let (sx, sy) = walk(x, y, h, radius);
                out.push(Op::PenUp);
                out.push(place(cfg, sx, sy));
                out.push(Op::PenDown);
                push_arc(&mut out, cfg, x, y, h, radius, degrees);
                out.push(Op::PenUp);
                out.push(place(cfg, x, y));
                out.push(Op::PenDown);
            },
            TurtleCmd::PenUp => out.push(Op::PenUp),
            TurtleCmd::PenDown => out.push(Op::PenDown),
        }
        i += 1;
        proof {
            let (st, ops) = turtle_run(*cfg, steps@.subrange(0, i - 1));
            let (st2, more) = turtle_step(*cfg, st, steps@[i - 1]);
            assert(out@ =~= ops + more);
        }
    }
    proof {
        assert(steps@.subrange(0, i as int) =~= steps@);
    }
    out
}

} // verus!
