//! The motion state machine: timed straight-line moves and pen lifts.
use crate::fixed_point::{fx_add, fx_div, fx_mul, fx_mul_int, fx_sub, lemma_wrap_in_range, wrap, Fixed};
use crate::geom::Config;
use crate::time::{Duration, Instant, MAX_TICKS};
use crate::trig::{sqrt, sqrt_of, SQRT_MAX_BITS};
use crate::types::{Angles, PenState, Point};
use vstd::prelude::*;

verus! {

/// Speed of the hand, raw, in units per second.
pub const SPEED_BITS: i32 = 16384;

/// Default time the pen servo takes to rise or fall, in milliseconds.
pub const LIFT_MILLIS: u32 = 800;

/// A move of the hand along a straight line.
#[derive(Clone, Copy, Debug, PartialEq, Eq, Structural)]
pub struct Movement {
    init: Point,
    target: Point,
    start: Instant,
    dur: Duration,
}

/// Raw value of `a + ratio·(b − a)`.
pub open spec fn lerp_point(a: int, b: int, ratio: int) -> int {
    fx_add(a, fx_mul(ratio, fx_sub(b, a)))
}

impl Movement {
    pub closed spec fn init_point(self) -> Point {
        self.init
    }

    pub closed spec fn target_point(self) -> Point {
        self.target
    }

    pub closed spec fn start_time(self) -> Instant {
        self.start
    }

    pub closed spec fn duration(self) -> Duration {
        self.dur
    }

    /// The move with the given ends, start and duration.
    pub closed spec fn planned(init: Point, target: Point, start: Instant, dur: Duration) -> Movement {
        Movement { init, target, start, dur }
    }

    /// Whether the move is over at `now`.
    pub open spec fn finished_at(self, now: Instant) -> bool {
        now.ticks >= self.start_time().ticks + self.duration().ticks
    }

    /// The fraction of the move done at `now`, raw: whole milliseconds
    /// elapsed over whole milliseconds in total, limited to `[0, 1]`; a move
    /// shorter than a millisecond is done at once.
    pub open spec fn ratio_at(self, now: Instant) -> int {
        let total: int = self.duration().ticks as int / 1000;
        let elapsed: int = if now.ticks >= self.start_time().ticks {
            (now.ticks - self.start_time().ticks) / 1000int
        } else {
            0
        };
        if total == 0 || elapsed >= total {
            4096
        } else {
            (elapsed * 4096) / total
        }
    }

    /// Raw coordinates of the hand at `now`.
    pub open spec fn position_at(self, now: Instant) -> (int, int) {
        let r = self.ratio_at(now);
        (
            lerp_point(self.init_point().x.raw(), self.target_point().x.raw(), r),
            lerp_point(self.init_point().y.raw(), self.target_point().y.raw(), r),
        )
    }

    pub fn new(init: Point, target: Point, start: Instant, dur: Duration) -> (r: Movement)
        ensures
            r.init_point() == init,
            r.target_point() == target,
            r.start_time() == start,
            r.duration() == dur,
    {
        Movement { init, target, start, dur }
    }

    pub fn target(&self) -> (r: Point)
        ensures
            r == self.target_point(),
    {
        self.target
    }

    /// Where the hand is at `now`.
    pub fn interpolate(&self, now: Instant) -> (r: Point)
        ensures
            (r.x.raw(), r.y.raw()) == self.position_at(now),
    {
        let total: u64 = self.dur.ticks / 1000;
        let elapsed: u64 = if now.ticks >= self.start.ticks {
            (now.ticks - self.start.ticks) / 1000
        } else {
            0
        };
        let ratio: i32 = if total == 0 || elapsed >= total {
            4096
        } else {
            proof {
                vstd::arithmetic::div_mod::lemma_div_is_ordered(
                    (elapsed * 4096) as int,
                    (total * 4096) as int,
                    total as int,
                );
                vstd::arithmetic::div_mod::lemma_div_multiples_vanish(4096, total as int);
            }
            ((elapsed as u128 * 4096) / total as u128) as i32
        };
        let ratio = Fixed::from_bits(ratio);
        Point {
            x: self.init.x.wrapping_add(ratio.wrapping_mul(self.target.x.wrapping_sub(self.init.x))),
            y: self.init.y.wrapping_add(ratio.wrapping_mul(self.target.y.wrapping_sub(self.init.y))),
        }
    }

    /// Whether the move is over at `now`.
    pub fn is_finished(&self, now: Instant) -> (r: bool)
        ensures
            r == self.finished_at(now),
    {
        now.ticks as u128 >= self.start.ticks as u128 + self.dur.ticks as u128
    }
}

proof fn lemma_ratio_bounds(m: Movement, now: Instant)
    ensures
        0 <= m.ratio_at(now) <= 4096,
{
    let total: int = m.duration().ticks as int / 1000;
    let elapsed: int = if now.ticks >= m.start_time().ticks {
        (now.ticks - m.start_time().ticks) / 1000int
    } else {
        0
    };
    if !(total == 0 || elapsed >= total) {
        assert(0 <= elapsed * 4096 <= total * 4096) by (nonlinear_arith)
            requires
                0 <= elapsed < total,
        ;
        vstd::arithmetic::div_mod::lemma_div_is_ordered(elapsed * 4096, total * 4096, total);
        vstd::arithmetic::div_mod::lemma_div_multiples_vanish(4096, total);
        vstd::arithmetic::div_mod::lemma_div_pos_is_pos(elapsed * 4096, total);
    }
}

proof fn lemma_lerp_between(a: int, b: int, r: int)
    requires
        i32::MIN <= a <= i32::MAX,
        i32::MIN <= b <= i32::MAX,
        i32::MIN <= b - a <= i32::MAX,
        0 <= r <= 4096,
    ensures
        a <= b ==> a <= lerp_point(a, b, r) <= b,
        b <= a ==> b <= lerp_point(a, b, r) <= a,
        r == 0 ==> lerp_point(a, b, r) == a,
{
    let d = b - a;
    lemma_wrap_in_range(d);
    let p = r * d;
    if d >= 0 {
        assert(0 <= p <= 4096 * d) by (nonlinear_arith)
            requires
                p == r * d,
                0 <= r <= 4096,
                d >= 0,
        ;
        vstd::arithmetic::div_mod::lemma_div_is_ordered(p, 4096 * d, 4096);
        vstd::arithmetic::div_mod::lemma_div_multiples_vanish(d, 4096);
        vstd::arithmetic::div_mod::lemma_div_pos_is_pos(p, 4096);
    } else {
        assert(4096 * d <= p <= 0) by (nonlinear_arith)
            requires
                p == r * d,
                0 <= r <= 4096,
                d < 0,
        ;
        vstd::arithmetic::div_mod::lemma_div_is_ordered(4096 * d, p, 4096);
        vstd::arithmetic::div_mod::lemma_div_is_ordered(p, 0, 4096);
        vstd::arithmetic::div_mod::lemma_div_multiples_vanish(d, 4096);
    }
    lemma_wrap_in_range(p / 4096);
    lemma_wrap_in_range(a + p / 4096);
}

/// A move is at its initial point when it starts, and at its target, resting
/// there with the same pen state, once its duration has passed. This needs a
/// move of at least a millisecond: shorter ones are done at once.
pub proof fn lemma_interpolation_endpoints(m: Movement, pen: PenState)
    requires
        m.duration().ticks >= 1000,
        m.start_time().ticks + m.duration().ticks <= u64::MAX,
    ensures
        State::Moving(m, pen).position(m.start_time()) == (
            m.init_point().x.raw(),
            m.init_point().y.raw(),
        ),
        ({
            let end = Instant { ticks: (m.start_time().ticks + m.duration().ticks) as u64 };
            &&& State::Moving(m, pen).position(end) == (
                m.target_point().x.raw(),
                m.target_point().y.raw(),
            )
            &&& State::Moving(m, pen).next(end) == State::Resting(m.target_point(), pen)
        }),
{
    assert(m.ratio_at(m.start_time()) == 0);
    lemma_lerp_start(m.init_point().x.raw(), m.target_point().x.raw());
    lemma_lerp_start(m.init_point().y.raw(), m.target_point().y.raw());
}

proof fn lemma_lerp_start(a: int, b: int)
    requires
        i32::MIN <= a <= i32::MAX,
    ensures
        lerp_point(a, b, 0) == a,
{
    lemma_wrap_in_range(0);
    lemma_wrap_in_range(a);
}

/// Between its start and its end, a move keeps each coordinate of the hand
/// between that coordinate's initial and target values, where their
/// difference fits the number type.
pub proof fn lemma_interpolation_between_ends(m: Movement, now: Instant)
    requires
        i32::MIN <= m.target_point().x.raw() - m.init_point().x.raw() <= i32::MAX,
        i32::MIN <= m.target_point().y.raw() - m.init_point().y.raw() <= i32::MAX,
    ensures
        ({
            let (ix, iy) = (m.init_point().x.raw(), m.init_point().y.raw());
            let (tx, ty) = (m.target_point().x.raw(), m.target_point().y.raw());
            let (x, y) = m.position_at(now);
            &&& ix <= tx ==> ix <= x <= tx
            &&& tx <= ix ==> tx <= x <= ix
            &&& iy <= ty ==> iy <= y <= ty
            &&& ty <= iy ==> ty <= y <= iy
        }),
{
    lemma_ratio_bounds(m, now);
    let r = m.ratio_at(now);
    lemma_lerp_between(m.init_point().x.raw(), m.target_point().x.raw(), r);
    lemma_lerp_between(m.init_point().y.raw(), m.target_point().y.raw(), r);
}

/// Nothing but time ends a move: once its duration has passed, a moving
/// arm is at the move's target and rests there with its pen state, whether
/// or not operations were cancelled meanwhile.
pub proof fn lemma_move_runs_to_target(m: Movement, pen: PenState, now: Instant)
    requires
        m.finished_at(now),
    ensures
        State::Moving(m, pen).next(now) == State::Resting(m.target_point(), pen),
        State::Moving(m, pen).position(now) == (m.target_point().x.raw(), m.target_point().y.raw()),
        State::Resting(m.target_point(), pen).next(now) == State::Resting(m.target_point(), pen),
{
}

/// What the arm is doing.
#[derive(Clone, Copy, Debug, PartialEq, Eq, Structural)]
pub enum State {
    /// Still at a point, pen up or down.
    Resting(Point, PenState),
    /// Moving along a line, pen up or down.
    Moving(Movement, PenState),
    /// Raising or lowering the pen at a point: the state it goes to, and
    /// when it gets there.
    Lifting(Point, PenState, Instant),
}

impl State {
    /// The state after time has advanced to `now`.
    pub open spec fn next(self, now: Instant) -> State {
        match self {
            State::Resting(..) => self,
            State::Moving(m, pen) => if m.finished_at(now) {
                State::Resting(m.target_point(), pen)
            } else {
                self
            },
            State::Lifting(p, pen, until) => if now.ticks >= until.ticks {
                State::Resting(p, pen)
            } else {
                self
            },
        }
    }

    /// Raw coordinates of the hand at `now`.
    pub open spec fn position(self, now: Instant) -> (int, int) {
        match self {
            State::Resting(p, _) => (p.x.raw(), p.y.raw()),
            State::Moving(m, _) => if m.finished_at(now) {
                (m.target_point().x.raw(), m.target_point().y.raw())
            } else {
                m.position_at(now)
            },
            State::Lifting(p, _, _) => (p.x.raw(), p.y.raw()),
        }
    }

    /// Advances the state to `now`, returning where the hand is.
    pub fn update(&mut self, now: Instant) -> (r: Point)
        ensures
            *final(self) == old(self).next(now),
            (r.x.raw(), r.y.raw()) == old(self).position(now),
    {
        match *self {
            State::Resting(pos, _) => pos,
            State::Moving(movement, pen) => {
                if movement.is_finished(now) {
                    let ret = movement.target();
                    *self = State::Resting(ret, pen);
                    ret
                } else {
                    movement.interpolate(now)
                }
            },
            State::Lifting(pos, pen, until) => {
                if now.ticks >= until.ticks {
                    *self = State::Resting(pos, pen);
                }
                pos
            },
        }
    }

    pub fn is_resting(&self) -> (r: bool)
        ensures
            r == self is Resting,
    {
        match self {
            State::Resting(..) => true,
            _ => false,
        }
    }
}

/// Why a command to the arm was refused.
#[derive(Clone, Copy, Debug, PartialEq, Eq, Structural)]
pub enum MoveError {
    /// The arm is moving or lifting the pen.
    Busy,
    /// The target is outside the workspace, or too far to time.
    OutOfRange,
}

/// Whole milliseconds to travel from `from` to `(x, y)` at the arm's speed:
/// the distance is the CORDIC square root of `dx² + dy²`. `None` where that
/// square is out of the root's domain or the time comes out negative.
pub open spec fn travel_millis(from: Point, x: int, y: int) -> Option<int> {
    let dx = fx_sub(x, from.x.raw());
    let dy = fx_sub(y, from.y.raw());
    let sq = fx_add(fx_mul(dx, dx), fx_mul(dy, dy));
    if !(0 <= sq <= SQRT_MAX_BITS) {
        None
    } else {
        Some(fx_mul_int(fx_div(sqrt_of(sq), SPEED_BITS as int), 1000) / 4096)
    }
}

/// The squared distance from `from` to `(x, y)`, raw and without wrapping.
pub open spec fn square_distance(from: Point, x: int, y: int) -> int {
    let dx = x - from.x.raw();
    let dy = y - from.y.raw();
    dx * dx / 4096 + dy * dy / 4096
}

proof fn lemma_exact_square(d: int)
    requires
        0 <= d * d / 4096 <= SQRT_MAX_BITS,
    ensures
        wrap(d) == d,
        fx_mul(d, d) == d * d / 4096,
{
    assert(-0x20_0000 < d < 0x20_0000) by (nonlinear_arith)
        requires
            d * d / 4096 <= 0x3fff_ffff,
    {
        if d >= 0x20_0000 || d <= -0x20_0000 {
            assert(d * d >= 0x200_0000_0000);
        }
    }
    lemma_wrap_in_range(d);
    lemma_wrap_in_range(d * d / 4096);
}

/// Where the distance fits the root's domain, the travel can be timed.
proof fn lemma_short_travel_is_timed(from: Point, x: int, y: int)
    requires
        i32::MIN <= x <= i32::MAX,
        i32::MIN <= y <= i32::MAX,
        square_distance(from, x, y) <= SQRT_MAX_BITS,
    ensures
        ({
            let dx = fx_sub(x, from.x.raw());
            let dy = fx_sub(y, from.y.raw());
            let sq = fx_add(fx_mul(dx, dx), fx_mul(dy, dy));
            0 <= sq <= SQRT_MAX_BITS
        }),
{
    let dx = x - from.x.raw();
    let dy = y - from.y.raw();
    assert(dx * dx >= 0) by (nonlinear_arith);
    assert(dy * dy >= 0) by (nonlinear_arith);
    vstd::arithmetic::div_mod::lemma_div_pos_is_pos(dx * dx, 4096);
    vstd::arithmetic::div_mod::lemma_div_pos_is_pos(dy * dy, 4096);
    lemma_exact_square(dx);
    lemma_exact_square(dy);
    lemma_wrap_in_range(square_distance(from, x, y));
}

/// The state after a command to move to `(x, y)` at `now`: from rest, a
/// move to the target timed by [`travel_millis`], where the target is in the
/// workspace and the travel can be timed; otherwise unchanged.
pub open spec fn moved(s: State, cfg: Config, now: Instant, x: Fixed, y: Fixed) -> State {
    match s {
        State::Resting(p, pen) => if cfg.contains(x.raw(), y.raw()) {
            match travel_millis(p, x.raw(), y.raw()) {
                Some(ms) => State::Moving(
                    Movement::planned(p, Point { x, y }, now, Duration { ticks: (ms * 1000) as u64 }),
                    pen,
                ),
                None => s,
            }
        } else {
            s
        },
        _ => s,
    }
}

/// The state after a command to bring the pen to `target` at `now`: from
/// rest with the pen elsewhere, a lift that ends `lift_millis` later;
/// otherwise unchanged.
pub open spec fn lifted(s: State, now: Instant, target: PenState, lift_millis: u32) -> State {
    match s {
        State::Resting(p, pen) => if pen != target {
            State::Lifting(p, target, Instant { ticks: (now.ticks + lift_millis * 1000) as u64 })
        } else {
            s
        },
        _ => s,
    }
}

/// A pen plotter arm: its geometry and what it is doing.
#[derive(Clone, Copy, Debug)]
pub struct Brachiograph {
    config: Config,
    state: State,
    /// Time the pen servo takes to rise or fall, in milliseconds.
    lift_millis: u32,
}

impl Brachiograph {
    pub closed spec fn lift_millis_of(self) -> u32 {
        self.lift_millis
    }

    pub closed spec fn state_of(self) -> State {
        self.state
    }

    pub closed spec fn config_of(self) -> Config {
        self.config
    }

    /// The pen state reported at `now`: while lifting, the new state from
    /// halfway through the lift time on.
    pub open spec fn pen_at(self, now: Instant) -> PenState {
        match self.state_of() {
            State::Resting(_, pen) => pen,
            State::Moving(_, pen) => pen,
            State::Lifting(_, pen, until) => if now.ticks + self.lift_millis_of() * 500 >= until.ticks {
                pen
            } else {
                match pen {
                    PenState::Up => PenState::Down,
                    PenState::Down => PenState::Up,
                }
            },
        }
    }

    /// An arm with the default geometry, resting at `(x, y)` with the pen up.
    pub fn new(x: Fixed, y: Fixed) -> (r: Brachiograph)
        ensures
            r.state_of() == State::Resting(Point { x, y }, PenState::Up),
            r.config_of() == Config::default_spec(),
            r.lift_millis_of() == LIFT_MILLIS,
    {
        Brachiograph {
            config: Config::default(),
            state: State::Resting(Point { x, y }, PenState::Up),
            lift_millis: LIFT_MILLIS,
        }
    }

    /// Sets the time that later pen lifts take.
    pub fn set_lift_millis(&mut self, ms: u32)
        ensures
            final(self).lift_millis_of() == ms,
            final(self).state_of() == old(self).state_of(),
            final(self).config_of() == old(self).config_of(),
    {
        self.lift_millis = ms;
    }

    pub fn config(&self) -> (r: &Config)
        ensures
            *r == self.config_of(),
    {
        &self.config
    }

    pub fn state(&self) -> (r: State)
        ensures
            r == self.state_of(),
    {
        self.state
    }

    pub fn is_resting(&self) -> (r: bool)
        ensures
            r == self.state_of() is Resting,
    {
        self.state.is_resting()
    }

    /// Where the arm rests and its pen state, if it is resting.
    pub fn resting(&self) -> (r: Option<(Point, PenState)>)
        ensures
            match self.state_of() {
                State::Resting(p, pen) => r == Some((p, pen)),
                _ => r.is_none(),
            },
    {
        match self.state {
            State::Resting(p, pen) => Some((p, pen)),
            _ => None,
        }
    }

    /// The pen state reported at `now`.
    pub fn pen(&self, now: Instant) -> (r: PenState)
        requires
            now.ticks <= MAX_TICKS,
        ensures
            r == self.pen_at(now),
    {
        match self.state {
            State::Resting(_, pen) => pen,
            State::Moving(_, pen) => pen,
            State::Lifting(_, pen, until) => {
                if now.ticks + self.lift_millis as u64 * 500 >= until.ticks {
                    pen
                } else {
                    pen.not()
                }
            },
        }
    }

    /// Whether the pen is reported down at `now`.
    pub fn is_pen_down(&self, now: Instant) -> (r: bool)
        requires
            now.ticks <= MAX_TICKS,
        ensures
            r == (self.pen_at(now) == PenState::Down),
    {
        self.pen(now) == PenState::Down
    }

    /// Advances to `now` and returns the joint angles for the hand's
    /// position, or an error where [`Config::at_coord`] gives one.
    pub fn update(&mut self, now: Instant) -> (r: Result<Angles, ()>)
        ensures
            final(self).state_of() == old(self).state_of().next(now),
            final(self).config_of() == old(self).config_of(),
            final(self).lift_millis_of() == old(self).lift_millis_of(),
            ({
                let (x, y) = old(self).state_of().position(now);
                match old(self).config_of().inverse(x, y) {
                    None => r.is_err(),
                    Some(a) => r.is_ok() && r.unwrap().shoulder.deg() == a.0
                        && r.unwrap().elbow.deg() == a.1,
                }
            }),
    {
        let pos = self.state.update(now);
        self.config.at_coord(pos.x, pos.y)
    }

    /// Starts a move to `(x, y)` from the resting position, taking the
    /// distance over the arm's speed. Refused unless resting, and where the
    /// target is outside the workspace or the travel cannot be timed.
    pub fn move_to(&mut self, now: Instant, x: Fixed, y: Fixed) -> (r: Result<(), MoveError>)
        requires
            now.ticks <= MAX_TICKS,
        ensures
            final(self).config_of() == old(self).config_of(),
            final(self).lift_millis_of() == old(self).lift_millis_of(),
            final(self).state_of() == moved(old(self).state_of(), old(self).config_of(), now, x, y),
            ({
                let dx = fx_sub(x.raw(), old(self).state_of()->Resting_0.x.raw());
                let dy = fx_sub(y.raw(), old(self).state_of()->Resting_0.y.raw());
                let sq = fx_add(fx_mul(dx, dx), fx_mul(dy, dy));
                (old(self).state_of() is Resting && old(self).config_of().contains(x.raw(), y.raw())
                    && 0 <= sq <= SQRT_MAX_BITS) ==> r is Ok
            }),
            (old(self).state_of() is Resting && old(self).config_of().contains(x.raw(), y.raw())
                && square_distance(old(self).state_of()->Resting_0, x.raw(), y.raw())
                <= SQRT_MAX_BITS) ==> r is Ok,
            match old(self).state_of() {
                State::Resting(p, pen) => {
                    if !old(self).config_of().contains(x.raw(), y.raw()) {
                        r == Err::<(), MoveError>(MoveError::OutOfRange) && *final(self) == *old(self)
                    } else {
                        match travel_millis(p, x.raw(), y.raw()) {
                            None => r == Err::<(), MoveError>(MoveError::OutOfRange) && *final(self) == *old(self),
                            Some(ms) => {
                                &&& r == Ok::<(), MoveError>(())
                                &&& final(self).state_of() matches State::Moving(m, pen2)
                                &&& pen2 == pen
                                &&& m.init_point() == p
                                &&& m.target_point() == (Point { x, y })
                                &&& m.start_time() == now
                                &&& m.duration().ticks == ms * 1000
                            },
                        }
                    }
                },
                _ => r == Err::<(), MoveError>(MoveError::Busy) && *final(self) == *old(self),
            },
    {
        let (init, pen) = match self.state {
            State::Resting(p, pen) => {
                proof {
                    if square_distance(p, x.raw(), y.raw()) <= SQRT_MAX_BITS {
                        lemma_short_travel_is_timed(p, x.raw(), y.raw());
                    }
                }
                (p, pen)
            },
            _ => {
                return Err(MoveError::Busy);
            },
        };
        if !self.config.coord_is_valid(x, y) {
            return Err(MoveError::OutOfRange);
        }
        let dx = x.wrapping_sub(init.x);
        let dy = y.wrapping_sub(init.y);
        let sq = dx.wrapping_mul(dx).wrapping_add(dy.wrapping_mul(dy));
        if sq.bits < 0 || sq.bits > SQRT_MAX_BITS {
            return Err(MoveError::OutOfRange);
        }
        let root = sqrt(sq);
        proof {
            let r = root.raw();
            assert(r < 0x20_0000) by (nonlinear_arith)
                requires
                    0 <= r,
                    (r * r) / 4096 <= 0x3fff_ffff,
            {
                if r >= 0x20_0000 {
                    assert(r * r >= 0x200_0000_0000);
                }
            }
            let q = (r * 4096) / 16384;
            assert(crate::fixed_point::trunc_div(r * 4096, SPEED_BITS as int) == q);
            assert(0 <= r * 4096 <= r * 16384) by (nonlinear_arith)
                requires
                    0 <= r,
            ;
            vstd::arithmetic::div_mod::lemma_div_pos_is_pos(r * 4096, 16384);
            vstd::arithmetic::div_mod::lemma_div_is_ordered(r * 4096, r * 16384, 16384);
            vstd::arithmetic::div_mod::lemma_div_multiples_vanish(r, 16384);
            lemma_wrap_in_range(q);
            lemma_wrap_in_range(q * 1000);
            vstd::arithmetic::div_mod::lemma_div_pos_is_pos(q * 1000, 4096);
        }
        let seconds = root.wrapping_div(Fixed::from_bits(SPEED_BITS));
        let ms = seconds.wrapping_mul_int(1000);
        let ms = ms.floor_int() as u64;
        let mov = Movement::new(init, Point { x, y }, now, Duration::millis(ms));
        self.state = State::Moving(mov, pen);
        Ok(())
    }

    /// Starts a lift of the pen to `target`, which takes the lift time; a pen
    /// already there is left alone. Refused unless resting.
    fn lift(&mut self, now: Instant, target: PenState) -> (r: Result<(), MoveError>)
        requires
            now.ticks <= MAX_TICKS,
        ensures
            final(self).config_of() == old(self).config_of(),
            final(self).lift_millis_of() == old(self).lift_millis_of(),
            final(self).state_of() == lifted(old(self).state_of(), now, target, old(self).lift_millis_of()),
            match old(self).state_of() {
                State::Resting(p, pen) => {
                    &&& r == Ok::<(), MoveError>(())
                    &&& pen == target ==> *final(self) == *old(self)
                    &&& pen != target ==> final(self).state_of() == State::Lifting(
                        p,
                        target,
                        Instant { ticks: (now.ticks + old(self).lift_millis_of() * 1000) as u64 },
                    )
                },
                _ => r == Err::<(), MoveError>(MoveError::Busy) && *final(self) == *old(self),
            },
    {
        match self.state {
            State::Resting(p, pen) => {
                if pen != target {
                    self.state = State::Lifting(p, target, now.plus(Duration::millis(self.lift_millis as u64)));
                }
                Ok(())
            },
            _ => Err(MoveError::Busy),
        }
    }

    /// Raises the pen. Refused unless resting.
    pub fn pen_up(&mut self, now: Instant) -> (r: Result<(), MoveError>)
        requires
            now.ticks <= MAX_TICKS,
        ensures
            final(self).config_of() == old(self).config_of(),
            final(self).lift_millis_of() == old(self).lift_millis_of(),
            final(self).state_of() == lifted(old(self).state_of(), now, PenState::Up, old(self).lift_millis_of()),
            match old(self).state_of() {
                State::Resting(p, pen) => {
                    &&& r == Ok::<(), MoveError>(())
                    &&& pen == PenState::Up ==> *final(self) == *old(self)
                    &&& pen == PenState::Down ==> final(self).state_of() == State::Lifting(
                        p,
                        PenState::Up,
                        Instant { ticks: (now.ticks + old(self).lift_millis_of() * 1000) as u64 },
                    )
                },
                _ => r == Err::<(), MoveError>(MoveError::Busy) && *final(self) == *old(self),
            },
    {
        self.lift(now, PenState::Up)
    }

    /// Lowers the pen. Refused unless resting.
    pub fn pen_down(&mut self, now: Instant) -> (r: Result<(), MoveError>)
        requires
            now.ticks <= MAX_TICKS,
        ensures
            final(self).config_of() == old(self).config_of(),
            final(self).lift_millis_of() == old(self).lift_millis_of(),
            final(self).state_of() == lifted(old(self).state_of(), now, PenState::Down, old(self).lift_millis_of()),
            match old(self).state_of() {
                State::Resting(p, pen) => {
                    &&& r == Ok::<(), MoveError>(())
                    &&& pen == PenState::Down ==> *final(self) == *old(self)
                    &&& pen == PenState::Up ==> final(self).state_of() == State::Lifting(
                        p,
                        PenState::Down,
                        Instant { ticks: (now.ticks + old(self).lift_millis_of() * 1000) as u64 },
                    )
                },
                _ => r == Err::<(), MoveError>(MoveError::Busy) && *final(self) == *old(self),
            },
    {
        self.lift(now, PenState::Down)
    }
}

} // verus!
