//! The controller: answers operations as they arrive and advances the arm at
//! each periodic tick.
use crate::fixed_point::Fixed;
use crate::geom::Config;
use crate::motion::{lifted, moved, Brachiograph, State, LIFT_MILLIS};
use crate::protocol::{Op, Resp};
use crate::pwm::{entries, pwm_duty, CalibratedPosition, TogglePwm};
use crate::queue::{OpQueue, QUEUE_CAPACITY};
use crate::time::{Instant, MAX_TICKS};
use crate::types::{shifted_position, PenState, Point, ServoPosition};
use vstd::prelude::*;

verus! {

/// Whether an operation takes physical time, and so waits in the queue.
pub open spec fn is_slow(op: Op) -> bool {
    op is MoveTo || op is PenUp || op is PenDown || op is ChangePosition
}

/// Whether an operation moves the arm by position, which raw control rules out.
pub open spec fn is_positional(op: Op) -> bool {
    op is MoveTo || op is PenUp || op is PenDown
}

/// The arm, its queue of waiting operations, its calibration and the pulse
/// widths last written to the servos.
pub struct Controller {
    brachio: Brachiograph,
    queue: OpQueue,
    calib: CalibratedPosition,
    servos: ServoPosition,
    /// Set once the servos have been driven by raw pulse widths; moves and
    /// pen changes are then refused.
    raw: bool,
}

impl Controller {
    pub closed spec fn arm(&self) -> Brachiograph {
        self.brachio
    }

    pub closed spec fn pending(&self) -> Seq<Op> {
        self.queue.items()
    }

    pub closed spec fn servo_position(&self) -> ServoPosition {
        self.servos
    }

    pub closed spec fn calibration(&self) -> CalibratedPosition {
        self.calib
    }

    pub closed spec fn is_raw(&self) -> bool {
        self.raw
    }

    /// Only slow operations wait in the queue.
    pub closed spec fn wf(&self) -> bool {
        forall|i: int| 0 <= i < self.queue.items().len() ==> is_slow(#[trigger] self.queue.items()[i])
    }

    /// A controller for an arm resting at `(x, y)` with the pen up, the
    /// default calibration and an empty queue. The servos start at the
    /// widths for that position where it has joint angles, which become the
    /// last commanded ones; elsewhere the shoulder and elbow start at zero.
    pub fn new(x: Fixed, y: Fixed) -> (r: Controller)
        ensures
            r.wf(),
            r.pending() == Seq::<Op>::empty(),
            !r.is_raw(),
            r.arm().state_of() == State::Resting(Point { x, y }, PenState::Up),
            r.arm().config_of() == Config::default_spec(),
            r.arm().lift_millis_of() == LIFT_MILLIS,
            entries(r.calibration().calib.shoulder.inc) == seq![(-45i16, 1167u16), (120i16, 250u16)],
            entries(r.calibration().calib.shoulder.dec) == seq![(-45i16, 1167u16), (120i16, 250u16)],
            entries(r.calibration().calib.elbow.inc) == seq![(-60i16, 2167u16), (75i16, 833u16)],
            entries(r.calibration().calib.elbow.dec) == seq![(-60i16, 2167u16), (75i16, 833u16)],
            r.calibration().calib.pen == (TogglePwm { on: 1250, off: 750 }),
            r.servo_position().pen == 750,
            match Config::default_spec().inverse(x.raw(), y.raw()) {
                Some(a) => {
                    &&& r.servo_position().shoulder == pwm_duty(r.calibration().calib.shoulder, 0, a.0)
                    &&& r.servo_position().elbow == pwm_duty(r.calibration().calib.elbow, 0, a.1)
                    &&& r.calibration().last_angles.shoulder.deg() == a.0
                    &&& r.calibration().last_angles.elbow.deg() == a.1
                },
                None => {
                    &&& r.servo_position().shoulder == 0
                    &&& r.servo_position().elbow == 0
                    &&& r.calibration().last_angles.shoulder.deg() == 0
                    &&& r.calibration().last_angles.elbow.deg() == 0
                },
            },
    {
        let mut brachio = Brachiograph::new(x, y);
        let mut calib = CalibratedPosition::default();
        let now = Instant::from_ticks(0);
        let pen = brachio.pen(now);
        let servos = match brachio.update(now) {
            Ok(angles) => calib.update(angles, pen),
            Err(()) => ServoPosition { shoulder: 0, elbow: 0, pen: calib.calib.pen.duty(pen) },
        };
        Controller { brachio, queue: OpQueue::new(), calib, servos, raw: false }
    }

    /// The pulse widths last written to the servos.
    pub fn servos(&self) -> (r: ServoPosition)
        ensures
            r == self.servo_position(),
    {
        self.servos
    }

    pub fn queue_len(&self) -> (r: usize)
        ensures
            r == self.pending().len(),
    {
        self.queue.len()
    }

    pub fn arm_state(&self) -> (r: State)
        ensures
            r == self.arm().state_of(),
    {
        self.brachio.state()
    }

    /// Handles one received operation and returns the response. Cancel
    /// empties the queue; Calibrate replaces a table; GetPosition reports
    /// the servos. Slow operations are queued, or refused with QueueFull
    /// when the queue is full; moves and pen changes under raw control, and
    /// moves outside the workspace, are refused with Nack.
    pub fn dispatch(&mut self, op: Op) -> (r: Resp)
        requires
            old(self).wf(),
        ensures
            final(self).wf(),
            match op {
                Op::Cancel => {
                    &&& r == Resp::Ack
                    &&& final(self).pending() == Seq::<Op>::empty()
                    &&& final(self).arm() == old(self).arm()
                    &&& final(self).servo_position() == old(self).servo_position()
                    &&& final(self).is_raw() == old(self).is_raw()
                },
                Op::Calibrate(j, d, c) => {
                    &&& r == Resp::Ack
                    &&& final(self).pending() == old(self).pending()
                    &&& final(self).arm() == old(self).arm()
                    &&& final(self).calibration().last_angles == old(self).calibration().last_angles
                    &&& (j == crate::types::Joint::Shoulder && d == crate::types::Direction::Increasing)
                        ==> entries(final(self).calibration().calib.shoulder.inc) == entries(c.data)
                    &&& (j == crate::types::Joint::Shoulder && d == crate::types::Direction::Decreasing)
                        ==> entries(final(self).calibration().calib.shoulder.dec) == entries(c.data)
                    &&& (j == crate::types::Joint::Elbow && d == crate::types::Direction::Increasing)
                        ==> entries(final(self).calibration().calib.elbow.inc) == entries(c.data)
                    &&& (j == crate::types::Joint::Elbow && d == crate::types::Direction::Decreasing)
                        ==> entries(final(self).calibration().calib.elbow.dec) == entries(c.data)
                },
                Op::GetPosition => {
                    &&& r == Resp::CurPosition(old(self).servo_position())
                    &&& final(self).pending() == old(self).pending()
                    &&& final(self).arm() == old(self).arm()
                },
                _ => {
                    &&& final(self).arm() == old(self).arm()
                    &&& final(self).is_raw() == old(self).is_raw()
                    &&& final(self).servo_position() == old(self).servo_position()
                    &&& if (old(self).is_raw() && is_positional(op)) || (op matches Op::MoveTo(p)
                        && !old(self).arm().config_of().contains(p.x.raw(), p.y.raw())) {
                        r == Resp::Nack && final(self).pending() == old(self).pending()
                    } else if old(self).pending().len() >= QUEUE_CAPACITY {
                        r == Resp::QueueFull && final(self).pending() == old(self).pending()
                    } else {
                        r == Resp::Ack && final(self).pending() == old(self).pending().push(op)
                    }
                },
            },
    {
        match op {
            Op::Cancel => {
                self.queue.clear();
                Resp::Ack
            },
            Op::Calibrate(joint, dir, table) => {
                self.calib.change_calibration(joint, dir, table.data);
                Resp::Ack
            },
            Op::GetPosition => Resp::CurPosition(self.servos),
            op => {
                if self.raw && !matches!(op, Op::ChangePosition(_)) {
                    return Resp::Nack;
                }
                if let Op::MoveTo(p) = &op {
                    if !self.brachio.config().coord_is_valid(p.x, p.y) {
                        return Resp::Nack;
                    }
                }
                let ghost before = self.queue.items();
                match self.queue.enqueue(op) {
                    Ok(()) => {
                        proof {
                            assert forall|i: int| 0 <= i < self.queue.items().len() implies is_slow(
                                #[trigger] self.queue.items()[i],
                            ) by {
                                if i < before.len() {
                                    assert(self.queue.items()[i] == before[i]);
                                }
                            }
                        }
                        Resp::Ack
                    },
                    Err(_) => Resp::QueueFull,
                }
            },
        }
    }

    /// One periodic step at `now`. Under raw control, the oldest queued
    /// operation is taken: a raw position change is applied to the servos,
    /// anything else is dropped. Otherwise the arm advances, the servo
    /// widths are computed for its position and pen (the shoulder and elbow
    /// widths are kept where the position has no joint angles), and, when
    /// the arm rests, the oldest queued operation is started; a raw position
    /// change then puts the servos under raw control.
    pub fn tick(&mut self, now: Instant) -> (r: ServoPosition)
        requires
            old(self).wf(),
            now.ticks <= MAX_TICKS,
        ensures
            final(self).wf(),
            r == final(self).servo_position(),
            final(self).arm().config_of() == old(self).arm().config_of(),
            old(self).is_raw() ==> {
                &&& final(self).is_raw()
                &&& final(self).arm() == old(self).arm()
                &&& old(self).pending().len() == 0 ==> final(self).pending() == old(self).pending()
                    && r == old(self).servo_position()
                &&& old(self).pending().len() > 0 ==> {
                    &&& final(self).pending() == old(self).pending().drop_first()
                    &&& r == match old(self).pending()[0] {
                        Op::ChangePosition(d) => shifted_position(old(self).servo_position(), d),
                        _ => old(self).servo_position(),
                    }
                }
            },
            !old(self).is_raw() ==> ({
                let advanced = old(self).arm().state_of().next(now);
                let widths = tick_widths(*old(self), now);
                let starts = advanced is Resting && old(self).pending().len() > 0;
                &&& !starts ==> {
                    &&& final(self).pending() == old(self).pending()
                    &&& final(self).arm().state_of() == advanced
                    &&& !final(self).is_raw()
                    &&& r == widths
                }
                &&& starts ==> {
                    let op = old(self).pending()[0];
                    &&& final(self).pending() == old(self).pending().drop_first()
                    &&& final(self).arm().state_of() == match op {
                        Op::MoveTo(p) => moved(advanced, old(self).arm().config_of(), now, p.x, p.y),
                        Op::PenUp => lifted(advanced, now, PenState::Up, old(self).arm().lift_millis_of()),
                        Op::PenDown => lifted(
                            advanced,
                            now,
                            PenState::Down,
                            old(self).arm().lift_millis_of(),
                        ),
                        _ => advanced,
                    }
                    &&& final(self).is_raw() == op is ChangePosition
                    &&& r == match op {
                        Op::ChangePosition(d) => shifted_position(widths, d),
                        _ => widths,
                    }
                }
            }),
    {
        if self.raw {
            let ghost before = self.queue.items();
            if let Some(Op::ChangePosition(d)) = self.queue.dequeue() {
                self.servos = self.servos.apply_delta(d);
            }
            proof {
                assert forall|i: int| 0 <= i < self.queue.items().len() implies is_slow(
                    #[trigger] self.queue.items()[i],
                ) by {
                    assert(self.queue.items()[i] == before[i + 1]);
                }
            }
            return self.servos;
        }
        let pen = self.brachio.pen(now);
        match self.brachio.update(now) {
            Ok(angles) => {
                self.servos = self.calib.update(angles, pen);
            },
            Err(()) => {
                self.servos = ServoPosition {
                    shoulder: self.servos.shoulder,
                    elbow: self.servos.elbow,
                    pen: self.calib.calib.pen.duty(pen),
                };
            },
        }
        if self.brachio.is_resting() {
            let ghost before = self.queue.items();
            match self.queue.dequeue() {
                Some(Op::MoveTo(p)) => {
                    let _ = self.brachio.move_to(now, p.x, p.y);
                },
                Some(Op::PenUp) => {
                    let _ = self.brachio.pen_up(now);
                },
                Some(Op::PenDown) => {
                    let _ = self.brachio.pen_down(now);
                },
                Some(Op::ChangePosition(d)) => {
                    self.servos = self.servos.apply_delta(d);
                    self.raw = true;
                },
                _ => {},
            }
            proof {
                assert forall|i: int| 0 <= i < self.queue.items().len() implies is_slow(
                    #[trigger] self.queue.items()[i],
                ) by {
                    assert(self.queue.items()[i] == before[i + 1]);
                }
            }
        }
        self.servos
    }
}

/// The servo widths that a tick computes, before starting any queued
/// operation: the calibrated widths for the hand's position at `now`, from
/// the last commanded angles, where that position has joint angles; else
/// the shoulder and elbow widths are kept. The pen width follows the pen
/// state reported at `now`.
pub open spec fn tick_widths(c: Controller, now: Instant) -> ServoPosition {
    let (x, y) = c.arm().state_of().position(now);
    let calib = c.calibration();
    let pen = match c.arm().pen_at(now) {
        PenState::Up => calib.calib.pen.off,
        PenState::Down => calib.calib.pen.on,
    };
    match c.arm().config_of().inverse(x, y) {
        Some(a) => ServoPosition {
            shoulder: pwm_duty(calib.calib.shoulder, calib.last_angles.shoulder.deg(), a.0) as u16,
            elbow: pwm_duty(calib.calib.elbow, calib.last_angles.elbow.deg(), a.1) as u16,
            pen,
        },
        None => ServoPosition {
            shoulder: c.servo_position().shoulder,
            elbow: c.servo_position().elbow,
            pen,
        },
    }
}

} // verus!
