//! Kinematics, servo mapping, motion planning and the command protocol of a
//! two-link pen plotter.
pub mod fixed_point;
pub mod trig;
pub mod types;
pub mod geom;
pub mod queue;
pub mod pwm;
pub mod time;
pub mod motion;
pub mod protocol;
pub mod controller;
pub mod wire;
pub mod framing;
pub mod transport;

pub use controller::Controller;
pub use fixed_point::Fixed;
pub use geom::Config;
pub use motion::{Brachiograph, MoveError, Movement, State};
pub use protocol::{Op, Resp, ServoCalibration};
pub use pwm::{CalibratedPosition, Calibration, CalibrationEntry, CalibrationTable, Pwm, TogglePwm};
pub use queue::OpQueue;
pub use time::{Duration, Instant};
pub use transport::{FrameError, FrameReader};
pub use types::{
    Angle, Angles, Delay, Direction, Joint, PenState, Point, Position, ServoPosition,
    ServoPositionDelta,
};
pub mod calibration;
pub mod turtle;
