//! PID controllers over any numeric type.
//!
//! A controller turns a setpoint and a feedback measurement into a correction,
//! once per tick, and keeps the history of errors that its integral and
//! derivative terms need. Three control laws are provided:
//!
//! * [`PID`]: the integral term is the sum of the last `W` errors, with an
//!   optional feed-forward on the setpoint and on the raw feedback;
//! * [`ClampedPID`]: the integral term is a running sum of all errors, which
//!   can be held between a lower and an upper bound;
//! * [`DiscretePID`]: a three-tap filter over the last three errors.
//!
//! The numeric type is the caller's: anything with a default value, `+`, `-`,
//! `*`, an order and `Copy`. Every contract is stated over the specification
//! functions that vstd attaches to those operators, so it holds for integers,
//! fixed-point types and any other type whose operators follow their
//! specification.

pub mod clamped;
pub mod discrete;
pub mod integers;
pub mod numeric;
pub mod windowed;

pub use clamped::{ClampedModel, ClampedPID};
pub use discrete::{DiscreteModel, DiscretePID};
pub use numeric::Numeric;
pub use windowed::{WindowedModel, PID};
