//! A lunar-descent simulator over checked decimal fixed-point arithmetic.
//!
//! A craft descends towards a surface under constant gravity. Every ten
//! seconds it is given a burn rate, and [`stepper::run_period`] carries that
//! command out: it advances velocity, altitude, clock and fuel in steps,
//! notices when the fuel runs out or the surface is reached, and says how
//! the period ended. [`outcome::classify`] passes the verdict on a landing.
//!
//! Every quantity (mass, time, velocity, altitude) is a [`fixed::Fixed`]: a
//! signed number with fifteen decimal places, held in 128 bits. Arithmetic
//! never wraps and never panics; an operation that forms what cannot be
//! stored yields `None`, and the simulation turns that into a
//! [`lander::Fault`] instead of carrying a meaningless number forward.
//! [`envelope`] and [`landing`] say where that cannot happen, and
//! [`accuracy`] how far the rounded results are from the exact ones.
//!
//! - [`fixed`]: the numbers and their arithmetic;
//! - [`series`]: the two mass-fraction series of the rocket equation;
//! - [`lander`]: the craft, one burn, burn times, committing a step,
//!   refining the impact;
//! - [`stepper`]: one command period;
//! - [`session`]: one craft from its first command to the surface;
//! - [`outcome`]: the verdict on a landing;
//! - [`report`]: whole-number readings for display;
//! - [`laws`]: what holds of every craft, command and step;
//! - [`accuracy`]: how far the rounded results are from the exact ones;
//! - [`envelope`]: where one step, one course and a fall succeed;
//! - [`landing`]: where a period and the refinement of an impact succeed.

pub mod fixed;
pub mod series;
pub mod lander;
pub mod outcome;
pub mod stepper;
pub mod session;
pub mod report;
pub mod laws;
pub mod accuracy;
pub mod envelope;
pub mod landing;
