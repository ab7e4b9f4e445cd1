//! Solar event times from a classical geometric solar-position algorithm.
//!
//! All quantities are fixed-point integers: one unit is 1e-9 of the carried
//! dimension (radians, degrees, days, centuries, or a dimensionless ratio).
//! Every executable function is specified against a ghost integer model of
//! the same computation, so results are pinned exactly.

pub mod angle;
pub mod events;
pub mod fixed;
pub mod julian;
pub mod solar;
pub mod trig;
