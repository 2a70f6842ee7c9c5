//! A quadratic-voting governance round: a phase state machine in which
//! participants bond value to propose items, are sorted into randomized
//! buckets, cast votes weighted by the integer square root of the amount
//! they spend, and are refunded their bonds once the round resolves.

pub mod laws;
pub mod math;
pub mod pallet;
pub mod shuffle;
pub mod types;
