//! One tick's worth of utilisation readings.

use vstd::prelude::*;

verus! {

/// The reading of a fully busy processor: one hundred percent.
pub const FULL_USAGE: u32 = 100_000;

/// What a sampler measured at one tick: the utilisation of the whole machine
/// and of each of its processors, in the processors' fixed order.
#[derive(Debug, PartialEq, Eq)]
pub struct Sample {
    pub aggregate_usage: u32,
    pub per_unit_usage: Vec<u32>,
}

} // verus!
