//! Exponential smoothing of utilisation readings in fixed-point arithmetic.

use vstd::prelude::*;

verus! {

/// The smoothing factor that stands for 1: the observation alone counts.
pub const ALPHA_SCALE: u32 = 1000;

/// The smoothing factor applied to processor readings, four tenths.
pub const ALPHA: u32 = 400;

/// A smoothing factor lies above zero and at most at one.
pub open spec fn valid_alpha(alpha: u32) -> bool {
    0 < alpha <= ALPHA_SCALE
}

/// The weighted mean of an observation, with weight `alpha`, and the previous
/// average, with the remaining weight, rounded down to a whole unit.
pub open spec fn blend(previous: int, observation: int, alpha: int) -> int {
    (observation * alpha + previous * (ALPHA_SCALE - alpha)) / (ALPHA_SCALE as int)
}

/// The average after an observation: the observation itself when there was no
/// average before, the blend of the two otherwise.
pub open spec fn next_average(previous: Option<u32>, observation: u32, alpha: u32) -> int {
    match previous {
        None => observation as int,
        Some(p) => blend(p as int, observation as int, alpha as int),
    }
}

/// A blend lies between the previous average and the observation, and is the
/// observation when the factor is one.
pub proof fn lemma_blend_between(previous: int, observation: int, alpha: int)
    requires
        0 <= alpha <= ALPHA_SCALE,
    ensures
        previous <= observation ==> previous <= blend(previous, observation, alpha) <= observation,
        observation <= previous ==> observation <= blend(previous, observation, alpha) <= previous,
        alpha == ALPHA_SCALE ==> blend(previous, observation, alpha) == observation,
{
    let s = ALPHA_SCALE as int;
    let total = observation * alpha + previous * (s - alpha);
    assert(previous * alpha + previous * (s - alpha) == previous * s) by (nonlinear_arith);
    assert(observation * alpha + observation * (s - alpha) == observation * s) by (nonlinear_arith);
    if previous <= observation {
        assert(previous * alpha <= observation * alpha) by (nonlinear_arith)
            requires
                previous <= observation,
                0 <= alpha,
        ;
        assert(previous * (s - alpha) <= observation * (s - alpha)) by (nonlinear_arith)
            requires
                previous <= observation,
                0 <= s - alpha,
        ;
        assert(previous * s <= total <= observation * s);
    }
    if observation <= previous {
        assert(observation * alpha <= previous * alpha) by (nonlinear_arith)
            requires
                observation <= previous,
                0 <= alpha,
        ;
        assert(observation * (s - alpha) <= previous * (s - alpha)) by (nonlinear_arith)
            requires
                observation <= previous,
                0 <= s - alpha,
        ;
        assert(observation * s <= total <= previous * s);
    }
    if alpha == s {
        assert(previous * (s - alpha) == 0) by (nonlinear_arith)
            requires
                s - alpha == 0,
        ;
        assert(total == observation * s);
    }
    assert(previous * s <= total ==> previous <= total / s) by (nonlinear_arith)
        requires
            s == 1000,
    ;
    assert(total <= previous * s ==> total / s <= previous) by (nonlinear_arith)
        requires
            s == 1000,
    ;
    assert(observation * s <= total ==> observation <= total / s) by (nonlinear_arith)
        requires
            s == 1000,
    ;
    assert(total <= observation * s ==> total / s <= observation) by (nonlinear_arith)
        requires
            s == 1000,
    ;
}

/// Blends a new reading into the previous average.
pub fn calculate_exponential_moving_average(previous_ema: u32, usage: u32, alpha: u32) -> (ema: u32)
    requires
        valid_alpha(alpha),
    ensures
        ema == blend(previous_ema as int, usage as int, alpha as int),
{
    proof {
        lemma_blend_between(previous_ema as int, usage as int, alpha as int);
    }
    let scale: u64 = ALPHA_SCALE as u64;
    let weight: u64 = alpha as u64;
    assert(usage as u64 * weight <= 0xffff_ffff * 1000) by (nonlinear_arith)
        requires
            usage <= 0xffff_ffff,
            weight <= 1000,
    ;
    assert(previous_ema as u64 * (scale - weight) <= 0xffff_ffff * 1000) by (nonlinear_arith)
        requires
            previous_ema <= 0xffff_ffff,
            0 <= scale - weight <= 1000,
    ;
    let total: u64 = usage as u64 * weight + previous_ema as u64 * (scale - weight);
    (total / scale) as u32
}

/// Smooths one observation: the first observation of a series seeds the
/// average unchanged, every later one is blended into it. The factor is not
/// read on that first observation, so nothing is asked of it there.
pub fn smooth(previous: Option<u32>, observation: u32, alpha: u32) -> (ema: u32)
    requires
        previous is Some ==> valid_alpha(alpha),
    ensures
        ema == next_average(previous, observation, alpha),
        previous is None ==> ema == observation,
        previous is Some ==> ema == (observation * alpha + previous->0 * (ALPHA_SCALE - alpha))
            / (ALPHA_SCALE as int),
{
    match previous {
        Some(previous_ema) => calculate_exponential_moving_average(previous_ema, observation, alpha),
        None => observation,
    }
}

} // verus!
