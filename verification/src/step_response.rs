//! The sizes of a step-response estimate.
//!
//! The response of a control loop to a step is estimated from two series of
//! one flight, what was asked for and what was measured: both are
//! transformed, the quotient of the transforms is transformed back into an
//! impulse response, and its running sum, divided by its mean, is the step
//! response. The first half second of it is kept. Here is what of this is
//! counting: how long each stage is, and when there is nothing to estimate.
//!
//! A transform of `n` real samples has `n / 2 + 1` bins, and the transform
//! back of those bins has `n` samples again: the impulse response is as long
//! as the series it was estimated from.
use vstd::prelude::*;

verus! {

/// The lengths of the stages of one estimate.
#[derive(Clone, Copy, PartialEq, Eq, Debug, Structural)]
pub struct StepResponsePlan {
    /// The number of bins of the quotient of the two transforms.
    pub spectrum_len: usize,
    /// The number of samples of the impulse response, and of its running sum
    /// whose mean the response is divided by.
    pub impulse_len: usize,
    /// The number of points of the curve.
    pub curve_len: usize,
}

/// The smaller of two numbers.
pub open spec fn least(a: int, b: int) -> int {
    if a <= b {
        a
    } else {
        b
    }
}

/// The plan for series of these lengths, of which `keep` samples are to be
/// kept; none where one of the two series is empty.
pub open spec fn planned(times_len: usize, setpoint_len: usize, measured_len: usize, keep: usize)
    -> Option<StepResponsePlan> {
    if setpoint_len == 0 || measured_len == 0 {
        None
    } else {
        let samples = least(setpoint_len as int, measured_len as int);
        Some(
            StepResponsePlan {
                spectrum_len: (samples / 2 + 1) as usize,
                impulse_len: samples as usize,
                curve_len: least(times_len as int, least(samples, keep as int)) as usize,
            },
        )
    }
}

/// Plans an estimate from a series of `setpoint_len` samples asked for and
/// `measured_len` samples measured, at `times_len` times, of which the first
/// `keep` samples are wanted: half the sample rate, for half a second.
///
/// With either series empty there is nothing to estimate and the curve is
/// empty: the result is `None`. Otherwise the estimate is made over as many
/// samples as the shorter series has: the quotient of the transforms has
/// half as many bins and one, the impulse response has as many samples as
/// that series, and the curve has a point for each of its first `keep`
/// samples that has a time.
pub fn plan_step_response(
    times_len: usize,
    setpoint_len: usize,
    measured_len: usize,
    keep: usize,
) -> (plan: Option<StepResponsePlan>)
    ensures
        plan == planned(times_len, setpoint_len, measured_len, keep),
        plan matches Some(p) ==> p.curve_len <= times_len && p.curve_len <= keep && p.curve_len
            <= p.impulse_len && p.spectrum_len == p.impulse_len / 2 + 1 && p.impulse_len > 0,
        times_len == 0 ==> (plan matches Some(p) ==> p.curve_len == 0),
{
    if setpoint_len == 0 || measured_len == 0 {
        return None;
    }
    let impulse_len = if setpoint_len <= measured_len {
        setpoint_len
    } else {
        measured_len
    };
    let spectrum_len = impulse_len / 2 + 1;
    let kept = if impulse_len <= keep {
        impulse_len
    } else {
        keep
    };
    let curve_len = if times_len <= kept {
        times_len
    } else {
        kept
    };
    Some(StepResponsePlan { spectrum_len, impulse_len, curve_len })
}

/// The impulse response is as long as a series that is transformed and
/// transformed back: where both series have `len` samples, so has it.
pub proof fn law_impulse_is_as_long_as_the_series(times_len: usize, len: usize, keep: usize)
    requires
        len > 0,
    ensures
        planned(times_len, len, len, keep) is Some,
        planned(times_len, len, len, keep)->0.impulse_len == len,
        planned(times_len, len, len, keep)->0.spectrum_len == len / 2 + 1,
{
}

/// An empty series gives no plan, whatever the other lengths are: the curve
/// of such a flight is empty.
pub proof fn law_empty_series_gives_no_plan(times_len: usize, other_len: usize, keep: usize)
    ensures
        planned(times_len, 0, other_len, keep) is None,
        planned(times_len, other_len, 0, keep) is None,
{
}

} // verus!
