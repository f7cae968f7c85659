//! Frame-blending helpers: element-wise linear interpolation and the
//! exponential moving average that keeps successive display frames from
//! jittering.  Factors and smoothing coefficients are fractions counted in
//! units of `FRACTION_ONE`.

use vstd::prelude::*;

use crate::errors::SpectrumError;
use crate::FACTOR_LIMIT;
use crate::FRACTION_ONE;
use crate::VALUE_LIMIT;

verus! {

/// Model of one interpolation step: move from `c` toward `t` by the
/// fraction `f / FRACTION_ONE`, rounding the step toward zero, so the
/// result rounds toward `c`.
pub open spec fn lerp_val(c: int, t: int, f: int) -> int {
    if t >= c {
        c + (t - c) * f / (FRACTION_ONE as int)
    } else {
        c - (c - t) * f / (FRACTION_ONE as int)
    }
}

/// Interpolating from a value toward itself moves nowhere, whatever the
/// factor.
pub proof fn lemma_lerp_fixed_point(x: int, f: int)
    ensures
        lerp_val(x, x, f) == x,
{
    assert((x - x) * f == 0);
    vstd::arithmetic::div_mod::lemma_div_basics_1(FRACTION_ONE as int);
}

/// A factor of zero returns the current value exactly; a factor of one
/// whole unit returns the target exactly.
pub proof fn lemma_lerp_endpoints(c: int, t: int)
    ensures
        lerp_val(c, t, 0) == c,
        lerp_val(c, t, FRACTION_ONE as int) == t,
{
    vstd::arithmetic::div_mod::lemma_div_basics_1(FRACTION_ONE as int);
    if t >= c {
        vstd::arithmetic::div_mod::lemma_div_multiples_vanish(t - c, FRACTION_ONE as int);
        assert((t - c) * (FRACTION_ONE as int) == (FRACTION_ONE as int) * (t - c));
    } else {
        vstd::arithmetic::div_mod::lemma_div_multiples_vanish(c - t, FRACTION_ONE as int);
        assert((c - t) * (FRACTION_ONE as int) == (FRACTION_ONE as int) * (c - t));
    }
}

/// For factors within one whole unit a blend never overshoots: the result
/// stays between the current value and the target.
pub proof fn lemma_lerp_between(c: int, t: int, f: int)
    requires
        0 <= f <= FRACTION_ONE,
    ensures
        vstd::math::min(c, t) <= lerp_val(c, t, f) <= vstd::math::max(c, t),
{
    if t >= c {
        let step = (t - c) * f / (FRACTION_ONE as int);
        vstd::arithmetic::mul::lemma_mul_nonnegative(t - c, f);
        vstd::arithmetic::div_mod::lemma_div_pos_is_pos((t - c) * f, FRACTION_ONE as int);
        vstd::arithmetic::mul::lemma_mul_inequality(f, FRACTION_ONE as int, t - c);
        assert((t - c) * f == f * (t - c));
        assert((t - c) * (FRACTION_ONE as int) == (FRACTION_ONE as int) * (t - c));
        vstd::arithmetic::div_mod::lemma_div_is_ordered(
            (t - c) * f,
            (t - c) * (FRACTION_ONE as int),
            FRACTION_ONE as int,
        );
        vstd::arithmetic::div_mod::lemma_div_multiples_vanish(t - c, FRACTION_ONE as int);
        assert(0 <= step <= t - c);
    } else {
        let step = (c - t) * f / (FRACTION_ONE as int);
        vstd::arithmetic::mul::lemma_mul_nonnegative(c - t, f);
        vstd::arithmetic::div_mod::lemma_div_pos_is_pos((c - t) * f, FRACTION_ONE as int);
        vstd::arithmetic::mul::lemma_mul_inequality(f, FRACTION_ONE as int, c - t);
        assert((c - t) * f == f * (c - t));
        assert((c - t) * (FRACTION_ONE as int) == (FRACTION_ONE as int) * (c - t));
        vstd::arithmetic::div_mod::lemma_div_is_ordered(
            (c - t) * f,
            (c - t) * (FRACTION_ONE as int),
            FRACTION_ONE as int,
        );
        vstd::arithmetic::div_mod::lemma_div_multiples_vanish(c - t, FRACTION_ONE as int);
        assert(0 <= step <= c - t);
    }
}

/// One interpolation step on machine integers.
fn lerp_scalar(c: i64, t: i64, f: u64) -> (r: i64)
    requires
        -VALUE_LIMIT <= c <= VALUE_LIMIT,
        -VALUE_LIMIT <= t <= VALUE_LIMIT,
        f <= FACTOR_LIMIT,
    ensures
        r == lerp_val(c as int, t as int, f as int),
{
    proof {
        vstd::arithmetic::div_mod::lemma_div_pos_is_pos(
            2 * (VALUE_LIMIT as int) * (FACTOR_LIMIT as int),
            FRACTION_ONE as int,
        );
    }
    if t >= c {
        let diff: u128 = (t - c) as u128;
        proof {
            assert(diff * (f as u128) <= 2 * (VALUE_LIMIT as int) * (FACTOR_LIMIT as int))
                by (nonlinear_arith)
                requires
                    diff == t - c,
                    0 <= diff <= 2 * (VALUE_LIMIT as int),
                    0 <= f <= FACTOR_LIMIT as int,
            ;
            vstd::arithmetic::div_mod::lemma_div_is_ordered(
                (diff * (f as u128)) as int,
                2 * (VALUE_LIMIT as int) * (FACTOR_LIMIT as int),
                FRACTION_ONE as int,
            );
            vstd::arithmetic::div_mod::lemma_div_pos_is_pos(
                (diff * (f as u128)) as int,
                FRACTION_ONE as int,
            );
        }
        let step: u128 = diff * (f as u128) / (FRACTION_ONE as u128);
        c + (step as i64)
    } else {
        let diff: u128 = (c - t) as u128;
        proof {
            assert(diff * (f as u128) <= 2 * (VALUE_LIMIT as int) * (FACTOR_LIMIT as int))
                by (nonlinear_arith)
                requires
                    diff == c - t,
                    0 <= diff <= 2 * (VALUE_LIMIT as int),
                    0 <= f <= FACTOR_LIMIT as int,
            ;
            vstd::arithmetic::div_mod::lemma_div_is_ordered(
                (diff * (f as u128)) as int,
                2 * (VALUE_LIMIT as int) * (FACTOR_LIMIT as int),
                FRACTION_ONE as int,
            );
            vstd::arithmetic::div_mod::lemma_div_pos_is_pos(
                (diff * (f as u128)) as int,
                FRACTION_ONE as int,
            );
        }
        let step: u128 = diff * (f as u128) / (FRACTION_ONE as u128);
        c - (step as i64)
    }
}

/// Element-wise linear interpolation between two frames of equal length:
/// `result[i]` moves from `current[i]` toward `target[i]` by
/// `factor / FRACTION_ONE`.  Frames of different lengths are rejected with
/// `LengthMismatch`.
pub fn lerp_array(current: &Vec<i64>, target: &Vec<i64>, factor: u64) -> (r: Result<
    Vec<i64>,
    SpectrumError,
>)
    requires
        factor <= FACTOR_LIMIT,
        forall|i: int|
            0 <= i < current@.len() ==> -VALUE_LIMIT <= #[trigger] current@[i] <= VALUE_LIMIT,
        forall|i: int|
            0 <= i < target@.len() ==> -VALUE_LIMIT <= #[trigger] target@[i] <= VALUE_LIMIT,
    ensures
        r is Ok <==> current@.len() == target@.len(),
        r matches Err(e) ==> e == SpectrumError::LengthMismatch,
        r matches Ok(out) ==> out@.len() == current@.len() && (forall|i: int|
            0 <= i < out@.len() ==> #[trigger] out@[i] == lerp_val(
                current@[i] as int,
                target@[i] as int,
                factor as int,
            )),
{
    if current.len() != target.len() {
        return Err(SpectrumError::LengthMismatch);
    }
    let mut out: Vec<i64> = Vec::new();
    let mut i: usize = 0;
    while i < current.len()
        invariant
            i <= current@.len(),
            current@.len() == target@.len(),
            factor <= FACTOR_LIMIT,
            forall|k: int|
                0 <= k < current@.len() ==> -VALUE_LIMIT <= #[trigger] current@[k] <= VALUE_LIMIT,
            forall|k: int|
                0 <= k < target@.len() ==> -VALUE_LIMIT <= #[trigger] target@[k] <= VALUE_LIMIT,
            out@.len() == i,
            forall|k: int|
                0 <= k < i ==> #[trigger] out@[k] == lerp_val(
                    current@[k] as int,
                    target@[k] as int,
                    factor as int,
                ),
        decreases current@.len() - i,
    {
        let v: i64 = lerp_scalar(current[i], target[i], factor);
        out.push(v);
        i = i + 1;
    }
    Ok(out)
}

/// Exponential moving average across frames: each output element is
/// `previous[i] * smoothing + current[i] * (1 - smoothing)` on the
/// fraction scale, which is one interpolation step from `current[i]`
/// toward `previous[i]`.  An empty `previous` frame means no history
/// exists yet, and `current` is returned unchanged; otherwise frames of
/// different lengths are rejected with `LengthMismatch`.
pub fn smooth_frequency_data(current: &Vec<i64>, previous: &Vec<i64>, smoothing: u64) -> (r: Result<
    Vec<i64>,
    SpectrumError,
>)
    requires
        previous@.len() > 0 ==> smoothing <= FRACTION_ONE,
        previous@.len() > 0 ==> forall|i: int|
            0 <= i < current@.len() ==> -VALUE_LIMIT <= #[trigger] current@[i] <= VALUE_LIMIT,
        previous@.len() > 0 ==> forall|i: int|
            0 <= i < previous@.len() ==> -VALUE_LIMIT <= #[trigger] previous@[i] <= VALUE_LIMIT,
    ensures
        r is Ok <==> (previous@.len() == 0 || current@.len() == previous@.len()),
        r matches Err(e) ==> e == SpectrumError::LengthMismatch,
        previous@.len() == 0 ==> (r matches Ok(out) && out@ == current@),
        previous@.len() > 0 ==> (r matches Ok(out) ==> out@.len() == current@.len() && (forall|
            i: int,
        |
            0 <= i < out@.len() ==> #[trigger] out@[i] == lerp_val(
                current@[i] as int,
                previous@[i] as int,
                smoothing as int,
            ))),
{
    if previous.len() == 0 {
        let mut out: Vec<i64> = Vec::new();
        let mut i: usize = 0;
        while i < current.len()
            invariant
                i <= current@.len(),
                out@.len() == i,
                forall|k: int| 0 <= k < i ==> #[trigger] out@[k] == current@[k],
            decreases current@.len() - i,
        {
            let v: i64 = current[i];
            out.push(v);
            i = i + 1;
        }
        proof {
            assert(out@ =~= current@);
        }
        return Ok(out);
    }
    if current.len() != previous.len() {
        return Err(SpectrumError::LengthMismatch);
    }
    let mut out: Vec<i64> = Vec::new();
    let mut i: usize = 0;
    while i < current.len()
        invariant
            i <= current@.len(),
            current@.len() == previous@.len(),
            smoothing <= FRACTION_ONE,
            FRACTION_ONE <= FACTOR_LIMIT,
            forall|k: int|
                0 <= k < current@.len() ==> -VALUE_LIMIT <= #[trigger] current@[k] <= VALUE_LIMIT,
            forall|k: int|
                0 <= k < previous@.len() ==> -VALUE_LIMIT <= #[trigger] previous@[k] <= VALUE_LIMIT,
            out@.len() == i,
            forall|k: int|
                0 <= k < i ==> #[trigger] out@[k] == lerp_val(
                    current@[k] as int,
                    previous@[k] as int,
                    smoothing as int,
                ),
        decreases current@.len() - i,
    {
        let v: i64 = lerp_scalar(current[i], previous[i], smoothing);
        out.push(v);
        i = i + 1;
    }
    Ok(out)
}

} // verus!
