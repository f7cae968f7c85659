//! Normalization of decibel series for display: clamp every value into a
//! caller-chosen decibel window, then rescale the window linearly onto
//! `[0, FRACTION_ONE]`.

use vstd::prelude::*;

use crate::errors::SpectrumError;
use crate::FRACTION_ONE;

verus! {

/// `v` forced into the closed interval `[lo, hi]`.
pub open spec fn clamp_val(v: int, lo: int, hi: int) -> int {
    if v < lo {
        lo
    } else if v > hi {
        hi
    } else {
        v
    }
}

/// Model of one normalized sample: clamp into the decibel window, then
/// rescale so `min_db` maps to zero and `max_db` maps to one whole unit.
pub open spec fn normalize_val(v: int, min_db: int, max_db: int) -> int {
    (clamp_val(v, min_db, max_db) - min_db) * (FRACTION_ONE as int) / (max_db - min_db)
}

/// Normalization never reorders values: a larger input yields a normalized
/// value at least as large.
pub proof fn lemma_normalize_monotonic(a: int, b: int, min_db: int, max_db: int)
    requires
        min_db < max_db,
        a <= b,
    ensures
        normalize_val(a, min_db, max_db) <= normalize_val(b, min_db, max_db),
{
    let ca = clamp_val(a, min_db, max_db);
    let cb = clamp_val(b, min_db, max_db);
    assert(ca <= cb);
    vstd::arithmetic::mul::lemma_mul_inequality(ca - min_db, cb - min_db, FRACTION_ONE as int);
    vstd::arithmetic::div_mod::lemma_div_is_ordered(
        (ca - min_db) * (FRACTION_ONE as int),
        (cb - min_db) * (FRACTION_ONE as int),
        max_db - min_db,
    );
}

/// The edges of the decibel window map exactly onto the ends of the
/// normalized range: `min_db` to zero and `max_db` to one whole unit.
pub proof fn lemma_normalize_window_edges(min_db: int, max_db: int)
    requires
        min_db < max_db,
    ensures
        normalize_val(min_db, min_db, max_db) == 0,
        normalize_val(max_db, min_db, max_db) == FRACTION_ONE as int,
{
    vstd::arithmetic::div_mod::lemma_div_basics_1(max_db - min_db);
    vstd::arithmetic::div_mod::lemma_div_multiples_vanish(FRACTION_ONE as int, max_db - min_db);
    assert((max_db - min_db) * (FRACTION_ONE as int) == (FRACTION_ONE as int) * (max_db
        - min_db));
}

/// One normalized sample on machine integers.
fn normalize_scalar(v: i64, min_db: i64, max_db: i64) -> (r: i64)
    requires
        min_db < max_db,
    ensures
        r == normalize_val(v as int, min_db as int, max_db as int),
        0 <= r <= FRACTION_ONE,
{
    let clamped: i64 = if v < min_db {
        min_db
    } else if v > max_db {
        max_db
    } else {
        v
    };
    let num: u128 = ((clamped as i128) - (min_db as i128)) as u128;
    let den: u128 = ((max_db as i128) - (min_db as i128)) as u128;
    proof {
        vstd::arithmetic::mul::lemma_mul_inequality(num as int, den as int, FRACTION_ONE as int);
        vstd::arithmetic::div_mod::lemma_div_is_ordered(
            (num as int) * (FRACTION_ONE as int),
            (den as int) * (FRACTION_ONE as int),
            den as int,
        );
        vstd::arithmetic::div_mod::lemma_div_multiples_vanish(FRACTION_ONE as int, den as int);
        assert((den as int) * (FRACTION_ONE as int) == (FRACTION_ONE as int) * (den as int));
        vstd::arithmetic::div_mod::lemma_div_pos_is_pos(
            (num as int) * (FRACTION_ONE as int),
            den as int,
        );
        vstd::arithmetic::mul::lemma_mul_nonnegative(num as int, FRACTION_ONE as int);
    }
    let q: u128 = num * (FRACTION_ONE as u128) / den;
    q as i64
}

/// Normalizes a series of decibel values for display: each value is
/// clamped into `[min_db, max_db]` and rescaled linearly so the window
/// covers `[0, FRACTION_ONE]`.  A window whose upper edge does not exceed
/// its lower edge leaves the rescaling undefined and is rejected with
/// `InvalidConfig`.
pub fn normalize_for_visualization(data: &Vec<i64>, min_db: i64, max_db: i64) -> (r: Result<
    Vec<i64>,
    SpectrumError,
>)
    ensures
        r is Ok <==> min_db < max_db,
        r matches Err(e) ==> e == SpectrumError::InvalidConfig,
        r matches Ok(out) ==> out@.len() == data@.len() && (forall|i: int|
            0 <= i < data@.len() ==> #[trigger] out@[i] == normalize_val(
                data@[i] as int,
                min_db as int,
                max_db as int,
            )) && (forall|i: int| 0 <= i < data@.len() ==> 0 <= #[trigger] out@[i] <= FRACTION_ONE),
{
    if min_db >= max_db {
        return Err(SpectrumError::InvalidConfig);
    }
    let mut out: Vec<i64> = Vec::new();
    let mut i: usize = 0;
    while i < data.len()
        invariant
            i <= data@.len(),
            min_db < max_db,
            out@.len() == i,
            forall|k: int|
                0 <= k < i ==> #[trigger] out@[k] == normalize_val(
                    data@[k] as int,
                    min_db as int,
                    max_db as int,
                ),
            forall|k: int| 0 <= k < i ==> 0 <= #[trigger] out@[k] <= FRACTION_ONE,
        decreases data@.len() - i,
    {
        let v: i64 = normalize_scalar(data[i], min_db, max_db);
        out.push(v);
        i = i + 1;
    }
    Ok(out)
}

} // verus!
