//! Reduction of a magnitude spectrum to a caller-chosen number of display
//! bins: the spectrum is cut into contiguous slices of equal width (the
//! spectrum length divided by the bin count, rounded down) and each bin is
//! the arithmetic mean of its slice.  The division remainder stays outside
//! every slice, so when the length is not a multiple of the bin count the
//! trailing values are left out — an accepted display approximation.

use vstd::prelude::*;

use crate::errors::SpectrumError;
use crate::VALUE_LIMIT;

verus! {

/// Width of every display slice: spectrum length over bin count, rounded
/// down.
pub open spec fn slice_width(m: int, n: int) -> int {
    m / n
}

/// First spectrum index covered by slice `i`.
pub open spec fn slice_start(m: int, n: int, i: int) -> int {
    i * slice_width(m, n)
}

/// One past the last spectrum index covered by slice `i`, clamped to the
/// spectrum length.
pub open spec fn slice_end(m: int, n: int, i: int) -> int {
    vstd::math::min((i + 1) * slice_width(m, n), m)
}

/// Sum of the values of `s` with indices in `[start, end)`.
pub open spec fn sum_range(s: Seq<i64>, start: int, end: int) -> int
    decreases end - start,
{
    if end <= start {
        0
    } else {
        sum_range(s, start, end - 1) + s[end - 1]
    }
}

/// Integer division rounding toward zero — the rounding the slice means
/// use, for either sign of the sum.
pub open spec fn div_toward_zero(a: int, b: int) -> int {
    if a >= 0 {
        a / b
    } else {
        -((-a) / b)
    }
}

/// The value of display bin `i` of spectrum `s` cut into `n` slices: the
/// mean of its slice, or zero for a slice that covers no index at all
/// (more bins than spectrum values).
pub open spec fn bin_value(s: Seq<i64>, n: int, i: int) -> int {
    let start = slice_start(s.len() as int, n, i);
    let end = slice_end(s.len() as int, n, i);
    if end <= start {
        0
    } else {
        div_toward_zero(sum_range(s, start, end), end - start)
    }
}

/// Slices tile the front of the spectrum: each stays within bounds and
/// ends exactly where the next one starts.
pub proof fn lemma_slices_contiguous(m: int, n: int, i: int)
    requires
        0 <= m,
        0 < n,
        0 <= i < n,
    ensures
        0 <= slice_start(m, n, i) <= slice_end(m, n, i) <= m,
        slice_end(m, n, i) == slice_start(m, n, i + 1),
{
    let w = m / n;
    vstd::arithmetic::div_mod::lemma_div_pos_is_pos(m, n);
    vstd::arithmetic::div_mod::lemma_fundamental_div_mod(m, n);
    vstd::arithmetic::div_mod::lemma_mod_bound(m, n);
    assert(n * w <= m);
    vstd::arithmetic::mul::lemma_mul_nonnegative(i, w);
    vstd::arithmetic::mul::lemma_mul_inequality(i, i + 1, w);
    vstd::arithmetic::mul::lemma_mul_inequality(i + 1, n, w);
    assert((i + 1) * w <= n * w <= m);
}

/// Asking for exactly one bin per spectrum value changes nothing: every
/// slice then holds a single value, and the mean of a single value is the
/// value itself.
pub proof fn lemma_bin_identity(s: Seq<i64>, i: int)
    requires
        s.len() > 0,
        0 <= i < s.len(),
    ensures
        bin_value(s, s.len() as int, i) == s[i],
{
    let m = s.len() as int;
    vstd::arithmetic::div_mod::lemma_div_by_self(m);
    assert(slice_width(m, m) == 1);
    vstd::arithmetic::mul::lemma_mul_basics(i);
    vstd::arithmetic::mul::lemma_mul_basics(i + 1);
    assert(slice_start(m, m, i) == i);
    assert(slice_end(m, m, i) == i + 1);
    assert(sum_range(s, i, i + 1) == sum_range(s, i, i) + s[i]);
    assert(sum_range(s, i, i) == 0);
    if s[i] >= 0 {
        vstd::arithmetic::div_mod::lemma_div_basics(s[i] as int);
    } else {
        vstd::arithmetic::div_mod::lemma_div_basics(-(s[i] as int));
    }
}

/// Binning a whole spectrum with exactly one bin per value returns the
/// spectrum itself, element for element.
pub proof fn lemma_bin_identity_frame(s: Seq<i64>)
    requires
        s.len() > 0,
    ensures
        forall|i: int|
            0 <= i < s.len() ==> #[trigger] bin_value(s, s.len() as int, i) == s[i],
{
    assert forall|i: int| 0 <= i < s.len() implies #[trigger] bin_value(s, s.len() as int, i)
        == s[i] by {
        lemma_bin_identity(s, i);
    }
}

/// Sum of `values[start..end]`, wide enough that no intermediate overflow
/// is possible.
fn slice_sum(values: &Vec<i64>, start: usize, end: usize) -> (r: i128)
    requires
        start <= end <= values@.len(),
        forall|k: int|
            0 <= k < values@.len() ==> -VALUE_LIMIT <= #[trigger] values@[k] <= VALUE_LIMIT,
    ensures
        r == sum_range(values@, start as int, end as int),
        -(VALUE_LIMIT as int) * (end - start) <= r <= (VALUE_LIMIT as int) * (end - start),
{
    let mut sum: i128 = 0;
    let mut j: usize = start;
    while j < end
        invariant
            start <= j <= end <= values@.len(),
            forall|k: int|
                0 <= k < values@.len() ==> -VALUE_LIMIT <= #[trigger] values@[k] <= VALUE_LIMIT,
            sum == sum_range(values@, start as int, j as int),
            -(VALUE_LIMIT as int) * (j - start) <= sum <= (VALUE_LIMIT as int) * (j - start),
        decreases end - j,
    {
        let v: i64 = values[j];
        proof {
            assert(-(VALUE_LIMIT as int) * ((j - start) as int + 1) <= sum + v <= (
            VALUE_LIMIT as int) * ((j - start) as int + 1)) by (nonlinear_arith)
                requires
                    -(VALUE_LIMIT as int) * ((j - start) as int) <= sum <= (VALUE_LIMIT as int) * ((
                    j - start) as int),
                    -VALUE_LIMIT <= v <= VALUE_LIMIT,
                    j >= start,
            ;
            assert(-18446744073709551616000000000000int <= sum + v && sum + v
                <= 18446744073709551616000000000000int) by (nonlinear_arith)
                requires
                    -(VALUE_LIMIT as int) * ((j - start) as int) <= sum <= (VALUE_LIMIT as int) * ((
                    j - start) as int),
                    -VALUE_LIMIT <= v <= VALUE_LIMIT,
                    0 <= (j - start) as int + 1 <= 0x1_0000_0000_0000_0000 as int,
                    VALUE_LIMIT == 1_000_000_000_000i64,
            ;
            assert(sum_range(values@, start as int, (j + 1) as int) == sum_range(
                values@,
                start as int,
                j as int,
            ) + values@[j as int]);
        }
        sum = sum + (v as i128);
        j = j + 1;
    }
    sum
}

/// Cuts `values` into `num_bins` contiguous slices of equal width and
/// returns the arithmetic mean of each slice, the remainder of the
/// division staying out of every slice.  A bin whose slice covers no value
/// is zero.  A bin count of zero leaves the slice width undefined and is
/// rejected with `InvalidConfig`.
pub fn binned_means(values: &Vec<i64>, num_bins: usize) -> (r: Result<Vec<i64>, SpectrumError>)
    requires
        forall|k: int|
            0 <= k < values@.len() ==> -VALUE_LIMIT <= #[trigger] values@[k] <= VALUE_LIMIT,
    ensures
        r is Ok <==> num_bins > 0,
        r matches Err(e) ==> e == SpectrumError::InvalidConfig,
        r matches Ok(b) ==> b@.len() == num_bins && (forall|i: int|
            0 <= i < num_bins ==> #[trigger] b@[i] == bin_value(values@, num_bins as int, i)),
{
    if num_bins == 0 {
        return Err(SpectrumError::InvalidConfig);
    }
    let m: usize = values.len();
    let width: usize = m / num_bins;
    proof {
        vstd::arithmetic::div_mod::lemma_fundamental_div_mod(m as int, num_bins as int);
        vstd::arithmetic::div_mod::lemma_mod_bound(m as int, num_bins as int);
        vstd::arithmetic::div_mod::lemma_div_pos_is_pos(m as int, num_bins as int);
    }
    let mut bins: Vec<i64> = Vec::new();
    let mut i: usize = 0;
    while i < num_bins
        invariant
            0 < num_bins,
            m == values@.len(),
            width == (m as int) / (num_bins as int),
            (num_bins as int) * (width as int) <= m as int,
            0 <= width,
            i <= num_bins,
            bins@.len() == i,
            forall|k: int|
                0 <= k < values@.len() ==> -VALUE_LIMIT <= #[trigger] values@[k] <= VALUE_LIMIT,
            forall|k: int|
                0 <= k < i ==> #[trigger] bins@[k] == bin_value(values@, num_bins as int, k),
        decreases num_bins - i,
    {
        proof {
            vstd::arithmetic::mul::lemma_mul_inequality(i as int, i as int + 1, width as int);
            vstd::arithmetic::mul::lemma_mul_inequality(i as int + 1, num_bins as int, width as int);
            vstd::arithmetic::mul::lemma_mul_nonnegative(i as int, width as int);
        }
        let start: usize = i * width;
        let next: usize = (i + 1) * width;
        let end: usize = if next < m {
            next
        } else {
            m
        };
        assert(start as int == slice_start(values@.len() as int, num_bins as int, i as int));
        assert(end as int == slice_end(values@.len() as int, num_bins as int, i as int));
        let sum: i128 = slice_sum(values, start, end);
        let count: usize = end - start;
        let bin: i64 = if count == 0 {
            0
        } else {
            proof {
                vstd::arithmetic::div_mod::lemma_div_multiples_vanish(
                    VALUE_LIMIT as int,
                    count as int,
                );
                assert((count as int) * (VALUE_LIMIT as int) == (VALUE_LIMIT as int) * (
                count as int));
            }
            if sum >= 0 {
                proof {
                    vstd::arithmetic::div_mod::lemma_div_is_ordered(
                        sum as int,
                        (VALUE_LIMIT as int) * (count as int),
                        count as int,
                    );
                    vstd::arithmetic::div_mod::lemma_div_pos_is_pos(sum as int, count as int);
                }
                let q: u128 = (sum as u128) / (count as u128);
                q as i64
            } else {
                let neg: i128 = -sum;
                proof {
                    vstd::arithmetic::div_mod::lemma_div_is_ordered(
                        neg as int,
                        (VALUE_LIMIT as int) * (count as int),
                        count as int,
                    );
                    vstd::arithmetic::div_mod::lemma_div_pos_is_pos(neg as int, count as int);
                }
                let q: u128 = (neg as u128) / (count as u128);
                -(q as i64)
            }
        };
        assert(bin as int == bin_value(values@, num_bins as int, i as int));
        bins.push(bin);
        i = i + 1;
    }
    Ok(bins)
}

} // verus!
