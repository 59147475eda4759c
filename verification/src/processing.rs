use vstd::prelude::*;

use vstd::arithmetic::div_mod::{lemma_fundamental_div_mod, lemma_mod_bound};
use vstd::arithmetic::mul::lemma_mul_inequality;

verus! {

/// The raw sample value that lies on the zero line of the display.
pub const ZERO_LINE: u8 = 128;

/// Zero-line correction of a single raw sample byte: the negated offset from
/// the 128 zero line, so raw values above the line come out negative.
pub open spec fn centered(b: u8) -> int {
    ZERO_LINE - b
}

/// Applies the zero-line correction to every raw sample byte; the output has
/// one value per input byte. The voltage scaling that follows — a per-sample
/// multiplication by (voltage_per_division / 25) * scale_factor and by the
/// unit multiplier — is a floating-point step left to the caller.
pub fn center_waveform_data(waveform_data_raw: &Vec<u8>) -> (r: Vec<i16>)
    ensures
        r@.len() == waveform_data_raw@.len(),
        forall|i: int| 0 <= i < r@.len() ==> r@[i] == centered(waveform_data_raw@[i]),
{
    let mut r: Vec<i16> = Vec::new();
    let mut i: usize = 0;
    let len = waveform_data_raw.len();
    while i < len
        invariant
            i <= waveform_data_raw@.len(),
            len == waveform_data_raw@.len(),
            r@.len() == i,
            forall|k: int| 0 <= k < i ==> r@[k] == centered(waveform_data_raw@[k]),
        decreases len - i,
    {
        r.push(ZERO_LINE as i16 - waveform_data_raw[i] as i16);
        i = i + 1;
    }
    r
}

/// The zero line corrects to exactly zero.
pub proof fn lemma_center_zero_line()
    ensures
        centered(128) == 0,
{
}

/// Centered samples are antisymmetric around the zero line: raw bytes at
/// equal distance below and above 128 correct to values of equal magnitude
/// and opposite sign.
pub proof fn lemma_center_antisymmetric(d: u8)
    requires
        d <= 127,
    ensures
        centered((128 - d) as u8) == -centered((128 + d) as u8),
{
}

/// The source indices a resampling kernel visits when it walks its samples
/// at a given stride: exactly the multiples of step below len, in order.
/// Each visited sample becomes one control point of the fitted spline.
pub fn stride_indices(len: usize, step: usize) -> (r: Vec<usize>)
    requires
        step >= 1,
    ensures
        forall|k: int| 0 <= k < r@.len() ==> r@[k] == k * step,
        forall|k: int| 0 <= k ==> ((#[trigger] (k * step) < len) <==> (k < r@.len())),
{
    let mut r: Vec<usize> = Vec::new();
    if len == 0 {
        proof {
            assert forall|k: int| 0 <= k implies !(#[trigger] (k * step) < len) by {
                lemma_mul_inequality(0, k, step as int);
            }
        }
        return r;
    }
    let last: usize = (len - 1) / step;
    proof {
        lemma_fundamental_div_mod(len as int - 1, step as int);
    }
    let mut k: usize = 0;
    while k <= last
        invariant
            step >= 1,
            len >= 1,
            last == (len - 1) as int / step as int,
            (last as int) * step <= len - 1,
            k <= last + 1,
            r@.len() == k,
            forall|j: int| 0 <= j < k ==> r@[j] == j * step,
        decreases last + 1 - k,
    {
        proof {
            lemma_mul_inequality(k as int, last as int, step as int);
        }
        let idx = k * step;
        r.push(idx);
        k = k + 1;
    }
    proof {
        lemma_fundamental_div_mod(len as int - 1, step as int);
        lemma_mod_bound(len as int - 1, step as int);
        assert((last + 1) as int * step == (last as int) * step + step) by (nonlinear_arith);
        assert((last as int) * step == (len as int - 1) - (len as int - 1) % (step as int));
        assert((last + 1) as int * step >= len);
        assert forall|j: int| 0 <= j implies ((#[trigger] (j * step) < len) <==> (j < r@.len())) by {
            if j <= last {
                lemma_mul_inequality(j, last as int, step as int);
            } else {
                lemma_mul_inequality(last + 1 as int, j, step as int);
            }
        }
    }
    r
}

/// Repeats the final element until the vector holds target_len values; a
/// vector that is already long enough is left unchanged. This is the tail
/// step of every interpolation kernel: its sampling pass hands back fewer
/// points than were asked for, and the last produced value fills the rest so
/// that the output length comes out exact.
pub fn pad_with_last<T: Copy>(values: &mut Vec<T>, target_len: usize)
    requires
        old(values)@.len() > 0 || target_len == 0,
    ensures
        final(values)@.len() == if old(values)@.len() >= target_len {
            old(values)@.len() as int
        } else {
            target_len as int
        },
        forall|i: int| 0 <= i < old(values)@.len() ==> final(values)@[i] == old(values)@[i],
        forall|i: int|
            old(values)@.len() <= i < final(values)@.len() ==> final(values)@[i] == old(
                values,
            )@.last(),
{
    while values.len() < target_len
        invariant
            old(values)@.len() > 0 || target_len == 0,
            old(values)@.len() <= values@.len(),
            values@.len() <= target_len || values@.len() == old(values)@.len(),
            forall|i: int| 0 <= i < old(values)@.len() ==> values@[i] == old(values)@[i],
            forall|i: int|
                old(values)@.len() <= i < values@.len() ==> values@[i] == old(values)@.last(),
        decreases target_len - values@.len(),
    {
        let last = values[values.len() - 1];
        values.push(last);
    }
}

} // verus!
