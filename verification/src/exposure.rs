//! Exposure estimation from a histogram of the raw samples.
//!
//! A thinned-out grid of samples is sorted into 256 bins.  The bin that
//! holds the median is compared with middle grey: the suggested exposure
//! change, in stops, is the base-two logarithm of their ratio, limited to
//! three stops up and two stops down; a change of no more than three tenths
//! is no change.  An estimate holds the median bin, from which the
//! logarithm can be taken, and the change in whole tenths of a stop,
//! rounded towards zero, which tells whether there is a change at all.
//!
//! No logarithm is computed.  Since `log2(a / b) >= k / 10` says the same as
//! `a^10 >= 2^k * b^10`, whole numbers decide every comparison exactly.

use vstd::arithmetic::power2::{lemma2_to64, lemma_pow2_unfold, pow2};
use vstd::prelude::*;
use crate::demosaic::tiling::lemma_index_split;

verus! {

/// Number of bins of the histogram.
pub const BINS: usize = 256;

/// The bin in which the median of a well exposed image lies.
pub const TARGET_MEDIAN: u8 = 118;

/// Distance, along each axis, between two samples that `calculate_auto_exposure` reads.
pub const SAMPLE_STRIDE: usize = 10;

/// Largest suggested change upwards, in tenths of a stop.
pub const MAX_BRIGHTEN_TENTHS: i32 = 30;

/// Largest suggested change downwards, in tenths of a stop.
pub const MAX_DARKEN_TENTHS: i32 = 20;

/// Smallest change, in tenths of a stop, that is suggested at all.
pub const MIN_CHANGE_TENTHS: i32 = 3;

/// The median bin reported for a histogram that never reaches the threshold.
pub const FALLBACK_MEDIAN: usize = 128;

/// Bin of a raw sample: the sample divided by 64, at most 255.
pub open spec fn bin_of(v: u16) -> int {
    if v / 64 >= 256 {
        255
    } else {
        v as int / 64
    }
}

/// Number of samples read along an axis of `len` positions, one every
/// `stride` positions from the first.
pub open spec fn samples_along(len: int, stride: int) -> int {
    if len <= 0 {
        0
    } else {
        (len - 1) / stride + 1
    }
}

/// Position in the buffer of sample `j` of the grid, counted row by row,
/// where `nx` samples are read in a row.
pub open spec fn sample_position(width: int, stride: int, nx: int, j: int) -> int {
    (j / nx) * stride * width + (j % nx) * stride
}

/// Among the first `n` samples of the grid, the number that fall into bin `b`.
pub open spec fn count_in_bin(raw: Seq<u16>, width: int, stride: int, nx: int, n: int, b: int) -> int
    decreases n,
{
    if n <= 0 {
        0
    } else {
        count_in_bin(raw, width, stride, nx, n - 1, b) + if bin_of(
            raw[sample_position(width, stride, nx, n - 1)],
        ) == b {
            1int
        } else {
            0int
        }
    }
}

/// The histogram of the grid of samples of a `width` by `height` buffer.
pub open spec fn histogram_of(raw: Seq<u16>, width: int, height: int, stride: int) -> Seq<u64> {
    let nx = samples_along(width, stride);
    let ny = samples_along(height, stride);
    Seq::new(BINS as nat, |b: int| count_in_bin(raw, width, stride, nx, nx * ny, b) as u64)
}

/// Sum of the first `n` bins.
pub open spec fn cumulative(hist: Seq<u64>, n: int) -> int
    decreases n,
{
    if n <= 0 {
        0
    } else {
        cumulative(hist, n - 1) + hist[n - 1]
    }
}

/// The first bin from `b` on at which the sum of the bins so far reaches
/// `threshold`; bin 128 if none does.
pub open spec fn first_reaching(hist: Seq<u64>, threshold: int, b: int) -> int
    decreases hist.len() - b,
{
    if b < 0 || b >= hist.len() {
        FALLBACK_MEDIAN as int
    } else if cumulative(hist, b + 1) >= threshold {
        b
    } else {
        first_reaching(hist, threshold, b + 1)
    }
}

/// The median bin: the first at which the sum of the bins so far reaches
/// `threshold`.
pub open spec fn median_of(hist: Seq<u64>, threshold: int) -> int {
    first_reaching(hist, threshold, 0)
}

/// Half the number of whole strides in the image, the count that the median
/// is looked up with.
pub open spec fn median_threshold(width: int, height: int, stride: int) -> int {
    ((width / stride) * (height / stride)) / 2
}

/// The tenth power of `x`.
pub open spec fn tenth_power(x: int) -> int {
    let x2 = x * x;
    let x4 = x2 * x2;
    let x8 = x4 * x4;
    x8 * x2
}

/// Whether `log2(hi / lo)` is at least `k` tenths.
pub open spec fn reaches(hi: int, lo: int, k: nat) -> bool {
    pow2(k) * tenth_power(lo) <= tenth_power(hi)
}

/// The whole tenths in `log2(hi / lo)`, at most `limit`.
pub open spec fn whole_tenths(hi: int, lo: int, limit: nat) -> nat
    decreases limit,
{
    if limit == 0 {
        0
    } else if reaches(hi, lo, limit) {
        limit
    } else {
        whole_tenths(hi, lo, (limit - 1) as nat)
    }
}

/// The exposure change, in tenths of a stop, suggested for an image whose
/// median lies in bin `median`.
pub open spec fn stops_tenths(median: int) -> int {
    if median <= 0 {
        MAX_BRIGHTEN_TENTHS as int
    } else if median <= TARGET_MEDIAN {
        let k = whole_tenths(TARGET_MEDIAN as int, median, MAX_BRIGHTEN_TENTHS as nat);
        if k >= MIN_CHANGE_TENTHS {
            k as int
        } else {
            0
        }
    } else {
        let k = whole_tenths(median, TARGET_MEDIAN as int, MAX_DARKEN_TENTHS as nat);
        if k >= MIN_CHANGE_TENTHS {
            -(k as int)
        } else {
            0
        }
    }
}

/// The exposure change, in tenths of a stop, suggested for a buffer; none
/// for a buffer that is shorter than the image.
pub open spec fn auto_exposure_of(raw: Seq<u16>, width: int, height: int, stride: int) -> int {
    if raw.len() < width * height {
        0
    } else {
        stops_tenths(
            median_of(
                histogram_of(raw, width, height, stride),
                median_threshold(width, height, stride),
            ),
        )
    }
}

/// What the analysis of a buffer says of its exposure.
///
/// The suggested change in stops is the base-two logarithm of 118 over the
/// median bin, limited to three stops up and two stops down, where `tenths`
/// is not zero, and no change where it is.
#[derive(Debug, Clone, Copy, PartialEq, Eq)]
pub struct ExposureEstimate {
    /// The bin in which the median of the samples lies; none for a buffer
    /// that is shorter than the image and so cannot be analysed.
    pub median: Option<u8>,
    /// The suggested change in whole tenths of a stop, rounded towards
    /// zero; zero where no change is suggested.
    pub tenths: i32,
}

/// The estimate for a buffer: the median bin of its histogram and the
/// change suggested for it; no median and no change for a buffer that is
/// shorter than the image.
pub open spec fn estimate_of(raw: Seq<u16>, width: int, height: int, stride: int) -> ExposureEstimate {
    if raw.len() < width * height {
        ExposureEstimate { median: None, tenths: 0 }
    } else {
        let m = median_of(
            histogram_of(raw, width, height, stride),
            median_threshold(width, height, stride),
        );
        ExposureEstimate { median: Some(m as u8), tenths: stops_tenths(m) as i32 }
    }
}

/// Tenth powers grow with their base.
pub proof fn lemma_tenth_power_grows(a: int, b: int)
    requires
        0 <= a <= b,
    ensures
        0 <= tenth_power(a) <= tenth_power(b),
{
    let a2 = a * a;
    let b2 = b * b;
    assert(0 <= a2 <= b2) by (nonlinear_arith)
        requires
            0 <= a <= b,
            a2 == a * a,
            b2 == b * b,
    ;
    let a4 = a2 * a2;
    let b4 = b2 * b2;
    assert(0 <= a4 <= b4) by (nonlinear_arith)
        requires
            0 <= a2 <= b2,
            a4 == a2 * a2,
            b4 == b2 * b2,
    ;
    let a8 = a4 * a4;
    let b8 = b4 * b4;
    assert(0 <= a8 <= b8) by (nonlinear_arith)
        requires
            0 <= a4 <= b4,
            a8 == a4 * a4,
            b8 == b4 * b4,
    ;
    assert(0 <= a8 * a2 <= b8 * b2) by (nonlinear_arith)
        requires
            0 <= a8 <= b8,
            0 <= a2 <= b2,
    ;
}

/// A ratio that reaches `k + 1` tenths reaches `k` tenths.
pub proof fn lemma_reaches_less(hi: int, lo: int, k: nat)
    requires
        0 <= lo,
        reaches(hi, lo, k + 1),
    ensures
        reaches(hi, lo, k),
{
    lemma_pow2_unfold(k + 1);
    lemma_tenth_power_grows(0, lo);
    let p = pow2(k) as int;
    let t = tenth_power(lo);
    assert(p * t <= (2 * p) * t) by (nonlinear_arith)
        requires
            0 <= p,
            0 <= t,
    ;
}

/// A ratio that reaches `k` tenths reaches every fewer.
pub proof fn lemma_reaches_fewer(hi: int, lo: int, k: nat, j: nat)
    requires
        0 <= lo,
        j <= k,
        reaches(hi, lo, k),
    ensures
        reaches(hi, lo, j),
    decreases k - j,
{
    if j < k {
        lemma_reaches_less(hi, lo, (k - 1) as nat);
        lemma_reaches_fewer(hi, lo, (k - 1) as nat, j);
    }
}

/// A larger ratio reaches what a smaller one reaches.
pub proof fn lemma_reaches_grows(hi: int, lo: int, hi2: int, lo2: int, k: nat)
    requires
        0 <= lo2 <= lo,
        0 <= hi <= hi2,
        reaches(hi, lo, k),
    ensures
        reaches(hi2, lo2, k),
{
    lemma_tenth_power_grows(hi, hi2);
    lemma_tenth_power_grows(lo2, lo);
    let p = pow2(k) as int;
    let a = tenth_power(lo2);
    let b = tenth_power(lo);
    assert(p * a <= p * b) by (nonlinear_arith)
        requires
            0 <= p,
            0 <= a <= b,
    ;
}

/// The whole tenths are the largest number, up to the limit, that the
/// ratio reaches.
pub proof fn lemma_whole_tenths(hi: int, lo: int, limit: nat)
    requires
        0 <= lo,
    ensures
        whole_tenths(hi, lo, limit) <= limit,
        whole_tenths(hi, lo, limit) > 0 ==> reaches(hi, lo, whole_tenths(hi, lo, limit)),
        forall|k: nat|
            whole_tenths(hi, lo, limit) < k <= limit ==> !#[trigger] reaches(hi, lo, k),
    decreases limit,
{
    if limit > 0 && !reaches(hi, lo, limit) {
        lemma_whole_tenths(hi, lo, (limit - 1) as nat);
    }
}

/// A larger ratio has at least as many whole tenths.
pub proof fn lemma_whole_tenths_grow(hi: int, lo: int, hi2: int, lo2: int, limit: nat)
    requires
        0 <= lo2 <= lo,
        0 <= hi <= hi2,
    ensures
        whole_tenths(hi, lo, limit) <= whole_tenths(hi2, lo2, limit),
{
    lemma_whole_tenths(hi, lo, limit);
    lemma_whole_tenths(hi2, lo2, limit);
    let k = whole_tenths(hi, lo, limit);
    if k > 0 {
        lemma_reaches_grows(hi, lo, hi2, lo2, k);
    }
}

/// A suggested change lies between two stops down and three stops up, and
/// is either none or at least three tenths.
pub proof fn lemma_stops_bounds(median: int)
    ensures
        -MAX_DARKEN_TENTHS <= stops_tenths(median) <= MAX_BRIGHTEN_TENTHS,
        stops_tenths(median) == 0 || stops_tenths(median) >= MIN_CHANGE_TENTHS || stops_tenths(
            median,
        ) <= -MIN_CHANGE_TENTHS,
        median <= TARGET_MEDIAN ==> stops_tenths(median) >= 0,
        median >= TARGET_MEDIAN ==> stops_tenths(median) <= 0,
{
    if median > 0 {
        lemma_whole_tenths(TARGET_MEDIAN as int, median, MAX_BRIGHTEN_TENTHS as nat);
        lemma_whole_tenths(median, TARGET_MEDIAN as int, MAX_DARKEN_TENTHS as nat);
        if median == TARGET_MEDIAN {
            lemma_exact_target(MAX_BRIGHTEN_TENTHS as nat);
        }
    }
}

/// Equal levels are less than `k` tenths apart, for every `k` above zero.
pub proof fn lemma_exact_target(k: nat)
    requires
        k >= 1,
    ensures
        !reaches(TARGET_MEDIAN as int, TARGET_MEDIAN as int, k),
        whole_tenths(TARGET_MEDIAN as int, TARGET_MEDIAN as int, k) == 0,
    decreases k,
{
    lemma_pow2_unfold(k);
    vstd::arithmetic::power2::lemma_pow2_pos((k - 1) as nat);
    let p = pow2(k) as int;
    let t = tenth_power(TARGET_MEDIAN as int);
    assert(t > 0) by {
        lemma_tenth_power_of_target();
    }
    assert(p * t > t) by (nonlinear_arith)
        requires
            p >= 2,
            t > 0,
    ;
    if k > 1 {
        lemma_exact_target((k - 1) as nat);
    }
}

/// The tenth power of the target bin.
pub proof fn lemma_tenth_power_of_target()
    ensures
        tenth_power(TARGET_MEDIAN as int) == 523383555379856794624,
{
    assert(118 * 118 == 13924int);
    assert(13924 * 13924 == 193877776int);
    assert(193877776 * 193877776 == 37588592026706176int);
    assert(37588592026706176 * 13924 == 523383555379856794624int);
}

/// An image whose median is within three tenths of a stop of the target is
/// left as it is.
pub proof fn lemma_no_change_within_band(median: int)
    requires
        0 < median,
        tenth_power(TARGET_MEDIAN as int) < 8 * tenth_power(median),
        tenth_power(median) < 8 * tenth_power(TARGET_MEDIAN as int),
    ensures
        stops_tenths(median) == 0,
{
    lemma2_to64();
    if median <= TARGET_MEDIAN {
        lemma_whole_tenths(TARGET_MEDIAN as int, median, MAX_BRIGHTEN_TENTHS as nat);
        let k = whole_tenths(TARGET_MEDIAN as int, median, MAX_BRIGHTEN_TENTHS as nat);
        if k >= 3 {
            lemma_reaches_fewer(TARGET_MEDIAN as int, median, k, 3);
        }
    } else {
        lemma_whole_tenths(median, TARGET_MEDIAN as int, MAX_DARKEN_TENTHS as nat);
        let k = whole_tenths(median, TARGET_MEDIAN as int, MAX_DARKEN_TENTHS as nat);
        if k >= 3 {
            lemma_reaches_fewer(median, TARGET_MEDIAN as int, k, 3);
        }
    }
}

/// The medians from bin 96 to bin 145 are within the band: such an image is
/// left as it is.
pub proof fn lemma_no_change_near_target(median: int)
    requires
        96 <= median <= 145,
    ensures
        stops_tenths(median) == 0,
{
    lemma_tenth_power_of_target();
    lemma_tenth_power_grows(96, median);
    lemma_tenth_power_grows(median, 145);
    assert(tenth_power(96) == 66483263599150104576) by {
        assert(96 * 96 == 9216int);
        assert(9216 * 9216 == 84934656int);
        assert(84934656 * 84934656 == 7213895789838336int);
        assert(7213895789838336 * 9216 == 66483263599150104576int);
    }
    assert(tenth_power(145) == 4108469075197275390625) by {
        assert(145 * 145 == 21025int);
        assert(21025 * 21025 == 442050625int);
        assert(442050625 * 442050625 == 195408755062890625int);
        assert(195408755062890625 * 21025 == 4108469075197275390625int);
    }
    lemma_no_change_within_band(median);
}

/// A darker image is never told to brighten less than a brighter one: the
/// suggested change does not grow with the median.
pub proof fn lemma_stops_fall_with_median(darker: int, brighter: int)
    requires
        0 <= darker <= brighter,
    ensures
        stops_tenths(darker) >= stops_tenths(brighter),
{
    let t = TARGET_MEDIAN as int;
    lemma_stops_bounds(darker);
    lemma_stops_bounds(brighter);
    if darker == 0 {
    } else if brighter <= t {
        lemma_whole_tenths_grow(t, brighter, t, darker, MAX_BRIGHTEN_TENTHS as nat);
    } else if darker > t {
        lemma_whole_tenths_grow(darker, t, brighter, t, MAX_DARKEN_TENTHS as nat);
    }
}

/// An image whose median lies below bin 96 is told to brighten, one whose
/// median lies above bin 145 to darken.
pub proof fn lemma_stops_sign_outside_band(median: int)
    requires
        0 <= median,
    ensures
        median < 96 ==> stops_tenths(median) >= MIN_CHANGE_TENTHS,
        median > 145 ==> stops_tenths(median) <= -MIN_CHANGE_TENTHS,
{
    let t = TARGET_MEDIAN as int;
    lemma2_to64();
    lemma_tenth_power_of_target();
    if 0 < median < 96 {
        lemma_tenth_power_grows(median, 95);
        assert(tenth_power(95) == 59873693923837890625) by {
            assert(95 * 95 == 9025int);
            assert(9025 * 9025 == 81450625int);
            assert(81450625 * 81450625 == 6634204312890625int);
            assert(6634204312890625 * 9025 == 59873693923837890625int);
        }
        assert(reaches(t, median, 3));
        lemma_whole_tenths(t, median, MAX_BRIGHTEN_TENTHS as nat);
    } else if median > 145 {
        lemma_tenth_power_grows(146, median);
        assert(tenth_power(146) == 4400768849616443032576) by {
            assert(146 * 146 == 21316int);
            assert(21316 * 21316 == 454371856int);
            assert(454371856 * 454371856 == 206453783524884736int);
            assert(206453783524884736 * 21316 == 4400768849616443032576int);
        }
        assert(reaches(median, t, 3));
        lemma_whole_tenths(median, t, MAX_DARKEN_TENTHS as nat);
    }
}

/// No bin holds more samples than were read.
pub proof fn lemma_count_in_bin_bounds(
    raw: Seq<u16>,
    width: int,
    stride: int,
    nx: int,
    n: int,
    b: int,
)
    requires
        0 <= n,
    ensures
        0 <= count_in_bin(raw, width, stride, nx, n, b) <= n,
    decreases n,
{
    if n > 0 {
        lemma_count_in_bin_bounds(raw, width, stride, nx, n - 1, b);
    }
}

/// The last sample along an axis lies on the axis.
pub proof fn lemma_samples_on_axis(len: int, stride: int, i: int)
    requires
        stride > 0,
        0 <= i < samples_along(len, stride),
    ensures
        0 <= i * stride < len,
{
    let last = (len - 1) / stride;
    assert(last * stride <= len - 1) by (nonlinear_arith)
        requires
            last == (len - 1) / stride,
            stride > 0,
            len >= 1,
    ;
    assert(0 <= i * stride <= last * stride) by (nonlinear_arith)
        requires
            0 <= i <= last,
            stride > 0,
    ;
}

/// Sorts every `stride`-th sample of every `stride`-th row into 256 bins.
pub fn sample_histogram(raw: &[u16], width: usize, height: usize, stride: usize) -> (hist: Vec<
    u64,
>)
    requires
        stride > 0,
        width * height <= raw@.len(),
    ensures
        hist@ == histogram_of(raw@, width as int, height as int, stride as int),
{
    let nx: usize = if width == 0 {
        0
    } else {
        (width - 1) / stride + 1
    };
    let ny: usize = if height == 0 {
        0
    } else {
        (height - 1) / stride + 1
    };
    let mut hist: Vec<u64> = vec![0u64; BINS];
    let available: usize = raw.len();
    let ghost src = raw@;
    let ghost w = width as int;
    let ghost s = stride as int;
    assert(nx <= width && ny <= height) by (nonlinear_arith)
        requires
            nx == samples_along(width as int, stride as int),
            ny == samples_along(height as int, stride as int),
            stride >= 1,
    ;
    assert(nx * ny <= width * height) by (nonlinear_arith)
        requires
            nx <= width,
            ny <= height,
    ;
    let mut iy: usize = 0;
    while iy < ny
        invariant
            iy <= ny,
            stride > 0,
            raw@.len() == available,
            nx * ny <= width * height,
            src == raw@,
            w == width,
            s == stride,
            nx == samples_along(w, s),
            ny == samples_along(height as int, s),
            width * height <= raw@.len(),
            hist@.len() == BINS,
            forall|b: int|
                0 <= b < BINS ==> #[trigger] hist@[b] == count_in_bin(src, w, s, nx as int, iy * nx, b),
        decreases ny - iy,
    {
        proof {
            lemma_samples_on_axis(height as int, s, iy as int);
        }
        let y: usize = iy * stride;
        assert(y * width + width <= width * height) by (nonlinear_arith)
            requires
                y < height,
        ;
        let row: usize = y * width;
        let mut ix: usize = 0;
        while ix < nx
            invariant
                ix <= nx,
                iy < ny,
                stride > 0,
                src == raw@,
                w == width,
                s == stride,
                nx == samples_along(w, s),
                row == iy * s * w,
                row + width <= width * height,
                width * height <= raw@.len(),
                raw@.len() == available,
                nx * ny <= width * height,
                hist@.len() == BINS,
                forall|b: int|
                    0 <= b < BINS ==> #[trigger] hist@[b] == count_in_bin(
                        src,
                        w,
                        s,
                        nx as int,
                        iy * nx + ix,
                        b,
                    ),
            decreases nx - ix,
        {
            proof {
                lemma_samples_on_axis(w, s, ix as int);
                lemma_index_split(iy as int, ix as int, nx as int);
            }
            let x: usize = ix * stride;
            let v: u16 = raw[row + x];
            let scaled: u16 = v / 64;
            let bin: usize = if scaled >= 256 {
                255
            } else {
                scaled as usize
            };
            proof {
                lemma_count_in_bin_bounds(src, w, s, nx as int, iy * nx + ix, bin as int);
                assert(iy * nx + ix + 1 <= nx * ny) by (nonlinear_arith)
                    requires
                        0 <= iy < ny,
                        0 <= ix < nx,
                ;
            }
            let count: u64 = hist[bin];
            hist.set(bin, count + 1);
            ix = ix + 1;
        }
        assert((iy + 1) * nx == iy * nx + nx) by (nonlinear_arith);
        iy = iy + 1;
    }
    assert(ny * nx == nx * ny) by (nonlinear_arith);
    assert forall|b: int| 0 <= b < BINS implies hist@[b] == #[trigger] histogram_of(
        src,
        w,
        height as int,
        s,
    )[b] by {
        lemma_count_in_bin_bounds(src, w, s, nx as int, nx * ny, b);
    }
    assert(hist@ =~= histogram_of(src, w, height as int, s));
    hist
}

/// The first bin at which the sum of the bins so far reaches `threshold`;
/// bin 128 if none does.
pub fn median_bin(hist: &[u64], threshold: u64) -> (m: usize)
    requires
        hist@.len() == BINS,
    ensures
        m == median_of(hist@, threshold as int),
        m < BINS,
{
    let mut sum: u128 = 0;
    let mut b: usize = 0;
    while b < BINS
        invariant
            b <= BINS,
            hist@.len() == BINS,
            sum == cumulative(hist@, b as int),
            sum <= b * 0xffff_ffff_ffff_ffff,
            median_of(hist@, threshold as int) == first_reaching(hist@, threshold as int, b as int),
        decreases BINS - b,
    {
        sum = sum + hist[b] as u128;
        if sum >= threshold as u128 {
            return b;
        }
        b = b + 1;
    }
    FALLBACK_MEDIAN
}

/// The tenth power of a bin number.
fn power10(x: u8) -> (r: u128)
    ensures
        r == tenth_power(x as int),
        r <= 1162523670191533212890625,
{
    let x1: u128 = x as u128;
    assert(x1 * x1 <= 65025) by (nonlinear_arith)
        requires
            x1 <= 255,
    ;
    let x2: u128 = x1 * x1;
    assert(x2 * x2 <= 4228250625) by (nonlinear_arith)
        requires
            x2 <= 65025,
    ;
    let x4: u128 = x2 * x2;
    assert(x4 * x4 <= 17878103347812890625) by (nonlinear_arith)
        requires
            x4 <= 4228250625,
    ;
    let x8: u128 = x4 * x4;
    assert(x8 * x2 <= 1162523670191533212890625) by (nonlinear_arith)
        requires
            x8 <= 17878103347812890625,
            x2 <= 65025,
    ;
    x8 * x2
}

/// The whole tenths of a stop between two bins, at most `limit`.
fn tenths_between(hi: u8, lo: u8, limit: u32) -> (k: u32)
    requires
        limit <= 30,
    ensures
        k == whole_tenths(hi as int, lo as int, limit as nat),
        k <= limit,
{
    let top: u128 = power10(hi);
    let base: u128 = power10(lo);
    let mut scale: u128 = 1;
    let mut i: u32 = 0;
    proof {
        lemma2_to64();
    }
    while i < limit
        invariant
            i <= limit <= 30,
            scale == pow2(i as nat),
            scale <= 0x40000000,
            pow2(30) == 0x40000000,
        decreases limit - i,
    {
        proof {
            lemma_pow2_unfold((i + 1) as nat);
            if i + 1 < 30 {
                vstd::arithmetic::power2::lemma_pow2_strictly_increases((i + 1) as nat, 30);
            }
        }
        scale = scale * 2;
        i = i + 1;
    }
    let mut k: u32 = limit;
    while k > 0
        invariant
            k <= limit <= 30,
            scale == pow2(k as nat),
            scale <= 0x40000000,
            base == tenth_power(lo as int),
            top == tenth_power(hi as int),
            base <= 1162523670191533212890625,
            whole_tenths(hi as int, lo as int, limit as nat) == whole_tenths(
                hi as int,
                lo as int,
                k as nat,
            ),
        decreases k,
    {
        assert(scale * base <= 0x40000000 * 1162523670191533212890625) by (nonlinear_arith)
            requires
                scale <= 0x40000000,
                base <= 1162523670191533212890625,
        ;
        if scale * base <= top {
            return k;
        }
        proof {
            lemma_pow2_unfold(k as nat);
        }
        scale = scale / 2;
        k = k - 1;
    }
    0
}

/// The exposure change, in tenths of a stop, suggested for an image whose
/// median lies in bin `median`: positive to brighten, negative to darken,
/// zero to leave the image as it is.
pub fn exposure_tenths(median: u8) -> (tenths: i32)
    ensures
        tenths == stops_tenths(median as int),
        -MAX_DARKEN_TENTHS <= tenths <= MAX_BRIGHTEN_TENTHS,
{
    proof {
        lemma_stops_bounds(median as int);
    }
    if median == 0 {
        MAX_BRIGHTEN_TENTHS
    } else if median <= TARGET_MEDIAN {
        let k: u32 = tenths_between(TARGET_MEDIAN, median, 30);
        if k >= 3 {
            k as i32
        } else {
            0
        }
    } else {
        let k: u32 = tenths_between(median, TARGET_MEDIAN, 20);
        if k >= 3 {
            -(k as i32)
        } else {
            0
        }
    }
}

/// Analyses the exposure of a `width` by `height` buffer of raw samples from
/// one sample in every `stride` along each axis.  A buffer shorter than the
/// image cannot be analysed: it has no median and is left as it is.
pub fn analyse_exposure(raw: &[u16], width: usize, height: usize, stride: usize) -> (estimate:
    ExposureEstimate)
    requires
        stride > 0,
    ensures
        estimate == estimate_of(raw@, width as int, height as int, stride as int),
        estimate.tenths == auto_exposure_of(raw@, width as int, height as int, stride as int),
        -MAX_DARKEN_TENTHS <= estimate.tenths <= MAX_BRIGHTEN_TENTHS,
{
    let available: usize = raw.len();
    match width.checked_mul(height) {
        None => ExposureEstimate { median: None, tenths: 0 },
        Some(total) => {
            if available < total {
                ExposureEstimate { median: None, tenths: 0 }
            } else {
                let hist = sample_histogram(raw, width, height, stride);
                let across: usize = width / stride;
                let down: usize = height / stride;
                assert(across * down <= width * height) by (nonlinear_arith)
                    requires
                        across <= width,
                        down <= height,
                ;
                let threshold: usize = (across * down) / 2;
                let m: usize = median_bin(hist.as_slice(), threshold as u64);
                ExposureEstimate { median: Some(m as u8), tenths: exposure_tenths(m as u8) }
            }
        },
    }
}

/// Suggests an exposure change for a `width` by `height` buffer of raw
/// samples, in tenths of a stop, from one sample in every `stride` along
/// each axis.  A buffer shorter than the image cannot be analysed and is
/// left as it is.
pub fn estimate_exposure(raw: &[u16], width: usize, height: usize, stride: usize) -> (tenths: i32)
    requires
        stride > 0,
    ensures
        tenths == auto_exposure_of(raw@, width as int, height as int, stride as int),
        -MAX_DARKEN_TENTHS <= tenths <= MAX_BRIGHTEN_TENTHS,
{
    analyse_exposure(raw, width, height, stride).tenths
}

/// How much of the highlights is kept when an image is brightened.
#[derive(Debug, Clone, Copy, PartialEq, Eq, Structural)]
pub enum HighlightPreservation {
    /// None: the image is not brightened, or by less than half.
    Off,
    /// A little, from a factor of one and a half.
    Light,
    /// More, from a factor of two.
    Medium,
    /// Most, from a factor of four.
    Strong,
}

/// The preservation that goes with the change suggested for an image whose
/// median lies in bin `median`.  The factor of the change is 118 over the
/// median, at most eight: it reaches four where four medians are at most
/// 118, two where two are, and one and a half where three are at most
/// twice 118.  An image that is not brightened keeps nothing.
pub open spec fn preservation_of(median: int) -> HighlightPreservation {
    if stops_tenths(median) <= 0 {
        HighlightPreservation::Off
    } else if 4 * median <= TARGET_MEDIAN {
        HighlightPreservation::Strong
    } else if 2 * median <= TARGET_MEDIAN {
        HighlightPreservation::Medium
    } else if 3 * median <= 2 * TARGET_MEDIAN {
        HighlightPreservation::Light
    } else {
        HighlightPreservation::Off
    }
}

/// A change is suggested exactly where the median is at least three tenths
/// of a stop from the target.
pub proof fn lemma_change_exactly_beyond_band(median: int)
    requires
        0 < median,
    ensures
        median <= TARGET_MEDIAN ==> (stops_tenths(median) != 0 <==> reaches(
            TARGET_MEDIAN as int,
            median,
            3,
        )),
        median > TARGET_MEDIAN ==> (stops_tenths(median) != 0 <==> reaches(
            median,
            TARGET_MEDIAN as int,
            3,
        )),
{
    if median <= TARGET_MEDIAN {
        lemma_whole_tenths(TARGET_MEDIAN as int, median, MAX_BRIGHTEN_TENTHS as nat);
        let k = whole_tenths(TARGET_MEDIAN as int, median, MAX_BRIGHTEN_TENTHS as nat);
        if k >= 3 {
            lemma_reaches_fewer(TARGET_MEDIAN as int, median, k, 3);
        }
    } else {
        lemma_whole_tenths(median, TARGET_MEDIAN as int, MAX_DARKEN_TENTHS as nat);
        let k = whole_tenths(median, TARGET_MEDIAN as int, MAX_DARKEN_TENTHS as nat);
        if k >= 3 {
            lemma_reaches_fewer(median, TARGET_MEDIAN as int, k, 3);
        }
    }
}

/// The preservation of highlights that goes with the change suggested for
/// an image whose median lies in bin `median`.
pub fn highlight_preservation(median: u8) -> (p: HighlightPreservation)
    ensures
        p == preservation_of(median as int),
{
    if exposure_tenths(median) <= 0 {
        HighlightPreservation::Off
    } else if median <= TARGET_MEDIAN / 4 {
        HighlightPreservation::Strong
    } else if median <= TARGET_MEDIAN / 2 {
        HighlightPreservation::Medium
    } else if median as u32 * 3 <= TARGET_MEDIAN as u32 * 2 {
        HighlightPreservation::Light
    } else {
        HighlightPreservation::Off
    }
}

impl ExposureEstimate {
    /// The preservation of highlights that goes with the estimate; none for
    /// a buffer that could not be analysed.
    pub fn highlight_preservation(&self) -> (p: HighlightPreservation)
        ensures
            p == match self.median {
                Some(m) => preservation_of(m as int),
                None => HighlightPreservation::Off,
            },
    {
        match self.median {
            Some(m) => highlight_preservation(m),
            None => HighlightPreservation::Off,
        }
    }
}

} // verus!
