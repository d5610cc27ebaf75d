//! Post-processing of RGB images: scaling and median filtering on the
//! processor, with the work spread over its cores.

use fast_image_resize::images::Image;
use rayon::iter::{IntoParallelIterator, IntoParallelRefIterator, ParallelIterator};
use vstd::prelude::*;
use crate::demosaic::tiling::lemma_index_split;
use crate::error::MediaError;

verus! {

/// Where images are processed.
#[derive(Debug, Clone, Copy, PartialEq, Eq, Structural)]
pub enum GpuBackend {
    /// On the graphics processor that the compute service manages.
    SomaCompute,
    /// On the processor.
    Cpu,
}

/// Processes images on the best backend at hand.
pub struct GpuProcessor {
    backend: GpuBackend,
}

/// One if `a` is below `v`, else zero.
pub open spec fn below(a: u8, v: int) -> int {
    if a < v {
        1
    } else {
        0
    }
}

/// One if `a` is above `v`, else zero.
pub open spec fn above(a: u8, v: int) -> int {
    if a > v {
        1
    } else {
        0
    }
}

/// Number of the nine values that are below `v`.
pub open spec fn count_below(s: Seq<u8>, v: int) -> int {
    below(s[0], v) + below(s[1], v) + below(s[2], v) + below(s[3], v) + below(s[4], v) + below(
        s[5],
        v,
    ) + below(s[6], v) + below(s[7], v) + below(s[8], v)
}

/// Number of the nine values that are above `v`.
pub open spec fn count_above(s: Seq<u8>, v: int) -> int {
    above(s[0], v) + above(s[1], v) + above(s[2], v) + above(s[3], v) + above(s[4], v) + above(
        s[5],
        v,
    ) + above(s[6], v) + above(s[7], v) + above(s[8], v)
}

/// Whether `m` is the median of the nine values: it is one of them, at most
/// four are below it and at most four above.
pub open spec fn is_median(s: Seq<u8>, m: u8) -> bool {
    &&& count_below(s, m as int) <= 4
    &&& count_above(s, m as int) <= 4
    &&& count_below(s, m as int) + count_above(s, m as int) < 9
}

/// The median of nine values.
pub open spec fn median9(s: Seq<u8>) -> u8 {
    choose|m: u8| is_median(s, m)
}

/// Nine values have one median only.
pub proof fn lemma_median_unique(s: Seq<u8>, a: u8, b: u8)
    requires
        is_median(s, a),
        is_median(s, b),
    ensures
        a == b,
{
}

/// A value that is the median of nine values is their `median9`.
pub proof fn lemma_median_is_median9(s: Seq<u8>, m: u8)
    requires
        is_median(s, m),
    ensures
        median9(s) == m,
{
    lemma_median_unique(s, m, median9(s));
}

/// Position `p + d` on an axis of `len` positions, kept on the axis.
pub open spec fn clamp_index(p: int, d: int, len: int) -> int {
    if p + d < 0 {
        0
    } else if p + d > len - 1 {
        len - 1
    } else {
        p + d
    }
}

/// Channel `c` of the pixels around `(x, y)`, row by row from the upper
/// left neighbour to the lower right one; beyond the border of the image
/// the pixel on the border is taken again.
pub open spec fn window(rgb: Seq<u8>, w: int, h: int, x: int, y: int, c: int) -> Seq<u8> {
    Seq::new(
        9,
        |k: int| rgb[(clamp_index(y, k / 3 - 1, h) * w + clamp_index(x, k % 3 - 1, w)) * 3 + c],
    )
}

/// Byte `j` of row `y` of the filtered image.
pub open spec fn filtered_byte(rgb: Seq<u8>, w: int, h: int, y: int, j: int) -> u8 {
    median9(window(rgb, w, h, j / 3, y, j % 3))
}

/// Row `y` of the filtered image.
pub open spec fn filtered_row(rgb: Seq<u8>, w: int, h: int, y: int) -> Seq<u8> {
    Seq::new((w * 3) as nat, |j: int| filtered_byte(rgb, w, h, y, j))
}

/// The image after one pass of the median filter: every channel of every
/// pixel becomes the median of that channel in the three by three pixels
/// around it.
pub open spec fn median_filtered(rgb: Seq<u8>, w: int, h: int) -> Seq<u8> {
    Seq::new((w * h * 3) as nat, |k: int| filtered_byte(rgb, w, h, k / (w * 3), k % (w * 3)))
}

/// The image after `passes` passes of the median filter.
pub open spec fn median_filtered_times(rgb: Seq<u8>, w: int, h: int, passes: nat) -> Seq<u8>
    decreases passes,
{
    if passes == 0 {
        rgb
    } else {
        median_filtered(median_filtered_times(rgb, w, h, (passes - 1) as nat), w, h)
    }
}

/// Whether the first `n` of the values are in rising order.
pub open spec fn rising(s: Seq<u8>, n: int) -> bool {
    forall|a: int, b: int| 0 <= a < b < n ==> s[a] <= s[b]
}

/// Sorts the nine values and returns the one in the middle.
fn median_of_window(win: &mut Vec<u8>) -> (m: u8)
    requires
        old(win)@.len() == 9,
    ensures
        final(win)@.len() == 9,
        is_median(old(win)@, m),
        m == median9(old(win)@),
{
    let ghost orig = win@;
    let mut i: usize = 1;
    while i < 9
        invariant
            1 <= i <= 9,
            win@.len() == 9,
            rising(win@, i as int),
            forall|v: int|
                #![trigger count_below(win@, v)]
                #![trigger count_above(win@, v)]
                count_below(win@, v) == count_below(orig, v) && count_above(win@, v) == count_above(
                    orig,
                    v,
                ),
        decreases 9 - i,
    {
        let mut j: usize = i;
        while j > 0 && win[j - 1] > win[j]
            invariant
                j <= i < 9,
                win@.len() == 9,
                forall|a: int, b: int| 0 <= a < b <= i && a != j && b != j ==> win@[a] <= win@[b],
                forall|b: int| j < b <= i ==> win@[j as int] <= win@[b],
                forall|v: int|
                    #![trigger count_below(win@, v)]
                    #![trigger count_above(win@, v)]
                    count_below(win@, v) == count_below(orig, v) && count_above(win@, v)
                        == count_above(orig, v),
            decreases j,
        {
            let ghost before = win@;
            let lo: u8 = win[j];
            let hi: u8 = win[j - 1];
            win.set(j - 1, lo);
            win.set(j, hi);
            assert forall|v: int|
                #![trigger count_below(win@, v)]
                #![trigger count_above(win@, v)]
                count_below(win@, v) == count_below(before, v) && count_above(win@, v)
                    == count_above(before, v) by {
                assert(win@ == before.update(j - 1, lo).update(j as int, hi));
            }
            j = j - 1;
        }
        i = i + 1;
    }
    let m: u8 = win[4];
    assert(is_median(win@, m));
    assert(is_median(orig, m));
    proof {
        lemma_median_is_median9(orig, m);
    }
    m
}

/// Position `p + step - 1` on an axis of `len` positions, kept on the axis.
fn neighbour(p: usize, step: usize, len: usize) -> (q: usize)
    requires
        p < len,
        step < 3,
    ensures
        q == clamp_index(p as int, step - 1, len as int),
        q < len,
{
    if step == 0 {
        if p == 0 {
            0
        } else {
            p - 1
        }
    } else if step == 1 {
        p
    } else if p + 1 < len {
        p + 1
    } else {
        len - 1
    }
}

/// Row `y` of the image after one pass of the median filter.
pub fn median_filter_row(rgb: &[u8], width: usize, height: usize, y: usize) -> (row: Vec<u8>)
    requires
        rgb@.len() == width * height * 3,
        y < height,
    ensures
        row@ == filtered_row(rgb@, width as int, height as int, y as int),
{
    let ghost src = rgb@;
    let ghost w = width as int;
    let ghost h = height as int;
    let total: usize = rgb.len();
    let mut row: Vec<u8> = Vec::new();
    let mut win: Vec<u8> = vec![0u8; 9];
    assert(width * 3 <= width * height * 3) by (nonlinear_arith)
        requires
            height >= 1,
    ;
    let mut x: usize = 0;
    while x < width
        invariant
            x <= width,
            y < height,
            w == width,
            h == height,
            src == rgb@,
            total == rgb@.len(),
            rgb@.len() == width * height * 3,
            width * 3 <= total,
            win@.len() == 9,
            row@.len() == x * 3,
            forall|j: int| 0 <= j < row@.len() ==> #[trigger] row@[j] == filtered_byte(src, w, h, y as int, j),
        decreases width - x,
    {
        let mut c: usize = 0;
        while c < 3
            invariant
                c <= 3,
                x < width,
                y < height,
                w == width,
                h == height,
                src == rgb@,
                total == rgb@.len(),
                rgb@.len() == width * height * 3,
                width * 3 <= total,
                win@.len() == 9,
                row@.len() == x * 3 + c,
                forall|j: int|
                    0 <= j < row@.len() ==> #[trigger] row@[j] == filtered_byte(src, w, h, y as int, j),
            decreases 3 - c,
        {
            let mut k: usize = 0;
            while k < 9
                invariant
                    k <= 9,
                    c < 3,
                    x < width,
                    y < height,
                    w == width,
                    h == height,
                    src == rgb@,
                    total == rgb@.len(),
                    rgb@.len() == width * height * 3,
                    win@.len() == 9,
                    forall|t: int|
                        0 <= t < k ==> #[trigger] win@[t] == window(src, w, h, x as int, y as int, c as int)[t],
                decreases 9 - k,
            {
                let ny: usize = neighbour(y, k / 3, height);
                let nx: usize = neighbour(x, k % 3, width);
                assert((ny * w + nx) * 3 + c < w * h * 3) by (nonlinear_arith)
                    requires
                        0 <= ny < h,
                        0 <= nx < w,
                        0 <= c < 3,
                ;
                let v: u8 = rgb[(ny * width + nx) * 3 + c];
                win.set(k, v);
                k = k + 1;
            }
            assert(win@ =~= window(src, w, h, x as int, y as int, c as int));
            let m: u8 = median_of_window(&mut win);
            row.push(m);
            c = c + 1;
        }
        x = x + 1;
    }
    assert(row@ =~= filtered_row(src, w, h, y as int));
    row
}

impl GpuProcessor {
    /// The backend that the processor works on.
    pub closed spec fn spec_backend(&self) -> GpuBackend {
        self.backend
    }

    /// A processor that works on the processor's cores.
    pub fn new() -> (p: GpuProcessor)
        ensures
            p.spec_backend() == GpuBackend::Cpu,
    {
        GpuProcessor { backend: GpuBackend::Cpu }
    }

    /// A description of the backend.
    pub fn backend_info(&self) -> (info: &'static str)
        ensures
            info@ == match self.spec_backend() {
                GpuBackend::SomaCompute => "soma_compute GPU (via UMA)"@,
                GpuBackend::Cpu => "CPU (SIMD via rayon)"@,
            },
    {
        match self.backend {
            GpuBackend::SomaCompute => "soma_compute GPU (via UMA)",
            GpuBackend::Cpu => "CPU (SIMD via rayon)",
        }
    }

    /// Whether the processor works on a graphics processor.
    pub fn has_gpu(&self) -> (b: bool)
        ensures
            b == (self.spec_backend() == GpuBackend::SomaCompute),
    {
        self.backend == GpuBackend::SomaCompute
    }

    /// Scales an image with the `fast_image_resize` crate.
    ///
    /// Calls `Image::from_vec_u8` on a copy of the bytes, `Image::new` for
    /// the result, `Resizer::new` and `Resizer::resize` without options, and
    /// copies the result's `buffer`.  Trusted: a source is refused exactly
    /// where it is shorter than three bytes for each of its pixels, and a
    /// result that is handed out has three bytes for each of its pixels.
    /// The error holds the crate's report.
    #[verifier::external_body]
    fn resize_with_convolution(
        rgb: &[u8],
        src_width: u32,
        src_height: u32,
        dst_width: u32,
        dst_height: u32,
    ) -> (r: Result<Vec<u8>, String>)
        requires
            src_width * src_height * 3 <= usize::MAX,
            dst_width * dst_height * 3 <= usize::MAX,
        ensures
            r is Ok <==> rgb@.len() >= src_width * src_height * 3,
            r matches Ok(out) ==> out@.len() == dst_width * dst_height * 3,
    {
        let pixel_type = fast_image_resize::PixelType::U8x3;
        let src = Image::from_vec_u8(src_width, src_height, rgb.to_vec(), pixel_type).map_err(
            |e| format!("Failed to create source image: {:?}", e),
        )?;
        let mut dst = Image::new(dst_width, dst_height, pixel_type);
        fast_image_resize::Resizer::new().resize(&src, &mut dst, None).map_err(
            |e| format!("Resize failed: {:?}", e),
        )?;
        Ok(dst.buffer().to_vec())
    }

    /// What `resize` hands out for an outcome of the scaling library: the
    /// pixels as they are, or the library's report as an error of
    /// processing.
    pub fn resize_result(outcome: Result<Vec<u8>, String>) -> (r: Result<Vec<u8>, MediaError>)
        ensures
            r == match outcome {
                Ok(out) => Ok::<Vec<u8>, MediaError>(out),
                Err(report) => Err::<Vec<u8>, MediaError>(MediaError::ProcessingError(report)),
            },
    {
        match outcome {
            Ok(out) => Ok(out),
            Err(report) => Err(MediaError::ProcessingError(report)),
        }
    }

    /// Scales an image of `src_width` by `src_height` pixels, three bytes
    /// per pixel, to `dst_width` by `dst_height` pixels.
    ///
    /// An image that holds fewer bytes than its size asks for is refused;
    /// every other image is scaled.  The pixels of the result are those
    /// that the scaling library computes on this machine.
    pub fn resize(
        &self,
        rgb_data: &[u8],
        src_width: u32,
        src_height: u32,
        dst_width: u32,
        dst_height: u32,
    ) -> (r: Result<Vec<u8>, MediaError>)
        requires
            src_width * src_height * 3 <= usize::MAX,
            dst_width * dst_height * 3 <= usize::MAX,
        ensures
            r is Ok <==> rgb_data@.len() >= src_width * src_height * 3,
            r matches Ok(out) ==> out@.len() == dst_width * dst_height * 3,
            r matches Err(e) ==> e is ProcessingError,
    {
        Self::resize_result(
            Self::resize_with_convolution(rgb_data, src_width, src_height, dst_width, dst_height),
        )
    }

    /// Scales every image of a list, on rayon's worker pool.
    ///
    /// Calls `par_iter` on the list, `map` with `resize` and `collect` into
    /// a result.  Trusted: rayon hands each image to the closure once; where
    /// every call succeeds it collects the results in the order of the
    /// images, and where one fails it hands out one of the errors.  So the
    /// list is scaled exactly where `resize` scales each of its images, and
    /// each result is what `resize` ensures for its image.
    #[verifier::external_body]
    fn resize_all_in_parallel(
        &self,
        images: &Vec<(Vec<u8>, u32, u32)>,
        target_width: u32,
        target_height: u32,
    ) -> (r: Result<Vec<Vec<u8>>, MediaError>)
        requires
            target_width * target_height * 3 <= usize::MAX,
            forall|i: int|
                0 <= i < images@.len() ==> (#[trigger] images@[i]).1 * images@[i].2 * 3 <= usize::MAX,
        ensures
            r matches Ok(out) ==> out@.len() == images@.len() && forall|i: int|
                0 <= i < out@.len() ==> (#[trigger] out@[i])@.len() == target_width * target_height
                    * 3,
            r is Ok <==> (forall|i: int|
                0 <= i < images@.len() ==> (#[trigger] images@[i]).0@.len() >= images@[i].1
                    * images@[i].2 * 3),
            r matches Err(e) ==> e is ProcessingError,
    {
        images.par_iter().map(|image| self.resize(&image.0, image.1, image.2, target_width, target_height)).collect()
    }

    /// Scales every image of a list to `target_width` by `target_height`
    /// pixels.  Each image comes with its width and its height.  The list
    /// is refused as a whole exactly where one of its images is.
    pub fn batch_resize(
        &self,
        images: Vec<(Vec<u8>, u32, u32)>,
        target_width: u32,
        target_height: u32,
    ) -> (r: Result<Vec<Vec<u8>>, MediaError>)
        requires
            target_width * target_height * 3 <= usize::MAX,
            forall|i: int|
                0 <= i < images@.len() ==> (#[trigger] images@[i]).1 * images@[i].2 * 3 <= usize::MAX,
        ensures
            r matches Ok(out) ==> out@.len() == images@.len() && forall|i: int|
                0 <= i < out@.len() ==> (#[trigger] out@[i])@.len() == target_width * target_height
                    * 3,
            r is Ok <==> (forall|i: int|
                0 <= i < images@.len() ==> (#[trigger] images@[i]).0@.len() >= images@[i].1
                    * images@[i].2 * 3),
            r matches Err(e) ==> e is ProcessingError,
    {
        self.resize_all_in_parallel(&images, target_width, target_height)
    }

    /// The rows of the image after one pass of the median filter, each
    /// computed on rayon's worker pool.
    ///
    /// Calls `into_par_iter` on the range of rows, `map` with
    /// `median_filter_row` and `collect` into a vector.  Trusted: rayon
    /// hands each row number to the closure once and collects the results
    /// in the order of the rows, so that each result is what
    /// `median_filter_row` ensures for its row.
    #[verifier::external_body]
    fn median_rows_in_parallel(&self, rgb: &[u8], width: usize, height: usize) -> (rows: Vec<
        Vec<u8>,
    >)
        requires
            rgb@.len() == width * height * 3,
        ensures
            rows@.len() == height,
            forall|y: int|
                0 <= y < height ==> (#[trigger] rows@[y])@ == filtered_row(
                    rgb@,
                    width as int,
                    height as int,
                    y,
                ),
    {
        (0..height).into_par_iter().map(|y| median_filter_row(rgb, width, height, y)).collect()
    }

    /// One pass of the median filter over an image of `width` by `height`
    /// pixels, three bytes per pixel.
    pub fn median_filter_pass(&self, rgb_data: &[u8], width: u32, height: u32) -> (r: Result<
        Vec<u8>,
        MediaError,
    >)
        requires
            width > 0,
            rgb_data@.len() == width * height * 3,
        ensures
            r matches Ok(out) && out@ == median_filtered(rgb_data@, width as int, height as int),
    {
        let w: usize = width as usize;
        let h: usize = height as usize;
        let total: usize = rgb_data.len();
        let rows = self.median_rows_in_parallel(rgb_data, w, h);
        let ghost src = rgb_data@;
        let mut out: Vec<u8> = Vec::new();
        assert(w * 3 <= total || h == 0) by (nonlinear_arith)
            requires
                total == w * h * 3,
                h >= 0,
                w >= 0,
        ;
        let mut y: usize = 0;
        while y < h
            invariant
                y <= h,
                w > 0,
                total == w * h * 3,
                src == rgb_data@,
                rows@.len() == h,
                forall|r: int|
                    0 <= r < h ==> (#[trigger] rows@[r])@ == filtered_row(src, w as int, h as int, r),
                out@.len() == y * (w * 3),
                forall|k: int|
                    0 <= k < out@.len() ==> #[trigger] out@[k] == filtered_byte(
                        src,
                        w as int,
                        h as int,
                        k / (w * 3),
                        k % (w * 3),
                    ),
            decreases h - y,
        {
            let row = &rows[y];
            let ghost row_len = w * 3;
            let mut j: usize = 0;
            assert(w * 3 <= total) by (nonlinear_arith)
                requires
                    total == w * h * 3,
                    h >= 1,
                    w >= 0,
            ;
            assert(y * (w * 3) + w * 3 <= total) by (nonlinear_arith)
                requires
                    total == w * h * 3,
                    y < h,
                    w >= 0,
            ;
            while j < w * 3
                invariant
                    j <= w * 3,
                    y < h,
                    w > 0,
                    row_len == w * 3,
                    w * 3 <= total,
                    y * (w * 3) + w * 3 <= total,
                    src == rgb_data@,
                    row@ == filtered_row(src, w as int, h as int, y as int),
                    out@.len() == y * (w * 3) + j,
                    forall|k: int|
                        0 <= k < out@.len() ==> #[trigger] out@[k] == filtered_byte(
                            src,
                            w as int,
                            h as int,
                            k / (w * 3),
                            k % (w * 3),
                        ),
                decreases w * 3 - j,
            {
                proof {
                    lemma_index_split(y as int, j as int, row_len);
                }
                out.push(row[j]);
                j = j + 1;
            }
            assert((y + 1) * (w * 3) == y * (w * 3) + w * 3) by (nonlinear_arith);
            y = y + 1;
        }
        assert(h * (w * 3) == w * h * 3) by (nonlinear_arith);
        assert(out@ =~= median_filtered(src, w as int, h as int));
        Ok(out)
    }

    /// Runs the median filter `passes` times over an image of `width` by
    /// `height` pixels, three bytes per pixel.  Without a pass the bytes are
    /// handed back as they are, whatever the size.
    pub fn median_filter(&self, rgb_data: &[u8], width: u32, height: u32, passes: u8) -> (r: Result<
        Vec<u8>,
        MediaError,
    >)
        requires
            passes == 0 || (width > 0 && rgb_data@.len() == width * height * 3),
        ensures
            r matches Ok(out) && out@ == median_filtered_times(
                rgb_data@,
                width as int,
                height as int,
                passes as nat,
            ),
    {
        let mut data: Vec<u8> = vstd::slice::slice_to_vec(rgb_data);
        if passes == 0 {
            return Ok(data);
        }
        let mut done: u8 = 0;
        while done < passes
            invariant
                done <= passes,
                width > 0,
                data@.len() == width * height * 3,
                data@ == median_filtered_times(
                    rgb_data@,
                    width as int,
                    height as int,
                    done as nat,
                ),
            decreases passes - done,
        {
            match self.median_filter_pass(data.as_slice(), width, height) {
                Ok(next) => {
                    data = next;
                },
                Err(e) => {
                    return Err(e);
                },
            }
            done = done + 1;
        }
        Ok(data)
    }
}

impl Default for GpuProcessor {
    fn default() -> (p: GpuProcessor)
        ensures
            p.spec_backend() == GpuBackend::Cpu,
    {
        GpuProcessor::new()
    }
}

} // verus!
