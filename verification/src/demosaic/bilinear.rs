//! Bilinear reconstruction of one tile.
//!
//! Every sample away from the tile's border becomes a pixel: the channel
//! that the sensor recorded there is kept, the two others are averaged from
//! the nearest samples of their colour.  The outermost ring of the tile has
//! no full neighbourhood and stays black; the overlap of the neighbouring
//! tiles covers it when the tiles are blended.  A tile narrower or lower
//! than three samples has no inner pixel and comes out black throughout.

use vstd::prelude::*;
use crate::demosaic::engine::{DemosaicAlgorithm, ParallelDemosaic};
use crate::demosaic::pattern::{color_of, BayerPattern, BLUE, RED};
use crate::demosaic::tiling::{lemma_index_split, Tile, TileView};

verus! {

/// A sample less the black level, never below zero.
pub open spec fn above_black(v: u16, black: u16) -> int {
    if v > black {
        v - black
    } else {
        0
    }
}

/// A level of `v` above black, brought to 0..=255 where `range` is the
/// distance from black to white.  Values beyond white saturate, and so does
/// every value when the range is empty.
pub open spec fn scale_to_byte(v: int, range: int) -> u8 {
    if range <= 0 || v * 255 / range >= 255 {
        255u8
    } else {
        (v * 255 / range) as u8
    }
}

/// Mean of the samples left, right, above and below position `idx`.
pub open spec fn cross_mean(bayer: Seq<u16>, idx: int, w: int, black: u16) -> int {
    (above_black(bayer[idx - 1], black) + above_black(bayer[idx + 1], black) + above_black(
        bayer[idx - w],
        black,
    ) + above_black(bayer[idx + w], black)) / 4
}

/// Mean of the four samples diagonal to position `idx`.
pub open spec fn corner_mean(bayer: Seq<u16>, idx: int, w: int, black: u16) -> int {
    (above_black(bayer[idx - w - 1], black) + above_black(bayer[idx - w + 1], black)
        + above_black(bayer[idx + w - 1], black) + above_black(bayer[idx + w + 1], black)) / 4
}

/// Mean of the samples left and right of position `idx`.
pub open spec fn row_mean(bayer: Seq<u16>, idx: int, black: u16) -> int {
    (above_black(bayer[idx - 1], black) + above_black(bayer[idx + 1], black)) / 2
}

/// Mean of the samples above and below position `idx`.
pub open spec fn column_mean(bayer: Seq<u16>, idx: int, w: int, black: u16) -> int {
    (above_black(bayer[idx - w], black) + above_black(bayer[idx + w], black)) / 2
}

/// Whether the green photosite at sensor position `(gx, gy)` has red
/// neighbours in its row.
pub open spec fn on_red_row(pattern: BayerPattern, gx: int, gy: int) -> bool {
    color_of(pattern, gx - 1, gy) == RED || color_of(pattern, gx + 1, gy) == RED
}

/// Level above black of channel `c` at the inner position `(x, y)` of a
/// tile whose first sample stands at `(ox, oy)` on the sensor.
pub open spec fn channel_level(
    bayer: Seq<u16>,
    w: int,
    ox: int,
    oy: int,
    pattern: BayerPattern,
    black: u16,
    x: int,
    y: int,
    c: int,
) -> int {
    let idx = y * w + x;
    let here = above_black(bayer[idx], black);
    let color = color_of(pattern, ox + x, oy + y);
    if color == RED {
        if c == 0 {
            here
        } else if c == 1 {
            cross_mean(bayer, idx, w, black)
        } else {
            corner_mean(bayer, idx, w, black)
        }
    } else if color == BLUE {
        if c == 0 {
            corner_mean(bayer, idx, w, black)
        } else if c == 1 {
            cross_mean(bayer, idx, w, black)
        } else {
            here
        }
    } else if on_red_row(pattern, ox + x, oy + y) {
        if c == 0 {
            row_mean(bayer, idx, black)
        } else if c == 1 {
            here
        } else {
            column_mean(bayer, idx, w, black)
        }
    } else {
        if c == 0 {
            column_mean(bayer, idx, w, black)
        } else if c == 1 {
            here
        } else {
            row_mean(bayer, idx, black)
        }
    }
}

/// Whether `(x, y)` is away from the border of a `w` by `h` tile.
pub open spec fn is_inner(x: int, y: int, w: int, h: int) -> bool {
    1 <= x < w - 1 && 1 <= y < h - 1
}

/// Byte `k` of the reconstructed tile, three bytes per pixel in the order
/// red, green, blue.
pub open spec fn demosaic_byte(
    bayer: Seq<u16>,
    w: int,
    h: int,
    ox: int,
    oy: int,
    pattern: BayerPattern,
    black: u16,
    white: u16,
    k: int,
) -> u8 {
    let p = k / 3;
    let x = p % w;
    let y = p / w;
    if is_inner(x, y, w, h) {
        scale_to_byte(
            channel_level(bayer, w, ox, oy, pattern, black, x, y, k % 3),
            above_black(white, black),
        )
    } else {
        0u8
    }
}

/// The reconstructed tile as interleaved bytes.
pub open spec fn demosaic_image(
    bayer: Seq<u16>,
    w: int,
    h: int,
    ox: int,
    oy: int,
    pattern: BayerPattern,
    black: u16,
    white: u16,
) -> Seq<u8> {
    Seq::new((w * h * 3) as nat, |k: int| demosaic_byte(bayer, w, h, ox, oy, pattern, black, white, k))
}

/// A reconstructed tile: three bytes per pixel and the place of its source.
pub struct DemosaicedTile {
    /// Pixels row by row, each as red, green, blue.
    pub rgb: Vec<u8>,
    /// Column of the tile's first pixel in the whole image.
    pub x: usize,
    /// Row of the tile's first pixel in the whole image.
    pub y: usize,
    /// Pixels per row.
    pub width: usize,
    /// Number of rows.
    pub height: usize,
    /// Width of the band, at each edge, that neighbouring tiles share.
    pub overlap: usize,
}

/// A reconstructed tile as a value.
#[verifier::ext_equal]
pub struct DemosaicedTileView {
    /// Pixels row by row, each as red, green, blue.
    pub rgb: Seq<u8>,
    /// Column of the tile's first pixel in the whole image.
    pub x: int,
    /// Row of the tile's first pixel in the whole image.
    pub y: int,
    /// Pixels per row.
    pub width: int,
    /// Number of rows.
    pub height: int,
    /// Width of the band, at each edge, that neighbouring tiles share.
    pub overlap: int,
}

impl DemosaicedTileView {
    /// The tile holds three bytes for each of its `width * height` pixels.
    pub open spec fn wf(&self) -> bool {
        &&& 0 <= self.x
        &&& 0 <= self.y
        &&& 0 <= self.width
        &&& 0 <= self.height
        &&& 0 <= self.overlap
        &&& self.rgb.len() == self.width * self.height * 3
    }
}

impl View for DemosaicedTile {
    type V = DemosaicedTileView;

    open spec fn view(&self) -> DemosaicedTileView {
        DemosaicedTileView {
            rgb: self.rgb@,
            x: self.x as int,
            y: self.y as int,
            width: self.width as int,
            height: self.height as int,
            overlap: self.overlap as int,
        }
    }
}

impl DemosaicedTile {
    /// The tile holds three bytes for each of its `width * height` pixels
    /// and its far corner is an addressable position.
    pub open spec fn wf(&self) -> bool {
        &&& self.rgb@.len() == self.width * self.height * 3
        &&& self.width * self.height * 3 <= usize::MAX
        &&& self.x + self.width <= usize::MAX
        &&& self.y + self.height <= usize::MAX
    }
}

/// The values of a list of reconstructed tiles.
pub open spec fn demosaiced_views(tiles: Seq<DemosaicedTile>) -> Seq<DemosaicedTileView> {
    tiles.map_values(|t: DemosaicedTile| t@)
}

/// The reconstruction of `tile`: its pixels, at the place of the tile.
pub open spec fn demosaiced(tile: TileView, pattern: BayerPattern, black: u16, white: u16) -> DemosaicedTileView {
    DemosaicedTileView {
        rgb: demosaic_image(tile.data, tile.width, tile.height, tile.x, tile.y, pattern, black, white),
        x: tile.x,
        y: tile.y,
        width: tile.width,
        height: tile.height,
        overlap: tile.overlap,
    }
}

/// A tile too small to have an inner pixel reconstructs to black.
pub proof fn lemma_degenerate_tile_is_black(
    tile: TileView,
    pattern: BayerPattern,
    black: u16,
    white: u16,
    k: int,
)
    requires
        tile.width < 3 || tile.height < 3,
        0 <= tile.width,
        0 <= tile.height,
        0 <= k < tile.width * tile.height * 3,
    ensures
        demosaiced(tile, pattern, black, white).rgb[k] == 0,
{
    let w = tile.width;
    let h = tile.height;
    assert(w > 0 && h > 0) by (nonlinear_arith)
        requires
            0 <= w,
            0 <= h,
            0 <= k < w * h * 3,
    ;
    assert(w * h == h * w) by (nonlinear_arith);
    crate::demosaic::tiling::lemma_index_join(k / 3, w);
    crate::demosaic::tiling::lemma_index_row_bound(k / 3, w, h);
}

/// A flat field reconstructs flat: where every sample is `v`, every inner
/// pixel shows the level of `v` in each of its channels.
pub proof fn lemma_flat_field_reconstructs_flat(
    bayer: Seq<u16>,
    w: int,
    h: int,
    ox: int,
    oy: int,
    pattern: BayerPattern,
    black: u16,
    white: u16,
    v: u16,
    k: int,
)
    requires
        0 <= w,
        0 <= h,
        bayer.len() >= w * h,
        forall|i: int| 0 <= i < bayer.len() ==> bayer[i] == v,
        0 <= k < w * h * 3,
        is_inner((k / 3) % w, (k / 3) / w, w, h),
    ensures
        demosaic_byte(bayer, w, h, ox, oy, pattern, black, white, k) == scale_to_byte(
            above_black(v, black),
            above_black(white, black),
        ),
{
    let x = (k / 3) % w;
    let y = (k / 3) / w;
    let idx = y * w + x;
    assert(w <= idx - 1 && idx + w + 1 < w * h) by (nonlinear_arith)
        requires
            idx == y * w + x,
            1 <= x < w - 1,
            1 <= y < h - 1,
    ;
    assert(bayer[idx] == v);
    assert(bayer[idx - 1] == v);
    assert(bayer[idx + 1] == v);
    assert(bayer[idx - w] == v);
    assert(bayer[idx + w] == v);
    assert(bayer[idx - w - 1] == v);
    assert(bayer[idx - w + 1] == v);
    assert(bayer[idx + w - 1] == v);
    assert(bayer[idx + w + 1] == v);
}

/// A sample less the black level, never below zero.
fn level(v: u16, black: u16) -> (r: u32)
    ensures
        r == above_black(v, black),
        r <= 65535,
{
    if v > black {
        (v - black) as u32
    } else {
        0
    }
}

/// Brings a level to a byte.
fn to_byte(v: u32, range: u32) -> (r: u8)
    requires
        v <= 65535,
    ensures
        r == scale_to_byte(v as int, range as int),
{
    if range == 0 {
        255
    } else {
        let s: u32 = v * 255 / range;
        if s >= 255 {
            255
        } else {
            s as u8
        }
    }
}

impl ParallelDemosaic {
    /// Reconstructs the pixels of a `width` by `height` block of samples
    /// whose first sample stands at `(offset_x, offset_y)` on the sensor.
    pub fn demosaic_bilinear(
        &self,
        bayer: &[u16],
        width: usize,
        height: usize,
        offset_x: usize,
        offset_y: usize,
        pattern: BayerPattern,
        black_level: u16,
        white_level: u16,
    ) -> (rgb: Vec<u8>)
        requires
            bayer@.len() == width * height,
            width * height * 3 <= usize::MAX,
            offset_x + width <= usize::MAX,
            offset_y + height <= usize::MAX,
        ensures
            rgb@ == demosaic_image(
                bayer@,
                width as int,
                height as int,
                offset_x as int,
                offset_y as int,
                pattern,
                black_level,
                white_level,
            ),
    {
        let range: u32 = level(white_level, black_level);
        let total: usize = width * height * 3;
        let mut rgb: Vec<u8> = vec![0u8; total];
        let ghost src = bayer@;
        let ghost w = width as int;
        let ghost h = height as int;
        let ghost ox = offset_x as int;
        let ghost oy = offset_y as int;
        if width < 3 || height < 3 {
            assert(rgb@ =~= demosaic_image(src, w, h, ox, oy, pattern, black_level, white_level));
            return rgb;
        }
        assert forall|k: int| 0 <= k < total && k / 3 < w implies demosaic_byte(
            src,
            w,
            h,
            ox,
            oy,
            pattern,
            black_level,
            white_level,
            k,
        ) == 0 by {
            lemma_index_split(0, k / 3, w);
        }
        let mut y: usize = 1;
        while y + 1 < height
            invariant
                1 <= y < height,
                width >= 3,
                height >= 3,
                src == bayer@,
                w == width,
                h == height,
                ox == offset_x,
                oy == offset_y,
                range == above_black(white_level, black_level),
                bayer@.len() == width * height,
                total == width * height * 3,
                offset_x + width <= usize::MAX,
                offset_y + height <= usize::MAX,
                rgb@.len() == total,
                forall|k: int|
                    0 <= k < total ==> rgb@[k] == if k / 3 < y * w {
                        demosaic_byte(src, w, h, ox, oy, pattern, black_level, white_level, k)
                    } else {
                        0u8
                    },
            decreases height - y,
        {
            assert((y + 1) * w == y * w + w && (y - 1) * w == y * w - w) by (nonlinear_arith);
            assert((y + 1) * w + w <= h * w && y * w >= w) by (nonlinear_arith)
                requires
                    1 <= y,
                    y + 2 <= h,
                    w >= 3,
            ;
            assert(h * w == w * h) by (nonlinear_arith);
            assert forall|k: int| 0 <= k < total && k / 3 == y * w implies demosaic_byte(
                src,
                w,
                h,
                ox,
                oy,
                pattern,
                black_level,
                white_level,
                k,
            ) == 0 by {
                lemma_index_split(y as int, 0, w);
            }
            let row: usize = y * width;
            let mut x: usize = 1;
            while x + 1 < width
                invariant
                    1 <= x < width,
                    1 <= y,
                    y + 1 < height,
                    width >= 3,
                    height >= 3,
                    row == y * w,
                    row >= w,
                    row + w + w <= w * h,
                    src == bayer@,
                    w == width,
                    h == height,
                    ox == offset_x,
                    oy == offset_y,
                    range == above_black(white_level, black_level),
                    bayer@.len() == width * height,
                    total == width * height * 3,
                    offset_x + width <= usize::MAX,
                    offset_y + height <= usize::MAX,
                    rgb@.len() == total,
                    forall|k: int|
                        0 <= k < total ==> rgb@[k] == if k / 3 < y * w + x {
                            demosaic_byte(src, w, h, ox, oy, pattern, black_level, white_level, k)
                        } else {
                            0u8
                        },
                decreases width - x,
            {
                let gx: usize = offset_x + x;
                let gy: usize = offset_y + y;
                let color: u8 = pattern.color_at(gx, gy);
                let idx: usize = row + x;
                let here: u32 = level(bayer[idx], black_level);
                let left: u32 = level(bayer[idx - 1], black_level);
                let right: u32 = level(bayer[idx + 1], black_level);
                let up: u32 = level(bayer[idx - width], black_level);
                let down: u32 = level(bayer[idx + width], black_level);
                let r: u32;
                let g: u32;
                let b: u32;
                if color == RED || color == BLUE {
                    let ul: u32 = level(bayer[idx - width - 1], black_level);
                    let ur: u32 = level(bayer[idx - width + 1], black_level);
                    let dl: u32 = level(bayer[idx + width - 1], black_level);
                    let dr: u32 = level(bayer[idx + width + 1], black_level);
                    let cross: u32 = (left + right + up + down) / 4;
                    let corner: u32 = (ul + ur + dl + dr) / 4;
                    g = cross;
                    if color == RED {
                        r = here;
                        b = corner;
                    } else {
                        r = corner;
                        b = here;
                    }
                } else {
                    let red_row: bool = pattern.color_at(gx - 1, gy) == RED || pattern.color_at(
                        gx + 1,
                        gy,
                    ) == RED;
                    g = here;
                    if red_row {
                        r = (left + right) / 2;
                        b = (up + down) / 2;
                    } else {
                        b = (left + right) / 2;
                        r = (up + down) / 2;
                    }
                }
                proof {
                    lemma_index_split(y as int, x as int, w);
                    assert(channel_level(src, w, ox, oy, pattern, black_level, x as int, y as int, 0) == r);
                    assert(channel_level(src, w, ox, oy, pattern, black_level, x as int, y as int, 1) == g);
                    assert(channel_level(src, w, ox, oy, pattern, black_level, x as int, y as int, 2) == b);
                }
                let out_idx: usize = idx * 3;
                rgb.set(out_idx, to_byte(r, range));
                rgb.set(out_idx + 1, to_byte(g, range));
                rgb.set(out_idx + 2, to_byte(b, range));
                x = x + 1;
            }
            assert forall|k: int|
                0 <= k < total && y * w + x <= k / 3 < (y + 1) * w implies demosaic_byte(
                src,
                w,
                h,
                ox,
                oy,
                pattern,
                black_level,
                white_level,
                k,
            ) == 0 by {
                lemma_index_split(y as int, k / 3 - y * w, w);
            }
            y = y + 1;
        }
        assert forall|k: int| 0 <= k < total && k / 3 >= y * w implies demosaic_byte(
            src,
            w,
            h,
            ox,
            oy,
            pattern,
            black_level,
            white_level,
            k,
        ) == 0 by {
            let p = k / 3;
            crate::demosaic::tiling::lemma_index_join(p, w);
            assert(p / w >= y) by (nonlinear_arith)
                requires
                    p == (p / w) * w + p % w,
                    p % w < w,
                    p >= y * w,
                    w > 0,
            ;
        }
        assert(rgb@ =~= demosaic_image(src, w, h, ox, oy, pattern, black_level, white_level));
        rgb
    }

    /// Reconstructs one tile.  The result lies where the tile lay.
    pub fn demosaic_tile(
        &self,
        tile: &Tile,
        pattern: BayerPattern,
        black_level: u16,
        white_level: u16,
    ) -> (out: DemosaicedTile)
        requires
            tile.wf(),
        ensures
            out@ == demosaiced(tile@, pattern, black_level, white_level),
            out.wf(),
    {
        let rgb = match self.algorithm() {
            DemosaicAlgorithm::Bilinear => self.demosaic_bilinear(
                tile.data.as_slice(),
                tile.width,
                tile.height,
                tile.x,
                tile.y,
                pattern,
                black_level,
                white_level,
            ),
            DemosaicAlgorithm::VNG => self.demosaic_bilinear(
                tile.data.as_slice(),
                tile.width,
                tile.height,
                tile.x,
                tile.y,
                pattern,
                black_level,
                white_level,
            ),
            DemosaicAlgorithm::AHD => self.demosaic_bilinear(
                tile.data.as_slice(),
                tile.width,
                tile.height,
                tile.x,
                tile.y,
                pattern,
                black_level,
                white_level,
            ),
        };
        DemosaicedTile {
            rgb,
            x: tile.x,
            y: tile.y,
            width: tile.width,
            height: tile.height,
            overlap: tile.overlap,
        }
    }
}

} // verus!
