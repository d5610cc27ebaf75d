//! Blending reconstructed tiles into one image.
//!
//! Inside a tile a pixel weighs one; across the overlap band at each edge
//! the weight falls linearly to zero at the first and the last row and
//! column, which the reconstruction leaves black.  Where tiles
//! overlap, the image holds the running weighted mean of their pixels, taken
//! tile after tile and rounded down after each.  Weights are whole numbers
//! counted in units of one over the overlap squared, so all tiles of one
//! blend share their overlap.

use vstd::prelude::*;
use crate::demosaic::bilinear::{demosaiced_views, DemosaicedTile, DemosaicedTileView};
use crate::demosaic::engine::{ParallelDemosaic, MAX_OVERLAP};
use crate::demosaic::tiling::{lemma_index_join, lemma_index_split};

verus! {

/// What can go wrong when tiles are put together.
#[derive(Debug, Clone, Copy, PartialEq, Eq, Structural)]
pub enum DemosaicError {
    /// Some pixel of the image lies in no tile.
    CoverageGap,
}

/// Distance of position `t` from the nearer end of an axis of `len`
/// positions: zero at the first and at the last position.
pub open spec fn edge_distance(t: int, len: int) -> int {
    if t < len - 1 - t {
        t
    } else {
        len - 1 - t
    }
}

/// Weight, in units of one over `overlap`, of a position `t` along an axis
/// of `len` positions: its distance from the nearer end, at most the full
/// `overlap`.  The first and the last position weigh nothing.  Without an
/// overlap every position weighs one.
pub open spec fn ramp(t: int, len: int, overlap: int) -> int {
    if overlap == 0 {
        1
    } else if edge_distance(t, len) < overlap {
        edge_distance(t, len)
    } else {
        overlap
    }
}

/// Whether the tile holds the image pixel `(px, py)`.
pub open spec fn holds_pixel(tile: DemosaicedTileView, px: int, py: int) -> bool {
    tile.x <= px < tile.x + tile.width && tile.y <= py < tile.y + tile.height
}

/// Position of the image pixel `(px, py)` within the tile, row by row.
pub open spec fn local_index(tile: DemosaicedTileView, px: int, py: int) -> int {
    (py - tile.y) * tile.width + (px - tile.x)
}

/// Weight that the tile gives to the image pixel `(px, py)`; zero where the
/// tile does not hold it.
pub open spec fn weight_at(tile: DemosaicedTileView, px: int, py: int) -> int {
    if holds_pixel(tile, px, py) {
        ramp(px - tile.x, tile.width, tile.overlap) * ramp(
            py - tile.y,
            tile.height,
            tile.overlap,
        )
    } else {
        0
    }
}

/// Channel `c` of the tile's pixel at the image position `(px, py)`.
pub open spec fn sample_at(tile: DemosaicedTileView, px: int, py: int, c: int) -> int {
    tile.rgb[local_index(tile, px, py) * 3 + c] as int
}

/// Weight gathered at `(px, py)` from the first `n` tiles.
pub open spec fn blend_weight(tiles: Seq<DemosaicedTileView>, n: int, px: int, py: int) -> int
    decreases n,
{
    if n <= 0 {
        0
    } else {
        blend_weight(tiles, n - 1, px, py) + weight_at(tiles[n - 1], px, py)
    }
}

/// The mean of `prev`, weighing `acc`, and `sample`, weighing `w`, rounded
/// down; zero where neither weighs anything.
pub open spec fn mix(prev: int, acc: int, sample: int, w: int) -> int {
    if acc + w <= 0 {
        0
    } else {
        (prev * acc + sample * w) / (acc + w)
    }
}

/// Channel `c` at `(px, py)` after the first `n` tiles were blended in.
pub open spec fn blend_value(tiles: Seq<DemosaicedTileView>, n: int, px: int, py: int, c: int) -> int
    decreases n,
{
    if n <= 0 {
        0
    } else if holds_pixel(tiles[n - 1], px, py) {
        mix(
            blend_value(tiles, n - 1, px, py, c),
            blend_weight(tiles, n - 1, px, py),
            sample_at(tiles[n - 1], px, py, c),
            weight_at(tiles[n - 1], px, py),
        )
    } else {
        blend_value(tiles, n - 1, px, py, c)
    }
}

/// Whether one of the first `n` tiles holds `(px, py)`.
pub open spec fn is_covered(tiles: Seq<DemosaicedTileView>, n: int, px: int, py: int) -> bool {
    exists|i: int| 0 <= i < n && holds_pixel(#[trigger] tiles[i], px, py)
}

/// Whether the tiles leave no pixel of a `width` by `height` image out.
pub open spec fn covers_image(tiles: Seq<DemosaicedTileView>, width: int, height: int) -> bool {
    forall|p: int|
        0 <= p < width * height ==> #[trigger] is_covered(tiles, tiles.len() as int, p % width, p / width)
}

/// Byte `k` of the blended image, three bytes per pixel.
pub open spec fn blend_byte(tiles: Seq<DemosaicedTileView>, width: int, k: int) -> int {
    blend_value(tiles, tiles.len() as int, (k / 3) % width, (k / 3) / width, k % 3)
}

/// The blended image as interleaved bytes.
pub open spec fn blend_image(tiles: Seq<DemosaicedTileView>, width: int, height: int) -> Seq<u8> {
    Seq::new((width * height * 3) as nat, |k: int| blend_byte(tiles, width, k) as u8)
}

/// Whether pixel `p` of the image has received its share of tile `n`, of
/// which the first `q` pixels are blended in.
pub open spec fn reached(tiles: Seq<DemosaicedTileView>, n: int, q: int, width: int, p: int) -> bool {
    holds_pixel(tiles[n], p % width, p / width) && local_index(tiles[n], p % width, p / width) < q
}

/// Number of tiles that pixel `p` has seen once `q` pixels of tile `n` are
/// blended in.
pub open spec fn seen(tiles: Seq<DemosaicedTileView>, n: int, q: int, width: int, p: int) -> int {
    if reached(tiles, n, q, width, p) {
        n + 1
    } else {
        n
    }
}

/// A ramp lies between zero and the larger of one and the overlap.
pub proof fn lemma_ramp_bounds(t: int, len: int, overlap: int)
    requires
        0 <= t < len,
        0 <= overlap <= MAX_OVERLAP,
    ensures
        0 <= ramp(t, len, overlap) <= MAX_OVERLAP,
{
}

/// A tile's weight at a pixel is bounded by the square of the largest
/// overlap.
pub proof fn lemma_weight_bounds(tile: DemosaicedTileView, px: int, py: int)
    requires
        0 <= tile.overlap <= MAX_OVERLAP,
    ensures
        0 <= weight_at(tile, px, py) <= MAX_OVERLAP * MAX_OVERLAP,
{
    if holds_pixel(tile, px, py) {
        let a = ramp(px - tile.x, tile.width, tile.overlap);
        let b = ramp(py - tile.y, tile.height, tile.overlap);
        lemma_ramp_bounds(px - tile.x, tile.width, tile.overlap);
        lemma_ramp_bounds(py - tile.y, tile.height, tile.overlap);
        assert(0 <= a * b <= MAX_OVERLAP * MAX_OVERLAP) by (nonlinear_arith)
            requires
                0 <= a <= MAX_OVERLAP,
                0 <= b <= MAX_OVERLAP,
        ;
    }
}

/// The weight gathered from `n` tiles is bounded by `n` times the largest
/// weight of one.
pub proof fn lemma_blend_weight_bounds(tiles: Seq<DemosaicedTileView>, n: int, px: int, py: int)
    requires
        0 <= n <= tiles.len(),
        forall|i: int| 0 <= i < tiles.len() ==> 0 <= (#[trigger] tiles[i]).overlap <= MAX_OVERLAP,
    ensures
        0 <= blend_weight(tiles, n, px, py) <= n * (MAX_OVERLAP * MAX_OVERLAP),
    decreases n,
{
    if n > 0 {
        lemma_blend_weight_bounds(tiles, n - 1, px, py);
        lemma_weight_bounds(tiles[n - 1], px, py);
        assert(n * (MAX_OVERLAP * MAX_OVERLAP) == (n - 1) * (MAX_OVERLAP * MAX_OVERLAP) + MAX_OVERLAP
            * MAX_OVERLAP) by (nonlinear_arith);
    }
}

/// A mean of two bytes is a byte.
pub proof fn lemma_mix_is_byte(prev: int, acc: int, sample: int, w: int)
    requires
        0 <= prev <= 255,
        0 <= sample <= 255,
        0 <= acc,
        0 <= w,
    ensures
        0 <= mix(prev, acc, sample, w) <= 255,
{
    if acc + w > 0 {
        let num = prev * acc + sample * w;
        let den = acc + w;
        assert(0 <= num <= 255 * den) by (nonlinear_arith)
            requires
                num == prev * acc + sample * w,
                den == acc + w,
                0 <= prev <= 255,
                0 <= sample <= 255,
                0 <= acc,
                0 <= w,
        ;
        assert(0 <= num / den <= 255) by (nonlinear_arith)
            requires
                0 <= num <= 255 * den,
                den > 0,
        ;
    }
}

/// Every blended value is a byte.
pub proof fn lemma_blend_value_is_byte(tiles: Seq<DemosaicedTileView>, n: int, px: int, py: int, c: int)
    requires
        0 <= n <= tiles.len(),
        forall|i: int| 0 <= i < tiles.len() ==> 0 <= (#[trigger] tiles[i]).overlap <= MAX_OVERLAP,
    ensures
        0 <= blend_value(tiles, n, px, py, c) <= 255,
    decreases n,
{
    if n > 0 {
        lemma_blend_value_is_byte(tiles, n - 1, px, py, c);
        if holds_pixel(tiles[n - 1], px, py) {
            lemma_blend_weight_bounds(tiles, n - 1, px, py);
            lemma_weight_bounds(tiles[n - 1], px, py);
            lemma_mix_is_byte(
                blend_value(tiles, n - 1, px, py, c),
                blend_weight(tiles, n - 1, px, py),
                sample_at(tiles[n - 1], px, py, c),
                weight_at(tiles[n - 1], px, py),
            );
        }
    }
}

/// A tile that does not hold a pixel leaves it as it was.
pub proof fn lemma_tile_elsewhere(tiles: Seq<DemosaicedTileView>, n: int, px: int, py: int, c: int)
    requires
        0 <= n < tiles.len(),
        !holds_pixel(tiles[n], px, py),
    ensures
        blend_weight(tiles, n + 1, px, py) == blend_weight(tiles, n, px, py),
        blend_value(tiles, n + 1, px, py, c) == blend_value(tiles, n, px, py, c),
        is_covered(tiles, n + 1, px, py) == is_covered(tiles, n, px, py),
{
    if is_covered(tiles, n + 1, px, py) {
        let i = choose|i: int| 0 <= i < n + 1 && holds_pixel(#[trigger] tiles[i], px, py);
        assert(0 <= i < n && holds_pixel(tiles[i], px, py));
    }
}

/// The pixel that a tile holds at its position `ty * width + tx` is the
/// image pixel `(x + tx, y + ty)` and no other.
pub proof fn lemma_local_index_unique(tile: DemosaicedTileView, tx: int, ty: int, px: int, py: int)
    requires
        0 <= tx < tile.width,
        0 <= ty,
        holds_pixel(tile, px, py),
        local_index(tile, px, py) == ty * tile.width + tx,
    ensures
        px == tile.x + tx,
        py == tile.y + ty,
{
    lemma_index_split(ty, tx, tile.width);
    lemma_index_split(py - tile.y, px - tile.x, tile.width);
}

/// A pixel that a tile holds has a position within the tile.
pub proof fn lemma_local_index_bounds(tile: DemosaicedTileView, px: int, py: int)
    requires
        holds_pixel(tile, px, py),
    ensures
        0 <= local_index(tile, px, py) < tile.width * tile.height,
        0 <= tile.width,
        0 <= tile.height,
{
    let dx = px - tile.x;
    let dy = py - tile.y;
    let w = tile.width;
    let h = tile.height;
    assert(0 <= dy * w + dx < w * h) by (nonlinear_arith)
        requires
            0 <= dx < w,
            0 <= dy < h,
    ;
}

/// Blending in the pixel at position `ty * width + tx` of tile `n` changes
/// nothing for an image pixel elsewhere.
pub proof fn lemma_seen_elsewhere(
    tiles: Seq<DemosaicedTileView>,
    n: int,
    tx: int,
    ty: int,
    width: int,
    p: int,
)
    requires
        0 <= n < tiles.len(),
        0 <= tx < tiles[n].width,
        0 <= ty,
        p % width != tiles[n].x + tx || p / width != tiles[n].y + ty,
    ensures
        seen(tiles, n, ty * tiles[n].width + tx + 1, width, p) == seen(
            tiles,
            n,
            ty * tiles[n].width + tx,
            width,
            p,
        ),
{
    let q = ty * tiles[n].width + tx;
    if reached(tiles, n, q + 1, width, p) && !reached(tiles, n, q, width, p) {
        lemma_local_index_unique(tiles[n], tx, ty, p % width, p / width);
    }
}

/// Whether every pixel of every tile has the colour `(red, green, blue)`.
pub open spec fn all_of_colour(tiles: Seq<DemosaicedTileView>, red: u8, green: u8, blue: u8) -> bool {
    forall|i: int, k: int|
        0 <= i < tiles.len() && 0 <= k < tiles[i].rgb.len() ==> #[trigger] tiles[i].rgb[k] == (if k
            % 3 == 0 {
            red
        } else if k % 3 == 1 {
            green
        } else {
            blue
        })
}

/// Blending tiles that show one value in channel `c` wherever they hold
/// `(px, py)` gives that value, once any of them has given the pixel a
/// weight, and black before.
pub proof fn lemma_blend_of_equal_samples(
    tiles: Seq<DemosaicedTileView>,
    n: int,
    px: int,
    py: int,
    c: int,
    v: int,
)
    requires
        0 <= n <= tiles.len(),
        0 <= v <= 255,
        forall|i: int| 0 <= i < n ==> 0 <= (#[trigger] tiles[i]).overlap,
        forall|i: int|
            0 <= i < n && holds_pixel(#[trigger] tiles[i], px, py) ==> sample_at(tiles[i], px, py, c)
                == v,
    ensures
        0 <= blend_weight(tiles, n, px, py),
        blend_value(tiles, n, px, py, c) == if blend_weight(tiles, n, px, py) > 0 {
            v
        } else {
            0
        },
    decreases n,
{
    if n > 0 {
        lemma_blend_of_equal_samples(tiles, n - 1, px, py, c, v);
        let t = tiles[n - 1];
        if holds_pixel(t, px, py) {
            let acc = blend_weight(tiles, n - 1, px, py);
            let a = ramp(px - t.x, t.width, t.overlap);
            let b = ramp(py - t.y, t.height, t.overlap);
            let w = weight_at(t, px, py);
            assert(0 <= a * b) by (nonlinear_arith)
                requires
                    0 <= a,
                    0 <= b,
            ;
            if acc > 0 {
                assert((v * acc + v * w) / (acc + w) == v) by (nonlinear_arith)
                    requires
                        acc + w > 0,
                ;
            } else if w > 0 {
                assert((0 * acc + v * w) / (acc + w) == v) by (nonlinear_arith)
                    requires
                        acc == 0,
                        w > 0,
                ;
            }
        }
    }
}

/// Blending tiles that show one value in channel `c` wherever they give
/// `(px, py)` a weight gives that value, once any of them has given the
/// pixel a weight, and black before.  What a tile shows where it gives no
/// weight does not matter.
pub proof fn lemma_blend_of_weighted_samples(
    tiles: Seq<DemosaicedTileView>,
    n: int,
    px: int,
    py: int,
    c: int,
    v: int,
)
    requires
        0 <= n <= tiles.len(),
        0 <= v <= 255,
        forall|i: int| 0 <= i < n ==> 0 <= (#[trigger] tiles[i]).overlap,
        forall|i: int|
            0 <= i < n && holds_pixel(#[trigger] tiles[i], px, py) && weight_at(tiles[i], px, py)
                > 0 ==> sample_at(tiles[i], px, py, c) == v,
    ensures
        0 <= blend_weight(tiles, n, px, py),
        blend_value(tiles, n, px, py, c) == if blend_weight(tiles, n, px, py) > 0 {
            v
        } else {
            0
        },
    decreases n,
{
    if n > 0 {
        lemma_blend_of_weighted_samples(tiles, n - 1, px, py, c, v);
        let t = tiles[n - 1];
        lemma_weight_nonnegative(t, px, py);
        if holds_pixel(t, px, py) {
            let acc = blend_weight(tiles, n - 1, px, py);
            let w = weight_at(t, px, py);
            let s = sample_at(t, px, py, c);
            if w == 0 {
                if acc > 0 {
                    assert((v * acc + s * 0) / (acc + 0) == v) by (nonlinear_arith)
                        requires
                            acc > 0,
                    ;
                }
            } else if acc > 0 {
                assert((v * acc + v * w) / (acc + w) == v) by (nonlinear_arith)
                    requires
                        acc + w > 0,
                ;
            } else {
                assert((0 * acc + v * w) / (acc + w) == v) by (nonlinear_arith)
                    requires
                        acc == 0,
                        w > 0,
                ;
            }
        }
    }
}

/// Blending tiles of one colour gives that colour at every pixel of the
/// image to which some tile gives a weight, and black at the others.
pub proof fn lemma_uniform_tiles_blend_to_their_colour(
    tiles: Seq<DemosaicedTileView>,
    width: int,
    height: int,
    red: u8,
    green: u8,
    blue: u8,
    k: int,
)
    requires
        forall|i: int| 0 <= i < tiles.len() ==> (#[trigger] tiles[i]).wf(),
        all_of_colour(tiles, red, green, blue),
        0 <= k < width * height * 3,
    ensures
        blend_image(tiles, width, height)[k] == if blend_weight(
            tiles,
            tiles.len() as int,
            (k / 3) % width,
            (k / 3) / width,
        ) > 0 {
            if k % 3 == 0 {
                red
            } else if k % 3 == 1 {
                green
            } else {
                blue
            }
        } else {
            0u8
        },
{
    let px = (k / 3) % width;
    let py = (k / 3) / width;
    let c = k % 3;
    let v: int = if c == 0 {
        red as int
    } else if c == 1 {
        green as int
    } else {
        blue as int
    };
    assert forall|i: int|
        0 <= i < tiles.len() && holds_pixel(#[trigger] tiles[i], px, py) implies sample_at(
        tiles[i],
        px,
        py,
        c,
    ) == v by {
        lemma_local_index_bounds(tiles[i], px, py);
        let j = local_index(tiles[i], px, py) * 3 + c;
        assert(0 <= j < tiles[i].rgb.len()) by (nonlinear_arith)
            requires
                0 <= local_index(tiles[i], px, py) < tiles[i].width * tiles[i].height,
                tiles[i].rgb.len() == tiles[i].width * tiles[i].height * 3,
                j == local_index(tiles[i], px, py) * 3 + c,
                0 <= c < 3,
        ;
        assert(tiles[i].rgb[j] == v);
    }
    lemma_blend_of_equal_samples(tiles, tiles.len() as int, px, py, c, v);
}

/// No tile gives a pixel a negative weight.
pub proof fn lemma_weight_nonnegative(tile: DemosaicedTileView, px: int, py: int)
    requires
        0 <= tile.overlap,
    ensures
        0 <= weight_at(tile, px, py),
{
    if holds_pixel(tile, px, py) {
        let a = ramp(px - tile.x, tile.width, tile.overlap);
        let b = ramp(py - tile.y, tile.height, tile.overlap);
        assert(0 <= a * b) by (nonlinear_arith)
            requires
                0 <= a,
                0 <= b,
        ;
    }
}

/// The weight gathered from the first `n` tiles is at least the weight
/// that any one of them gives.
pub proof fn lemma_blend_weight_at_least(
    tiles: Seq<DemosaicedTileView>,
    n: int,
    i: int,
    px: int,
    py: int,
)
    requires
        0 <= i < n <= tiles.len(),
        forall|j: int| 0 <= j < n ==> 0 <= (#[trigger] tiles[j]).overlap,
    ensures
        blend_weight(tiles, n, px, py) >= weight_at(tiles[i], px, py),
        blend_weight(tiles, n, px, py) >= 0,
    decreases n,
{
    lemma_weight_nonnegative(tiles[n - 1], px, py);
    if n - 1 > i {
        lemma_blend_weight_at_least(tiles, n - 1, i, px, py);
    } else {
        lemma_blend_weight_nonnegative(tiles, n - 1, px, py);
    }
}

/// The weight gathered from tiles is never negative.
pub proof fn lemma_blend_weight_nonnegative(tiles: Seq<DemosaicedTileView>, n: int, px: int, py: int)
    requires
        n <= tiles.len(),
        forall|j: int| 0 <= j < n ==> 0 <= (#[trigger] tiles[j]).overlap,
    ensures
        blend_weight(tiles, n, px, py) >= 0,
    decreases n,
{
    if n > 0 {
        lemma_weight_nonnegative(tiles[n - 1], px, py);
        lemma_blend_weight_nonnegative(tiles, n - 1, px, py);
    }
}

/// A tile with an overlap gives no weight to the pixels of its first and
/// last row and column.
pub proof fn lemma_ring_weighs_nothing(tile: DemosaicedTileView, px: int, py: int)
    requires
        tile.overlap > 0,
        holds_pixel(tile, px, py),
        px == tile.x || px == tile.x + tile.width - 1 || py == tile.y || py == tile.y + tile.height
            - 1,
    ensures
        weight_at(tile, px, py) == 0,
{
    let a = ramp(px - tile.x, tile.width, tile.overlap);
    let b = ramp(py - tile.y, tile.height, tile.overlap);
    assert(a * b == 0) by (nonlinear_arith)
        requires
            a == 0 || b == 0,
    ;
}

/// A pixel to which a tile with an overlap gives a weight lies away from
/// the first and last row and column of the tile.
pub proof fn lemma_weighed_pixel_is_inner(tile: DemosaicedTileView, px: int, py: int)
    requires
        tile.overlap > 0,
        holds_pixel(tile, px, py),
        weight_at(tile, px, py) > 0,
    ensures
        tile.x < px < tile.x + tile.width - 1,
        tile.y < py < tile.y + tile.height - 1,
{
    if px == tile.x || px == tile.x + tile.width - 1 || py == tile.y || py == tile.y + tile.height
        - 1 {
        lemma_ring_weighs_nothing(tile, px, py);
    }
}

/// A tile gives a weight to every pixel that it holds away from its first
/// and last row and column, and to every pixel that it holds where it has
/// no overlap.
pub proof fn lemma_weight_positive(tile: DemosaicedTileView, px: int, py: int)
    requires
        0 <= tile.overlap,
        holds_pixel(tile, px, py),
        tile.overlap == 0 || (tile.x < px < tile.x + tile.width - 1 && tile.y < py < tile.y
            + tile.height - 1),
    ensures
        weight_at(tile, px, py) > 0,
{
    let a = ramp(px - tile.x, tile.width, tile.overlap);
    let b = ramp(py - tile.y, tile.height, tile.overlap);
    assert(0 < a * b) by (nonlinear_arith)
        requires
            0 < a,
            0 < b,
    ;
}

/// Weight of position `t` along an axis of `len` positions.
fn ramp_weight(t: usize, len: usize, overlap: usize) -> (r: u64)
    requires
        t < len,
        overlap <= MAX_OVERLAP,
    ensures
        r == ramp(t as int, len as int, overlap as int),
        r <= MAX_OVERLAP,
{
    if overlap == 0 {
        1
    } else {
        let low: usize = t;
        let high: usize = len - 1 - t;
        let near: usize = if low < high {
            low
        } else {
            high
        };
        if near < overlap {
            near as u64
        } else {
            overlap as u64
        }
    }
}

/// The weighted mean of two bytes, rounded down.
fn mix_bytes(prev: u8, acc: u128, sample: u8, w: u128) -> (r: u8)
    requires
        acc <= 0xffff_ffff_ffff_ffff_ffff_ffff,
        w <= 0xffff_ffff,
    ensures
        r == mix(prev as int, acc as int, sample as int, w as int),
{
    let total: u128 = acc + w;
    if total == 0 {
        0
    } else {
        assert(prev * acc <= 255 * acc && sample * w <= 255 * w) by (nonlinear_arith)
            requires
                prev <= 255,
                sample <= 255,
                acc >= 0,
                w >= 0,
        ;
        proof {
            lemma_mix_is_byte(prev as int, acc as int, sample as int, w as int);
        }
        let num: u128 = (prev as u128) * acc + (sample as u128) * w;
        (num / total) as u8
    }
}

impl ParallelDemosaic {
    /// Blends reconstructed tiles into an image of `width` by `height`
    /// pixels, three bytes per pixel.
    ///
    /// Pixels of a tile that fall outside the image are passed over.  A
    /// pixel of the image that lies in no tile makes the blend fail; a
    /// pixel that tiles hold but none gives any weight, as on the outer
    /// ring of the image when there is an overlap, is black.
    pub fn combine_tiles(&self, tiles: Vec<DemosaicedTile>, width: usize, height: usize) -> (r:
        Result<Vec<u8>, DemosaicError>)
        requires
            self.spec_overlap() <= MAX_OVERLAP,
            width * height * 3 <= usize::MAX,
            forall|i: int|
                0 <= i < tiles@.len() ==> (#[trigger] tiles@[i]).wf() && tiles@[i].overlap
                    == self.spec_overlap(),
        ensures
            r is Ok <==> covers_image(demosaiced_views(tiles@), width as int, height as int),
            r matches Ok(rgb) ==> rgb@ == blend_image(
                demosaiced_views(tiles@),
                width as int,
                height as int,
            ),
            r matches Err(e) ==> e == DemosaicError::CoverageGap,
    {
        let pixels: usize = width * height;
        let mut output: Vec<u8> = vec![0u8; pixels * 3];
        let mut weight_map: Vec<u128> = vec![0u128; pixels];
        let mut covered: Vec<bool> = vec![false; pixels];
        let ghost ts = demosaiced_views(tiles@);
        let ghost iw = width as int;
        let mut i: usize = 0;
        while i < tiles.len()
            invariant
                i <= tiles.len(),
                ts == demosaiced_views(tiles@),
                iw == width,
                pixels == width * height,
                pixels * 3 <= usize::MAX,
                output@.len() == pixels * 3,
                weight_map@.len() == pixels,
                covered@.len() == pixels,
                forall|j: int|
                    0 <= j < ts.len() ==> (#[trigger] tiles@[j]).wf() && 0 <= ts[j].overlap
                        <= MAX_OVERLAP,
                forall|p: int|
                    0 <= p < pixels ==> #[trigger] weight_map@[p] == blend_weight(
                        ts,
                        i as int,
                        p % iw,
                        p / iw,
                    ),
                forall|p: int|
                    0 <= p < pixels ==> #[trigger] covered@[p] == is_covered(ts, i as int, p % iw, p / iw),
                forall|k: int|
                    0 <= k < pixels * 3 ==> #[trigger] output@[k] == blend_value(
                        ts,
                        i as int,
                        (k / 3) % iw,
                        (k / 3) / iw,
                        k % 3,
                    ),
            decreases tiles.len() - i,
        {
            let tile = &tiles[i];
            let tw: usize = tile.width;
            let th: usize = tile.height;
            let ghost n = i as int;
            assert forall|p: int| 0 <= p < pixels implies !reached(ts, n, 0, iw, p) by {
                if holds_pixel(ts[n], p % iw, p / iw) {
                    lemma_local_index_bounds(ts[n], p % iw, p / iw);
                }
            }
            let mut ty: usize = 0;
            while ty < th
                invariant
                    ty <= th,
                    i < tiles.len(),
                    n == i,
                    ts == demosaiced_views(tiles@),
                    tile@ == ts[n],
                    tile.wf(),
                    tw == tile.width,
                    th == tile.height,
                    iw == width,
                    pixels == width * height,
                    pixels * 3 <= usize::MAX,
                    output@.len() == pixels * 3,
                    weight_map@.len() == pixels,
                    covered@.len() == pixels,
                    forall|j: int|
                        0 <= j < ts.len() ==> (#[trigger] tiles@[j]).wf() && 0 <= ts[j].overlap
                        <= MAX_OVERLAP,
                    forall|p: int|
                        0 <= p < pixels ==> #[trigger] weight_map@[p] == blend_weight(
                            ts,
                            seen(ts, n, ty * tw, iw, p),
                            p % iw,
                            p / iw,
                        ),
                    forall|p: int|
                        0 <= p < pixels ==> #[trigger] covered@[p] == is_covered(
                            ts,
                            seen(ts, n, ty * tw, iw, p),
                            p % iw,
                            p / iw,
                        ),
                    forall|k: int|
                        0 <= k < pixels * 3 ==> #[trigger] output@[k] == blend_value(
                            ts,
                            seen(ts, n, ty * tw, iw, k / 3),
                            (k / 3) % iw,
                            (k / 3) / iw,
                            k % 3,
                        ),
                decreases th - ty,
            {
                let gy: usize = tile.y + ty;
                let mut tx: usize = 0;
                while tx < tw
                    invariant
                        tx <= tw,
                        ty < th,
                        gy == tile.y + ty,
                        i < tiles.len(),
                        n == i,
                        ts == demosaiced_views(tiles@),
                        tile@ == ts[n],
                    tile.wf(),
                        tw == tile.width,
                        th == tile.height,
                        iw == width,
                        pixels == width * height,
                        pixels * 3 <= usize::MAX,
                        output@.len() == pixels * 3,
                        weight_map@.len() == pixels,
                        covered@.len() == pixels,
                        forall|j: int|
                            0 <= j < ts.len() ==> (#[trigger] tiles@[j]).wf() && 0
                                <= ts[j].overlap <= MAX_OVERLAP,
                        forall|p: int|
                            0 <= p < pixels ==> #[trigger] weight_map@[p] == blend_weight(
                                ts,
                                seen(ts, n, ty * tw + tx, iw, p),
                                p % iw,
                                p / iw,
                            ),
                        forall|p: int|
                            0 <= p < pixels ==> #[trigger] covered@[p] == is_covered(
                                ts,
                                seen(ts, n, ty * tw + tx, iw, p),
                                p % iw,
                                p / iw,
                            ),
                        forall|k: int|
                            0 <= k < pixels * 3 ==> #[trigger] output@[k] == blend_value(
                                ts,
                                seen(ts, n, ty * tw + tx, iw, k / 3),
                                (k / 3) % iw,
                                (k / 3) / iw,
                                k % 3,
                            ),
                    decreases tw - tx,
                {
                    let gx: usize = tile.x + tx;
                    let ghost q = ty * tw + tx;
                    if gx < width && gy < height {
                        proof {
                            lemma_index_split(gy as int, gx as int, iw);
                            lemma_index_split(ty as int, tx as int, tw as int);
                            lemma_local_index_bounds(ts[n], gx as int, gy as int);
                            assert(gy * iw + gx < iw * height) by (nonlinear_arith)
                                requires
                                    gx < iw,
                                    gy < height,
                            ;
                            lemma_blend_weight_bounds(ts, n, gx as int, gy as int);
                            assert(n * (MAX_OVERLAP * MAX_OVERLAP) <= 0xffff_ffff_ffff_ffff
                                * 0xffff_ffff) by (nonlinear_arith)
                                requires
                                    0 <= n <= 0xffff_ffff_ffff_ffff,
                                    MAX_OVERLAP == 65535,
                            ;
                        }
                        let p0: usize = gy * width + gx;
                        let local: usize = ty * tw + tx;
                        let wx: u64 = ramp_weight(tx, tw, tile.overlap);
                        let wy: u64 = ramp_weight(ty, th, tile.overlap);
                        assert(wx * wy <= 0xffff_ffff) by (nonlinear_arith)
                            requires
                                wx <= 65535,
                                wy <= 65535,
                        ;
                        let w: u128 = (wx * wy) as u128;
                        let acc: u128 = weight_map[p0];
                        assert(!reached(ts, n, q, iw, p0 as int));
                        assert(reached(ts, n, q + 1, iw, p0 as int));
                        let r: u8 = mix_bytes(output[p0 * 3], acc, tile.rgb[local * 3], w);
                        let g: u8 = mix_bytes(output[p0 * 3 + 1], acc, tile.rgb[local * 3 + 1], w);
                        let b: u8 = mix_bytes(output[p0 * 3 + 2], acc, tile.rgb[local * 3 + 2], w);
                        output.set(p0 * 3, r);
                        output.set(p0 * 3 + 1, g);
                        output.set(p0 * 3 + 2, b);
                        weight_map.set(p0, acc + w);
                        covered.set(p0, true);
                        proof {
                            assert(is_covered(ts, n + 1, gx as int, gy as int)) by {
                                assert(holds_pixel(ts[n], gx as int, gy as int));
                            }
                            assert forall|p: int| 0 <= p < pixels && p != p0 implies seen(
                                ts,
                                n,
                                q + 1,
                                iw,
                                p,
                            ) == seen(ts, n, q, iw, p) by {
                                lemma_index_join(p, iw);
                                lemma_seen_elsewhere(ts, n, tx as int, ty as int, iw, p);
                            }
                        }
                    } else {
                        proof {
                            assert forall|p: int| 0 <= p < pixels implies seen(ts, n, q + 1, iw, p)
                                == seen(ts, n, q, iw, p) by {
                                lemma_index_join(p, iw);
                                crate::demosaic::tiling::lemma_index_row_bound(
                                    p,
                                    iw,
                                    height as int,
                                );
                                lemma_seen_elsewhere(ts, n, tx as int, ty as int, iw, p);
                            }
                        }
                    }
                    tx = tx + 1;
                }
                assert((ty + 1) * tw == ty * tw + tw) by (nonlinear_arith);
                ty = ty + 1;
            }
            proof {
                assert(th * tw == tw * th) by (nonlinear_arith);
                assert forall|p: int| 0 <= p < pixels implies #[trigger] weight_map@[p]
                    == blend_weight(ts, n + 1, p % iw, p / iw) by {
                    if holds_pixel(ts[n], p % iw, p / iw) {
                        lemma_local_index_bounds(ts[n], p % iw, p / iw);
                    } else {
                        lemma_tile_elsewhere(ts, n, p % iw, p / iw, 0);
                    }
                }
                assert forall|p: int| 0 <= p < pixels implies #[trigger] covered@[p] == is_covered(
                    ts,
                    n + 1,
                    p % iw,
                    p / iw,
                ) by {
                    if holds_pixel(ts[n], p % iw, p / iw) {
                        lemma_local_index_bounds(ts[n], p % iw, p / iw);
                    } else {
                        lemma_tile_elsewhere(ts, n, p % iw, p / iw, 0);
                    }
                }
                assert forall|k: int| 0 <= k < pixels * 3 implies #[trigger] output@[k]
                    == blend_value(ts, n + 1, (k / 3) % iw, (k / 3) / iw, k % 3) by {
                    let p = k / 3;
                    if holds_pixel(ts[n], p % iw, p / iw) {
                        lemma_local_index_bounds(ts[n], p % iw, p / iw);
                    } else {
                        lemma_tile_elsewhere(ts, n, p % iw, p / iw, k % 3);
                    }
                }
            }
            i = i + 1;
        }
        let mut p: usize = 0;
        while p < pixels
            invariant
                p <= pixels,
                covered@.len() == pixels,
                ts == demosaiced_views(tiles@),
                iw == width,
                pixels == width * height,
                forall|j: int|
                    0 <= j < pixels ==> #[trigger] covered@[j] == is_covered(
                        ts,
                        ts.len() as int,
                        j % iw,
                        j / iw,
                    ),
                forall|j: int| 0 <= j < p ==> covered@[j],
            decreases pixels - p,
        {
            if !covered[p] {
                assert(!is_covered(ts, ts.len() as int, p as int % iw, p as int / iw));
                return Err(DemosaicError::CoverageGap);
            }
            p = p + 1;
        }
        assert forall|j: int| 0 <= j < iw * height implies #[trigger] is_covered(
            ts,
            ts.len() as int,
            j % iw,
            j / iw,
        ) by {
            assert(covered@[j]);
        }
        proof {
            assert forall|k: int| 0 <= k < pixels * 3 implies output@[k] == blend_byte(ts, iw, k) as u8 by {
                lemma_blend_value_is_byte(ts, ts.len() as int, (k / 3) % iw, (k / 3) / iw, k % 3);
            }
            assert(output@ =~= blend_image(ts, iw, height as int));
        }
        Ok(output)
    }
}

} // verus!
