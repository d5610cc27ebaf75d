//! The whole pipeline: cut into tiles, reconstruct every tile on the worker
//! pool, blend.

use rayon::iter::{IntoParallelIterator, ParallelIterator};
use vstd::prelude::*;
use crate::demosaic::bilinear::{
    channel_level, demosaic_byte, demosaic_image, demosaiced, demosaiced_views, DemosaicedTile,
    DemosaicedTileView,
};
use crate::demosaic::blend::{
    all_of_colour, blend_image, blend_weight, covers_image, holds_pixel, is_covered,
    lemma_blend_weight_at_least, lemma_uniform_tiles_blend_to_their_colour, lemma_weight_positive,
    sample_at, weight_at,
};
use crate::demosaic::engine::{ParallelDemosaic, MAX_OVERLAP};
use crate::demosaic::pattern::BayerPattern;
use crate::demosaic::tiling::{
    core_start, count_degenerate, lemma_index_split, tile_at, tile_sample, degenerate_among, lemma_cores_partition_image, lemma_index_join,
    lemma_index_row_bound, tile_count, tile_views, tiling_of, Tile, TileView,
};

verus! {

/// The reconstructions of a list of tiles, in the order of the tiles.
pub open spec fn demosaic_all(
    tiles: Seq<TileView>,
    pattern: BayerPattern,
    black: u16,
    white: u16,
) -> Seq<DemosaicedTileView> {
    tiles.map_values(|t: TileView| demosaiced(t, pattern, black, white))
}

/// The image that `demosaic` makes of a buffer: the blend of the
/// reconstructed tiles of the grid.
pub open spec fn demosaiced_image(
    bayer: Seq<u16>,
    width: int,
    height: int,
    tile_size: int,
    overlap: int,
    pattern: BayerPattern,
    black: u16,
    white: u16,
) -> Seq<u8> {
    blend_image(
        demosaic_all(tiling_of(bayer, width, height, tile_size, overlap), pattern, black, white),
        width,
        height,
    )
}

/// The tiles of a grid leave no pixel of the image out.
pub proof fn lemma_tiling_covers_image(
    bayer: Seq<u16>,
    width: int,
    height: int,
    tile_size: int,
    overlap: int,
    pattern: BayerPattern,
    black: u16,
    white: u16,
)
    requires
        tile_size > 0,
        overlap >= 0,
        width >= 0,
        height >= 0,
    ensures
        covers_image(
            demosaic_all(tiling_of(bayer, width, height, tile_size, overlap), pattern, black, white),
            width,
            height,
        ),
{
    let tiles = tiling_of(bayer, width, height, tile_size, overlap);
    let parts = demosaic_all(tiles, pattern, black, white);
    assert forall|p: int| 0 <= p < width * height implies #[trigger] is_covered(
        parts,
        parts.len() as int,
        p % width,
        p / width,
    ) by {
        assert(width > 0) by (nonlinear_arith)
            requires
                0 <= p < width * height,
                width >= 0,
                height >= 0,
        ;
        assert(width * height == height * width) by (nonlinear_arith);
        lemma_index_join(p, width);
        lemma_index_row_bound(p, width, height);
        let px = p % width;
        let py = p / width;
        lemma_cores_partition_image(bayer, width, height, tile_size, overlap, px, py);
        let owner = (py / tile_size) * crate::demosaic::tiling::tile_count(width, tile_size) + px
            / tile_size;
        assert(holds_pixel(parts[owner], px, py));
    }
}

/// Whether reconstructed tiles lie where the tiles of a grid lie.
pub open spec fn lie_as(parts: Seq<DemosaicedTileView>, grid: Seq<TileView>) -> bool {
    &&& parts.len() == grid.len()
    &&& forall|i: int|
        0 <= i < parts.len() ==> {
            &&& (#[trigger] parts[i]).x == grid[i].x
            &&& parts[i].y == grid[i].y
            &&& parts[i].width == grid[i].width
            &&& parts[i].height == grid[i].height
            &&& parts[i].overlap == grid[i].overlap
        }
}

/// Tiles that lie as the tiles of a grid give a weight to every pixel of
/// the image away from its outer ring, and to every pixel where the grid
/// has no overlap.
pub proof fn lemma_grid_weighs_pixel(
    parts: Seq<DemosaicedTileView>,
    bayer: Seq<u16>,
    width: int,
    height: int,
    tile_size: int,
    overlap: int,
    px: int,
    py: int,
)
    requires
        tile_size > 0,
        overlap >= 0,
        lie_as(parts, tiling_of(bayer, width, height, tile_size, overlap)),
        0 <= px < width,
        0 <= py < height,
        overlap == 0 || (1 <= px < width - 1 && 1 <= py < height - 1),
    ensures
        blend_weight(parts, parts.len() as int, px, py) > 0,
{
    let grid = tiling_of(bayer, width, height, tile_size, overlap);
    let tiles_x = tile_count(width, tile_size);
    let owner = (py / tile_size) * tiles_x + px / tile_size;
    lemma_cores_partition_image(bayer, width, height, tile_size, overlap, px, py);
    assert(parts[owner].x == grid[owner].x);
    assert(grid[owner] == tile_at(
        bayer,
        width,
        height,
        tile_size,
        overlap,
        owner % tiles_x,
        owner / tiles_x,
    ));
    assert(core_start(owner % tiles_x, tile_size) <= px);
    assert(core_start(owner / tiles_x, tile_size) <= py);
    assert(holds_pixel(parts[owner], px, py));
    assert((owner % tiles_x + 1) * tile_size == owner % tiles_x * tile_size + tile_size)
        by (nonlinear_arith);
    assert((owner / tiles_x + 1) * tile_size == owner / tiles_x * tile_size + tile_size)
        by (nonlinear_arith);
    assert forall|j: int| 0 <= j < parts.len() implies 0 <= (#[trigger] parts[j]).overlap by {
        assert(parts[j].overlap == grid[j].overlap);
    }
    lemma_weight_positive(parts[owner], px, py);
    lemma_blend_weight_at_least(parts, parts.len() as int, owner, px, py);
}

/// Blending tiles of one colour that lie as the tiles of a grid gives that
/// colour at every pixel of the image away from its outer ring, and at
/// every pixel where the grid has no overlap.
pub proof fn lemma_uniform_grid_blends_to_its_colour(
    parts: Seq<DemosaicedTileView>,
    bayer: Seq<u16>,
    width: int,
    height: int,
    tile_size: int,
    overlap: int,
    red: u8,
    green: u8,
    blue: u8,
    k: int,
)
    requires
        tile_size > 0,
        overlap >= 0,
        0 <= width,
        0 <= height,
        lie_as(parts, tiling_of(bayer, width, height, tile_size, overlap)),
        forall|i: int| 0 <= i < parts.len() ==> (#[trigger] parts[i]).wf(),
        all_of_colour(parts, red, green, blue),
        0 <= k < width * height * 3,
        overlap == 0 || (1 <= (k / 3) % width < width - 1 && 1 <= (k / 3) / width < height - 1),
    ensures
        blend_image(parts, width, height)[k] == if k % 3 == 0 {
            red
        } else if k % 3 == 1 {
            green
        } else {
            blue
        },
{
    assert(width > 0) by (nonlinear_arith)
        requires
            0 <= k < width * height * 3,
            0 <= width,
            0 <= height,
    ;
    assert(width * height == height * width) by (nonlinear_arith);
    lemma_index_join(k / 3, width);
    lemma_index_row_bound(k / 3, width, height);
    lemma_grid_weighs_pixel(
        parts,
        bayer,
        width,
        height,
        tile_size,
        overlap,
        (k / 3) % width,
        (k / 3) / width,
    );
    lemma_uniform_tiles_blend_to_their_colour(parts, width, height, red, green, blue, k);
}

/// Where the buffer holds the whole image, a tile of the grid holds at its
/// position `(lx, ly)` the sample of the image at that place.
pub proof fn lemma_tile_sample_is_image_sample(
    bayer: Seq<u16>,
    width: int,
    height: int,
    sx: int,
    sy: int,
    w: int,
    h: int,
    lx: int,
    ly: int,
)
    requires
        0 <= sx,
        0 <= sy,
        sx + w <= width,
        sy + h <= height,
        0 <= lx < w,
        0 <= ly < h,
        bayer.len() >= width * height,
    ensures
        tile_sample(bayer, width, sx, sy, w, ly * w + lx) == bayer[(sy + ly) * width + sx + lx],
        0 <= ly * w + lx < w * h,
        0 <= (sy + ly) * width + sx + lx < width * height,
{
    lemma_index_split(ly, lx, w);
    let r = sy + ly;
    assert(r * width + width <= width * height) by (nonlinear_arith)
        requires
            0 <= r < height,
            0 <= width,
    ;
    assert(0 <= (sy + ly) * width) by (nonlinear_arith)
        requires
            0 <= sy + ly,
            0 <= width,
    ;
    assert(0 <= ly * w + lx < w * h) by (nonlinear_arith)
        requires
            0 <= lx < w,
            0 <= ly < h,
    ;
}

/// Where the buffer holds the whole image and the grid has an overlap, a
/// reconstructed tile of the grid shows, at every pixel to which it gives a
/// weight, what the reconstruction of the whole image shows there.
pub proof fn lemma_weighed_pixel_is_untiled(
    bayer: Seq<u16>,
    width: int,
    height: int,
    tile_size: int,
    overlap: int,
    pattern: BayerPattern,
    black: u16,
    white: u16,
    i: int,
    px: int,
    py: int,
    c: int,
)
    requires
        tile_size > 0,
        overlap >= 1,
        0 <= width,
        0 <= height,
        bayer.len() >= width * height,
        0 <= i < tiling_of(bayer, width, height, tile_size, overlap).len(),
        0 <= c < 3,
        holds_pixel(
            demosaiced(tiling_of(bayer, width, height, tile_size, overlap)[i], pattern, black, white),
            px,
            py,
        ),
        weight_at(
            demosaiced(tiling_of(bayer, width, height, tile_size, overlap)[i], pattern, black, white),
            px,
            py,
        ) > 0,
    ensures
        1 <= px < width - 1,
        1 <= py < height - 1,
        sample_at(
            demosaiced(tiling_of(bayer, width, height, tile_size, overlap)[i], pattern, black, white),
            px,
            py,
            c,
        ) == demosaic_byte(bayer, width, height, 0, 0, pattern, black, white, (py * width + px) * 3 + c),
{
    let grid = tiling_of(bayer, width, height, tile_size, overlap);
    let tiles_x = tile_count(width, tile_size);
    let tiles_y = tile_count(height, tile_size);
    let tile = grid[i];
    let part = demosaiced(tile, pattern, black, white);
    assert(tiles_x > 0) by (nonlinear_arith)
        requires
            0 <= i < tiles_x * tiles_y,
            tiles_x == (width + tile_size - 1) / tile_size,
            width >= 0,
            tile_size > 0,
    ;
    lemma_index_join(i, tiles_x);
    assert(tiles_x * tiles_y == tiles_y * tiles_x) by (nonlinear_arith);
    lemma_index_row_bound(i, tiles_x, tiles_y);
    let tx = i % tiles_x;
    let ty = i / tiles_x;
    crate::demosaic::tiling::lemma_tile_holds_core(tx, tile_size, overlap, width);
    crate::demosaic::tiling::lemma_tile_holds_core(ty, tile_size, overlap, height);
    assert(tile == tile_at(bayer, width, height, tile_size, overlap, tx, ty));
    let sx = tile.x;
    let sy = tile.y;
    let w = tile.width;
    let h = tile.height;
    crate::demosaic::blend::lemma_weighed_pixel_is_inner(part, px, py);
    let lx = px - sx;
    let ly = py - sy;
    let idx = ly * w + lx;
    let gdx = py * width + px;
    assert((ly + 1) * w == ly * w + w && (ly - 1) * w == ly * w - w) by (nonlinear_arith);
    assert((sy + ly + 1) * width == (sy + ly) * width + width && (sy + ly - 1) * width == (sy + ly)
        * width - width) by (nonlinear_arith);
    lemma_tile_sample_is_image_sample(bayer, width, height, sx, sy, w, h, lx, ly);
    lemma_tile_sample_is_image_sample(bayer, width, height, sx, sy, w, h, lx - 1, ly);
    lemma_tile_sample_is_image_sample(bayer, width, height, sx, sy, w, h, lx + 1, ly);
    lemma_tile_sample_is_image_sample(bayer, width, height, sx, sy, w, h, lx, ly - 1);
    lemma_tile_sample_is_image_sample(bayer, width, height, sx, sy, w, h, lx, ly + 1);
    lemma_tile_sample_is_image_sample(bayer, width, height, sx, sy, w, h, lx - 1, ly - 1);
    lemma_tile_sample_is_image_sample(bayer, width, height, sx, sy, w, h, lx + 1, ly - 1);
    lemma_tile_sample_is_image_sample(bayer, width, height, sx, sy, w, h, lx - 1, ly + 1);
    lemma_tile_sample_is_image_sample(bayer, width, height, sx, sy, w, h, lx + 1, ly + 1);
    assert(tile.data[idx] == bayer[gdx]);
    assert(tile.data[idx - 1] == bayer[gdx - 1]);
    assert(tile.data[idx + 1] == bayer[gdx + 1]);
    assert(tile.data[idx - w] == bayer[gdx - width]);
    assert(tile.data[idx + w] == bayer[gdx + width]);
    assert(tile.data[idx - w - 1] == bayer[gdx - width - 1]);
    assert(tile.data[idx - w + 1] == bayer[gdx - width + 1]);
    assert(tile.data[idx + w - 1] == bayer[gdx + width - 1]);
    assert(tile.data[idx + w + 1] == bayer[gdx + width + 1]);
    assert(channel_level(tile.data, w, sx, sy, pattern, black, lx, ly, c) == channel_level(
        bayer,
        width,
        0,
        0,
        pattern,
        black,
        px,
        py,
        c,
    ));
    lemma_index_split(ly, lx, w);
    lemma_index_split(py, px, width);
    assert(0 <= idx < w * h);
    assert(0 <= idx * 3 + c < w * h * 3) by (nonlinear_arith)
        requires
            0 <= idx < w * h,
            0 <= c < 3,
    ;
    assert(part.rgb[idx * 3 + c] == demosaic_byte(
        tile.data,
        w,
        h,
        sx,
        sy,
        pattern,
        black,
        white,
        idx * 3 + c,
    ));
}

/// Where the buffer holds the whole image and the grid has an overlap,
/// the tiles leave no trace: the blended image is, byte for byte, the
/// reconstruction of the whole image in one piece.  In particular no seam
/// shows between tiles, and only the outer ring of the image is black.
pub proof fn lemma_tiles_leave_no_trace(
    bayer: Seq<u16>,
    width: int,
    height: int,
    tile_size: int,
    overlap: int,
    pattern: BayerPattern,
    black: u16,
    white: u16,
)
    requires
        tile_size > 0,
        overlap >= 1,
        0 <= width,
        0 <= height,
        bayer.len() >= width * height,
    ensures
        demosaiced_image(bayer, width, height, tile_size, overlap, pattern, black, white)
            == demosaic_image(bayer, width, height, 0, 0, pattern, black, white),
{
    let grid = tiling_of(bayer, width, height, tile_size, overlap);
    let parts = demosaic_all(grid, pattern, black, white);
    let tiled = demosaiced_image(bayer, width, height, tile_size, overlap, pattern, black, white);
    let whole = demosaic_image(bayer, width, height, 0, 0, pattern, black, white);
    assert forall|k: int| 0 <= k < width * height * 3 implies tiled[k] == whole[k] by {
        assert(width > 0 && height > 0) by (nonlinear_arith)
            requires
                0 <= k < width * height * 3,
                0 <= width,
                0 <= height,
        ;
        assert(width * height == height * width) by (nonlinear_arith);
        lemma_index_join(k / 3, width);
        lemma_index_row_bound(k / 3, width, height);
        let px = (k / 3) % width;
        let py = (k / 3) / width;
        let c = k % 3;
        let v = demosaic_byte(bayer, width, height, 0, 0, pattern, black, white, k) as int;
        assert((py * width + px) * 3 + c == k);
        assert forall|i: int| 0 <= i < parts.len() implies 0 <= (#[trigger] parts[i]).overlap by {
            assert(parts[i] == demosaiced(grid[i], pattern, black, white));
        }
        assert forall|i: int|
            0 <= i < parts.len() && holds_pixel(#[trigger] parts[i], px, py) && weight_at(
                parts[i],
                px,
                py,
            ) > 0 implies sample_at(parts[i], px, py, c) == v by {
            assert(parts[i] == demosaiced(grid[i], pattern, black, white));
            lemma_weighed_pixel_is_untiled(
                bayer,
                width,
                height,
                tile_size,
                overlap,
                pattern,
                black,
                white,
                i,
                px,
                py,
                c,
            );
        }
        crate::demosaic::blend::lemma_blend_of_weighted_samples(
            parts,
            parts.len() as int,
            px,
            py,
            c,
            v,
        );
        if 1 <= px < width - 1 && 1 <= py < height - 1 {
            assert(lie_as(parts, grid)) by {
                assert forall|i: int| 0 <= i < parts.len() implies {
                    &&& (#[trigger] parts[i]).x == grid[i].x
                    &&& parts[i].y == grid[i].y
                    &&& parts[i].width == grid[i].width
                    &&& parts[i].height == grid[i].height
                    &&& parts[i].overlap == grid[i].overlap
                } by {
                    assert(parts[i] == demosaiced(grid[i], pattern, black, white));
                }
            }
            lemma_grid_weighs_pixel(parts, bayer, width, height, tile_size, overlap, px, py);
        }
    }
    assert(tiled =~= whole);
}

impl ParallelDemosaic {
    /// Reconstructs every tile, on rayon's worker pool.
    ///
    /// Calls `into_par_iter` on the vector, `map` with `demosaic_tile` and
    /// `collect` into a vector.  Trusted: rayon hands each tile to the
    /// closure once and collects the results in the order of the tiles, so
    /// that each result is what `demosaic_tile` ensures for its tile.
    #[verifier::external_body]
    fn demosaic_tiles_in_parallel(
        &self,
        tiles: Vec<Tile>,
        pattern: BayerPattern,
        black_level: u16,
        white_level: u16,
    ) -> (out: Vec<DemosaicedTile>)
        requires
            forall|i: int| 0 <= i < tiles@.len() ==> (#[trigger] tiles@[i]).wf(),
        ensures
            demosaiced_views(out@) == demosaic_all(
                tile_views(tiles@),
                pattern,
                black_level,
                white_level,
            ),
            forall|i: int| 0 <= i < out@.len() ==> (#[trigger] out@[i]).wf(),
    {
        tiles.into_par_iter().map(
            |tile| self.demosaic_tile(&tile, pattern, black_level, white_level),
        ).collect()
    }

    /// Demosaics a `width` by `height` buffer of raw samples into interleaved
    /// red, green and blue bytes, and counts the tiles that were too small
    /// to have an inner pixel.
    ///
    /// The buffer is cut into tiles, the tiles are reconstructed in
    /// parallel, and the results are blended.  The grid of tiles always
    /// covers the image, so the blend cannot fail.  A tile that is too small
    /// reconstructs to black; it does not stop the others.  With an overlap
    /// and a buffer that holds the whole image the tiles leave no trace: the
    /// result is the reconstruction of the image in one piece, black on its
    /// outer ring only.
    pub fn demosaic_reporting(
        &self,
        bayer_data: &[u16],
        width: usize,
        height: usize,
        pattern: BayerPattern,
        black_level: u16,
        white_level: u16,
    ) -> (out: (Vec<u8>, usize))
        requires
            self.spec_tile_size() > 0,
            self.spec_overlap() <= MAX_OVERLAP,
            width + self.spec_tile_size() + self.spec_overlap() <= usize::MAX,
            height + self.spec_tile_size() + self.spec_overlap() <= usize::MAX,
            width * height * 3 <= usize::MAX,
        ensures
            out.0@ == demosaiced_image(
                bayer_data@,
                width as int,
                height as int,
                self.spec_tile_size() as int,
                self.spec_overlap() as int,
                pattern,
                black_level,
                white_level,
            ),
            out.0@.len() == width * height * 3,
            self.spec_overlap() >= 1 && bayer_data@.len() >= width * height ==> out.0@
                == demosaic_image(
                bayer_data@,
                width as int,
                height as int,
                0,
                0,
                pattern,
                black_level,
                white_level,
            ),
            out.1 == degenerate_among(
                tiling_of(
                    bayer_data@,
                    width as int,
                    height as int,
                    self.spec_tile_size() as int,
                    self.spec_overlap() as int,
                ),
                tile_count(width as int, self.spec_tile_size() as int) * tile_count(
                    height as int,
                    self.spec_tile_size() as int,
                ),
            ),
    {
        let tiles = self.extract_tiles(bayer_data, width, height);
        let degenerate: usize = count_degenerate(&tiles);
        let ghost grid = tiling_of(
            bayer_data@,
            width as int,
            height as int,
            self.spec_tile_size() as int,
            self.spec_overlap() as int,
        );
        let parts = self.demosaic_tiles_in_parallel(tiles, pattern, black_level, white_level);
        let ghost views = demosaiced_views(parts@);
        proof {
            assert(views == demosaic_all(grid, pattern, black_level, white_level));
            assert forall|i: int| 0 <= i < parts@.len() implies (#[trigger] parts@[i]).overlap
                == self.spec_overlap() by {
                assert(views[i] == demosaiced(grid[i], pattern, black_level, white_level));
                assert(views[i] == parts@[i]@);
            }
            lemma_tiling_covers_image(
                bayer_data@,
                width as int,
                height as int,
                self.spec_tile_size() as int,
                self.spec_overlap() as int,
                pattern,
                black_level,
                white_level,
            );
            if self.spec_overlap() >= 1 && bayer_data@.len() >= width * height {
                lemma_tiles_leave_no_trace(
                    bayer_data@,
                    width as int,
                    height as int,
                    self.spec_tile_size() as int,
                    self.spec_overlap() as int,
                    pattern,
                    black_level,
                    white_level,
                );
            }
        }
        match self.combine_tiles(parts, width, height) {
            Ok(rgb) => (rgb, degenerate),
            Err(_) => vstd::pervasive::unreached(),
        }
    }

    /// Demosaics a `width` by `height` buffer of raw samples into interleaved
    /// red, green and blue bytes.  With an overlap and a buffer that holds
    /// the whole image the result is the reconstruction of the image in one
    /// piece.
    pub fn demosaic(
        &self,
        bayer_data: &[u16],
        width: usize,
        height: usize,
        pattern: BayerPattern,
        black_level: u16,
        white_level: u16,
    ) -> (rgb: Vec<u8>)
        requires
            self.spec_tile_size() > 0,
            self.spec_overlap() <= MAX_OVERLAP,
            width + self.spec_tile_size() + self.spec_overlap() <= usize::MAX,
            height + self.spec_tile_size() + self.spec_overlap() <= usize::MAX,
            width * height * 3 <= usize::MAX,
        ensures
            rgb@ == demosaiced_image(
                bayer_data@,
                width as int,
                height as int,
                self.spec_tile_size() as int,
                self.spec_overlap() as int,
                pattern,
                black_level,
                white_level,
            ),
            rgb@.len() == width * height * 3,
            self.spec_overlap() >= 1 && bayer_data@.len() >= width * height ==> rgb@
                == demosaic_image(
                bayer_data@,
                width as int,
                height as int,
                0,
                0,
                pattern,
                black_level,
                white_level,
            ),
    {
        self.demosaic_reporting(bayer_data, width, height, pattern, black_level, white_level).0
    }
}

} // verus!
