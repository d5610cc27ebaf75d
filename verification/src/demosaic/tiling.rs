//! Cutting a sensor buffer into overlapping tiles.
//!
//! Along each axis the image is divided into core intervals of `tile_size`
//! samples, the last one possibly shorter.  A tile holds its core interval
//! and up to `overlap` further samples on each side, clipped at the image.

use vstd::prelude::*;
use crate::demosaic::engine::ParallelDemosaic;

verus! {

/// Number of tiles along an axis of `full` samples.
pub open spec fn tile_count(full: int, tile_size: int) -> int {
    (full + tile_size - 1) / tile_size
}

/// First sample of the core interval of tile `t`.
pub open spec fn core_start(t: int, tile_size: int) -> int {
    t * tile_size
}

/// One past the last sample of the core interval of tile `t`.
pub open spec fn core_end(t: int, tile_size: int, full: int) -> int {
    if (t + 1) * tile_size < full {
        (t + 1) * tile_size
    } else {
        full
    }
}

/// First sample that tile `t` holds: its core start less the overlap,
/// never below zero.
pub open spec fn tile_start(t: int, tile_size: int, overlap: int) -> int {
    if t * tile_size >= overlap {
        t * tile_size - overlap
    } else {
        0
    }
}

/// One past the last sample that tile `t` holds: its core end plus the
/// overlap, never beyond the image.
pub open spec fn tile_end(t: int, tile_size: int, overlap: int, full: int) -> int {
    if (t + 1) * tile_size + overlap < full {
        (t + 1) * tile_size + overlap
    } else {
        full
    }
}

/// Whether sample `p` lies in the core interval of tile `t`.
pub open spec fn in_core(p: int, t: int, tile_size: int, full: int) -> bool {
    core_start(t, tile_size) <= p < core_end(t, tile_size, full)
}

/// The sample that a tile starting at `(start_x, start_y)` with rows of
/// `tile_width` holds at its position `i`.  A row that would reach past the
/// end of the buffer is not read and holds zeros.
pub open spec fn tile_sample(
    bayer: Seq<u16>,
    full_width: int,
    start_x: int,
    start_y: int,
    tile_width: int,
    i: int,
) -> u16 {
    let row = i / tile_width;
    let col = i % tile_width;
    let src = (start_y + row) * full_width + start_x;
    if src + tile_width <= bayer.len() {
        bayer[src + col]
    } else {
        0u16
    }
}

/// A rectangular piece of the sensor buffer with its own copy of the samples.
pub struct Tile {
    /// Samples of the tile, row by row.
    pub data: Vec<u16>,
    /// Column of the tile's first sample in the whole image.
    pub x: usize,
    /// Row of the tile's first sample in the whole image.
    pub y: usize,
    /// Samples per row.
    pub width: usize,
    /// Number of rows.
    pub height: usize,
    /// Width of the band, at each edge, that neighbouring tiles share.
    pub overlap: usize,
}

/// A tile as a value: its samples and its place in the image.
#[verifier::ext_equal]
pub struct TileView {
    /// Samples of the tile, row by row.
    pub data: Seq<u16>,
    /// Column of the tile's first sample in the whole image.
    pub x: int,
    /// Row of the tile's first sample in the whole image.
    pub y: int,
    /// Samples per row.
    pub width: int,
    /// Number of rows.
    pub height: int,
    /// Width of the band, at each edge, that neighbouring tiles share.
    pub overlap: int,
}

impl View for Tile {
    type V = TileView;

    open spec fn view(&self) -> TileView {
        TileView {
            data: self.data@,
            x: self.x as int,
            y: self.y as int,
            width: self.width as int,
            height: self.height as int,
            overlap: self.overlap as int,
        }
    }
}

impl Tile {
    /// The tile holds exactly `width * height` samples and its far corner
    /// is an addressable position.
    pub open spec fn wf(&self) -> bool {
        &&& self.data@.len() == self.width * self.height
        &&& self.width * self.height * 3 <= usize::MAX
        &&& self.x + self.width <= usize::MAX
        &&& self.y + self.height <= usize::MAX
    }

    /// Whether the tile is too small to have an inner pixel.
    pub open spec fn spec_is_degenerate(&self) -> bool {
        self.width < 3 || self.height < 3
    }

    /// Whether the tile is too small to have an inner pixel.  Such a tile
    /// reconstructs to black; it points at a tile size or an overlap that
    /// does not suit the image.
    #[verifier::when_used_as_spec(spec_is_degenerate)]
    pub fn is_degenerate(&self) -> (b: bool)
        ensures
            b == self.spec_is_degenerate(),
    {
        self.width < 3 || self.height < 3
    }
}

/// The values of a list of tiles.
pub open spec fn tile_views(tiles: Seq<Tile>) -> Seq<TileView> {
    tiles.map_values(|t: Tile| t@)
}

/// Tile `(tile_x, tile_y)` of the grid over an image of `full_width` by
/// `full_height` samples.
pub open spec fn tile_at(
    bayer: Seq<u16>,
    full_width: int,
    full_height: int,
    tile_size: int,
    overlap: int,
    tile_x: int,
    tile_y: int,
) -> TileView {
    let sx = tile_start(tile_x, tile_size, overlap);
    let sy = tile_start(tile_y, tile_size, overlap);
    let w = tile_end(tile_x, tile_size, overlap, full_width) - sx;
    let h = tile_end(tile_y, tile_size, overlap, full_height) - sy;
    TileView {
        data: Seq::new((w * h) as nat, |i: int| tile_sample(bayer, full_width, sx, sy, w, i)),
        x: sx,
        y: sy,
        width: w,
        height: h,
        overlap: overlap,
    }
}

/// The tiles of the grid, row by row, so that tile `(tx, ty)` stands at
/// position `ty * tiles_x + tx`.
pub open spec fn tiling_of(
    bayer: Seq<u16>,
    full_width: int,
    full_height: int,
    tile_size: int,
    overlap: int,
) -> Seq<TileView> {
    let tiles_x = tile_count(full_width, tile_size);
    let tiles_y = tile_count(full_height, tile_size);
    Seq::new(
        (tiles_x * tiles_y) as nat,
        |k: int| tile_at(bayer, full_width, full_height, tile_size, overlap, k % tiles_x, k / tiles_x),
    )
}

/// Every valid tile index names a tile that starts inside the image.
pub proof fn lemma_tile_index_in_image(t: int, tile_size: int, full: int)
    requires
        tile_size > 0,
        full >= 0,
        0 <= t < tile_count(full, tile_size),
    ensures
        t * tile_size < full,
{
    let n = tile_count(full, tile_size);
    assert(n * tile_size <= full + tile_size - 1) by (nonlinear_arith)
        requires
            n == (full + tile_size - 1) / tile_size,
            tile_size > 0,
    ;
    assert((t + 1) * tile_size <= n * tile_size) by (nonlinear_arith)
        requires
            t + 1 <= n,
            tile_size > 0,
    ;
    assert((t + 1) * tile_size == t * tile_size + tile_size) by (nonlinear_arith);
}

/// The tile whose core interval holds sample `p` is tile `p / tile_size`.
pub proof fn lemma_core_owner(p: int, tile_size: int, full: int)
    requires
        tile_size > 0,
        0 <= p < full,
    ensures
        0 <= p / tile_size < tile_count(full, tile_size),
        in_core(p, p / tile_size, tile_size, full),
        forall|t: int| 0 <= t && #[trigger] in_core(p, t, tile_size, full) ==> t == p / tile_size,
{
    let q = p / tile_size;
    assert(q * tile_size <= p < (q + 1) * tile_size && q >= 0) by (nonlinear_arith)
        requires
            q == p / tile_size,
            tile_size > 0,
            p >= 0,
    ;
    let n = tile_count(full, tile_size);
    assert(q < n) by (nonlinear_arith)
        requires
            n == (full + tile_size - 1) / tile_size,
            q * tile_size <= p,
            p < full,
            tile_size > 0,
    ;
    assert forall|t: int| 0 <= t && #[trigger] in_core(p, t, tile_size, full) implies t == q by {
        assert(t * tile_size <= p);
        assert(p < (t + 1) * tile_size);
        assert(t == q) by (nonlinear_arith)
            requires
                t * tile_size <= p,
                p < (t + 1) * tile_size,
                q * tile_size <= p,
                p < (q + 1) * tile_size,
                tile_size > 0,
        ;
    }
}

/// A tile holds its whole core interval, and stays inside the image.
pub proof fn lemma_tile_holds_core(t: int, tile_size: int, overlap: int, full: int)
    requires
        tile_size > 0,
        overlap >= 0,
        full >= 0,
        0 <= t < tile_count(full, tile_size),
    ensures
        0 <= tile_start(t, tile_size, overlap) <= core_start(t, tile_size),
        core_start(t, tile_size) < core_end(t, tile_size, full),
        core_end(t, tile_size, full) <= tile_end(t, tile_size, overlap, full) <= full,
{
    lemma_tile_index_in_image(t, tile_size, full);
    assert((t + 1) * tile_size == t * tile_size + tile_size) by (nonlinear_arith);
    assert(t * tile_size >= 0) by (nonlinear_arith)
        requires
            t >= 0,
            tile_size > 0,
    ;
}

/// Position `row * w + col` lies in row `row` and column `col`.
pub proof fn lemma_index_split(row: int, col: int, w: int)
    requires
        w > 0,
        row >= 0,
        0 <= col < w,
    ensures
        (row * w + col) / w == row,
        (row * w + col) % w == col,
{
    vstd::arithmetic::div_mod::lemma_fundamental_div_mod_converse(row * w + col, w, row, col);
}

/// Every position splits into its row and its column.
pub proof fn lemma_index_join(i: int, w: int)
    requires
        w > 0,
        i >= 0,
    ensures
        i == (i / w) * w + i % w,
        0 <= i % w < w,
        0 <= i / w,
        i / w * w <= i,
{
    vstd::arithmetic::div_mod::lemma_fundamental_div_mod(i, w);
    assert(w * (i / w) == (i / w) * w) by (nonlinear_arith);
    assert(i / w >= 0) by (nonlinear_arith)
        requires
            i >= 0,
            w > 0,
    ;
}

/// A position below `rows * w` lies in a row below `rows`.
pub proof fn lemma_index_row_bound(i: int, w: int, rows: int)
    requires
        w > 0,
        0 <= i < rows * w,
    ensures
        i / w < rows,
{
    lemma_index_join(i, w);
    assert(i / w < rows) by (nonlinear_arith)
        requires
            i / w * w <= i,
            i < rows * w,
            w > 0,
    ;
}

impl ParallelDemosaic {
    /// Copies tile `(tile_x, tile_y)` of the grid out of the buffer.
    ///
    /// The tile spans its core and the overlap around it, clipped at the
    /// image.  A row of the tile that would reach past the end of
    /// `bayer_data` is left at zero.
    pub fn extract_tile(
        &self,
        bayer_data: &[u16],
        full_width: usize,
        full_height: usize,
        tile_x: usize,
        tile_y: usize,
    ) -> (tile: Tile)
        requires
            self.spec_tile_size() > 0,
            tile_x < tile_count(full_width as int, self.spec_tile_size() as int),
            tile_y < tile_count(full_height as int, self.spec_tile_size() as int),
            full_width + self.spec_tile_size() + self.spec_overlap() <= usize::MAX,
            full_height + self.spec_tile_size() + self.spec_overlap() <= usize::MAX,
            full_width * full_height <= usize::MAX,
        ensures
            tile@ == tile_at(
                bayer_data@,
                full_width as int,
                full_height as int,
                self.spec_tile_size() as int,
                self.spec_overlap() as int,
                tile_x as int,
                tile_y as int,
            ),
            tile.data@.len() == tile.width * tile.height,
            full_width * full_height * 3 <= usize::MAX ==> tile.wf(),
            tile.x <= core_start(tile_x as int, self.spec_tile_size() as int),
            core_end(tile_x as int, self.spec_tile_size() as int, full_width as int) <= tile.x
                + tile.width <= full_width,
            tile.y <= core_start(tile_y as int, self.spec_tile_size() as int),
            core_end(tile_y as int, self.spec_tile_size() as int, full_height as int) <= tile.y
                + tile.height <= full_height,
    {
        let ts: usize = self.tile_size();
        let ov: usize = self.overlap();
        proof {
            lemma_tile_holds_core(tile_x as int, ts as int, ov as int, full_width as int);
            lemma_tile_holds_core(tile_y as int, ts as int, ov as int, full_height as int);
            lemma_tile_index_in_image(tile_x as int, ts as int, full_width as int);
            lemma_tile_index_in_image(tile_y as int, ts as int, full_height as int);
            assert((tile_x + 1) * ts == tile_x * ts + ts) by (nonlinear_arith);
            assert((tile_y + 1) * ts == tile_y * ts + ts) by (nonlinear_arith);
        }
        let core_x: usize = tile_x * ts;
        let core_y: usize = tile_y * ts;
        let start_x: usize = if core_x >= ov { core_x - ov } else { 0 };
        let start_y: usize = if core_y >= ov { core_y - ov } else { 0 };
        let far_x: usize = core_x + ts + ov;
        let far_y: usize = core_y + ts + ov;
        let end_x: usize = if far_x < full_width { far_x } else { full_width };
        let end_y: usize = if far_y < full_height { far_y } else { full_height };
        let tile_width: usize = end_x - start_x;
        let tile_height: usize = end_y - start_y;
        assert(tile_width * tile_height <= full_width * full_height) by (nonlinear_arith)
            requires
                tile_width <= full_width,
                tile_height <= full_height,
        ;
        let mut data: Vec<u16> = vec![0u16; tile_width * tile_height];
        let ghost src = bayer_data@;
        let ghost fw = full_width as int;
        let ghost sx = start_x as int;
        let ghost sy = start_y as int;
        let ghost tw = tile_width as int;
        let mut y: usize = 0;
        while y < tile_height
            invariant
                y <= tile_height,
                tile_width > 0,
                data@.len() == tile_width * tile_height,
                tile_width * tile_height <= usize::MAX,
                start_x + tile_width <= full_width,
                start_y + tile_height <= full_height,
                full_width * full_height <= usize::MAX,
                src == bayer_data@,
                fw == full_width,
                sx == start_x,
                sy == start_y,
                tw == tile_width,
                forall|i: int|
                    0 <= i < data@.len() ==> data@[i] == if i < y * tw {
                        tile_sample(src, fw, sx, sy, tw, i)
                    } else {
                        0u16
                    },
            decreases tile_height - y,
        {
            let src_y: usize = start_y + y;
            assert(src_y * full_width + start_x + tile_width <= full_width * full_height)
                by (nonlinear_arith)
                requires
                    src_y < full_height,
                    start_x + tile_width <= full_width,
            ;
            let src_offset: usize = src_y * full_width + start_x;
            assert((y + 1) * tw == y * tw + tw) by (nonlinear_arith);
            assert(y * tw + tw <= tw * tile_height) by (nonlinear_arith)
                requires
                    y < tile_height,
                    tw > 0,
            ;
            let dst_offset: usize = y * tile_width;
            if src_offset + tile_width <= bayer_data.len() {
                let mut c: usize = 0;
                while c < tile_width
                    invariant
                        c <= tile_width,
                        y < tile_height,
                        tile_width > 0,
                        dst_offset == y * tile_width,
                        dst_offset + tile_width <= data@.len(),
                        data@.len() == tile_width * tile_height,
                        data@.len() <= usize::MAX,
                        src_offset == (sy + y) * fw + sx,
                        src_offset + tile_width <= bayer_data@.len(),
                        bayer_data@.len() <= usize::MAX,
                        src == bayer_data@,
                        tw == tile_width,
                        forall|i: int|
                            0 <= i < data@.len() ==> data@[i] == if i < y * tw + c {
                                tile_sample(src, fw, sx, sy, tw, i)
                            } else {
                                0u16
                            },
                    decreases tile_width - c,
                {
                    let v: u16 = bayer_data[src_offset + c];
                    data.set(dst_offset + c, v);
                    proof {
                        lemma_index_split(y as int, c as int, tw);
                    }
                    c = c + 1;
                }
            } else {
                assert forall|i: int|
                    0 <= i < data@.len() implies data@[i] == if i < (y + 1) * tw {
                        tile_sample(src, fw, sx, sy, tw, i)
                    } else {
                        0u16
                    } by {
                    if y * tw <= i < (y + 1) * tw {
                        lemma_index_split(y as int, i - y * tw, tw);
                    }
                }
            }
            y = y + 1;
        }
        assert(tile_height * tw == tw * tile_height) by (nonlinear_arith);
        assert(data@ =~= Seq::new(
            (tw * (tile_height as int)) as nat,
            |i: int| tile_sample(src, fw, sx, sy, tw, i),
        ));
        assert(tile_width * tile_height * 3 <= full_width * full_height * 3) by (nonlinear_arith)
            requires
                tile_width * tile_height <= full_width * full_height,
        ;
        let tile = Tile {
            data,
            x: start_x,
            y: start_y,
            width: tile_width,
            height: tile_height,
            overlap: ov,
        };
        assert(tile@ =~= tile_at(
            src,
            fw,
            full_height as int,
            ts as int,
            ov as int,
            tile_x as int,
            tile_y as int,
        ));
        tile
    }
}

/// Among the first `n` tiles, the number that are too small to have an
/// inner pixel.
pub open spec fn degenerate_among(tiles: Seq<TileView>, n: int) -> int
    decreases n,
{
    if n <= 0 {
        0
    } else {
        degenerate_among(tiles, n - 1) + if tiles[n - 1].width < 3 || tiles[n - 1].height < 3 {
            1int
        } else {
            0int
        }
    }
}

/// Number of the tiles that are too small to have an inner pixel and so
/// reconstruct to black.  More than none points at a tile size or an
/// overlap that does not suit the image, and is worth a warning.
pub fn count_degenerate(tiles: &Vec<Tile>) -> (count: usize)
    ensures
        count == degenerate_among(tile_views(tiles@), tiles@.len() as int),
{
    let mut count: usize = 0;
    let mut i: usize = 0;
    while i < tiles.len()
        invariant
            i <= tiles@.len(),
            count <= i,
            count == degenerate_among(tile_views(tiles@), i as int),
        decreases tiles@.len() - i,
    {
        assert(tile_views(tiles@)[i as int] == tiles@[i as int]@);
        if tiles[i].is_degenerate() {
            count = count + 1;
        }
        i = i + 1;
    }
    count
}

impl ParallelDemosaic {
    /// Cuts the whole buffer into tiles, row by row of the tile grid.
    pub fn extract_tiles(&self, bayer_data: &[u16], width: usize, height: usize) -> (tiles: Vec<
        Tile,
    >)
        requires
            self.spec_tile_size() > 0,
            width + self.spec_tile_size() + self.spec_overlap() <= usize::MAX,
            height + self.spec_tile_size() + self.spec_overlap() <= usize::MAX,
            width * height <= usize::MAX,
        ensures
            tile_views(tiles@) == tiling_of(
                bayer_data@,
                width as int,
                height as int,
                self.spec_tile_size() as int,
                self.spec_overlap() as int,
            ),
            forall|k: int|
                0 <= k < tiles@.len() ==> {
                    &&& (#[trigger] tiles@[k]).data@.len() == tiles@[k].width * tiles@[k].height
                    &&& width * height * 3 <= usize::MAX ==> tiles@[k].wf()
                    &&& tiles@[k].x + tiles@[k].width <= width
                    &&& tiles@[k].y + tiles@[k].height <= height
                },
    {
        let ts: usize = self.tile_size();
        let tiles_x: usize = (width + ts - 1) / ts;
        let tiles_y: usize = (height + ts - 1) / ts;
        let ghost src = bayer_data@;
        let ghost ov = self.spec_overlap() as int;
        let mut tiles: Vec<Tile> = Vec::new();
        let mut ty: usize = 0;
        while ty < tiles_y
            invariant
                ty <= tiles_y,
                ts == self.spec_tile_size(),
                ts > 0,
                ov == self.spec_overlap(),
                src == bayer_data@,
                tiles_x == tile_count(width as int, ts as int),
                tiles_y == tile_count(height as int, ts as int),
                width + ts + ov <= usize::MAX,
                height + ts + ov <= usize::MAX,
                width * height <= usize::MAX,
                tiles@.len() == ty * tiles_x,
                forall|k: int|
                    0 <= k < tiles@.len() ==> {
                        &&& (#[trigger] tiles@[k])@ == tile_at(
                            src,
                            width as int,
                            height as int,
                            ts as int,
                            ov,
                            k % (tiles_x as int),
                            k / (tiles_x as int),
                        )
                        &&& tiles@[k].data@.len() == tiles@[k].width * tiles@[k].height
                        &&& width * height * 3 <= usize::MAX ==> tiles@[k].wf()
                        &&& tiles@[k].x + tiles@[k].width <= width
                        &&& tiles@[k].y + tiles@[k].height <= height
                    },
            decreases tiles_y - ty,
        {
            let mut tx: usize = 0;
            while tx < tiles_x
                invariant
                    tx <= tiles_x,
                    ty < tiles_y,
                    ts == self.spec_tile_size(),
                    ts > 0,
                    ov == self.spec_overlap(),
                    src == bayer_data@,
                    tiles_x == tile_count(width as int, ts as int),
                    tiles_y == tile_count(height as int, ts as int),
                    width + ts + ov <= usize::MAX,
                    height + ts + ov <= usize::MAX,
                    width * height <= usize::MAX,
                    tiles@.len() == ty * tiles_x + tx,
                    forall|k: int|
                        0 <= k < tiles@.len() ==> {
                            &&& (#[trigger] tiles@[k])@ == tile_at(
                                src,
                                width as int,
                                height as int,
                                ts as int,
                                ov,
                                k % (tiles_x as int),
                                k / (tiles_x as int),
                            )
                            &&& tiles@[k].data@.len() == tiles@[k].width * tiles@[k].height
                            &&& width * height * 3 <= usize::MAX ==> tiles@[k].wf()
                            &&& tiles@[k].x + tiles@[k].width <= width
                            &&& tiles@[k].y + tiles@[k].height <= height
                        },
                decreases tiles_x - tx,
            {
                let tile = self.extract_tile(bayer_data, width, height, tx, ty);
                proof {
                    lemma_index_split(ty as int, tx as int, tiles_x as int);
                }
                tiles.push(tile);
                tx = tx + 1;
            }
            assert((ty + 1) * tiles_x == ty * tiles_x + tiles_x) by (nonlinear_arith);
            ty = ty + 1;
        }
        assert(tiles_y * tiles_x == tiles_x * tiles_y) by (nonlinear_arith);
        assert(tile_views(tiles@) =~= tiling_of(src, width as int, height as int, ts as int, ov));
        tiles
    }
}

/// The cores of the tiles partition the image: every sample lies in the
/// core of exactly one tile of the grid, that tile holds its whole core, and
/// no core reaches outside the image.
pub proof fn lemma_cores_partition_image(
    bayer: Seq<u16>,
    width: int,
    height: int,
    tile_size: int,
    overlap: int,
    px: int,
    py: int,
)
    requires
        tile_size > 0,
        overlap >= 0,
        0 <= px < width,
        0 <= py < height,
    ensures
        ({
            let tiles = tiling_of(bayer, width, height, tile_size, overlap);
            let tiles_x = tile_count(width, tile_size);
            let owner = (py / tile_size) * tiles_x + px / tile_size;
            &&& 0 <= owner < tiles.len()
            &&& in_core(px, owner % tiles_x, tile_size, width)
            &&& in_core(py, owner / tiles_x, tile_size, height)
            &&& tiles[owner].x <= core_start(owner % tiles_x, tile_size)
            &&& core_end(owner % tiles_x, tile_size, width) <= tiles[owner].x + tiles[owner].width
                <= width
            &&& tiles[owner].y <= core_start(owner / tiles_x, tile_size)
            &&& core_end(owner / tiles_x, tile_size, height) <= tiles[owner].y
                + tiles[owner].height <= height
            &&& forall|k: int|
                0 <= k < tiles.len() && in_core(px, k % tiles_x, tile_size, width) && in_core(
                    py,
                    #[trigger] (k / tiles_x),
                    tile_size,
                    height,
                ) ==> k == owner
        }),
{
    let tiles = tiling_of(bayer, width, height, tile_size, overlap);
    let tiles_x = tile_count(width, tile_size);
    let tiles_y = tile_count(height, tile_size);
    let tx = px / tile_size;
    let ty = py / tile_size;
    let owner = ty * tiles_x + tx;
    lemma_core_owner(px, tile_size, width);
    lemma_core_owner(py, tile_size, height);
    lemma_index_split(ty, tx, tiles_x);
    assert(0 <= owner < tiles_x * tiles_y) by (nonlinear_arith)
        requires
            owner == ty * tiles_x + tx,
            0 <= tx < tiles_x,
            0 <= ty < tiles_y,
    ;
    lemma_tile_holds_core(tx, tile_size, overlap, width);
    lemma_tile_holds_core(ty, tile_size, overlap, height);
    assert(tiles[owner] == tile_at(bayer, width, height, tile_size, overlap, tx, ty));
    assert forall|k: int|
        0 <= k < tiles.len() && in_core(px, k % tiles_x, tile_size, width) && in_core(
            py,
            #[trigger] (k / tiles_x),
            tile_size,
            height,
        ) implies k == owner by {
        lemma_index_join(k, tiles_x);
        assert(k % tiles_x == tx);
        assert(k / tiles_x == ty);
    }
}

} // verus!
