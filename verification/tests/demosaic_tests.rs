use soma_media::demosaic::bilinear::DemosaicedTile;
use soma_media::demosaic::blend::DemosaicError;
use soma_media::demosaic::tiling::{count_degenerate, Tile};
use soma_media::demosaic::{BayerPattern, DemosaicAlgorithm, ParallelDemosaic};

fn checkerboard(width: usize, height: usize) -> Vec<u16> {
    let mut bayer = Vec::new();
    for y in 0..height {
        for x in 0..width {
            let v: u16 = match (x % 2, y % 2) {
                (0, 0) => 1000,
                (1, 1) => 3000,
                _ => 2000,
            };
            bayer.push(v);
        }
    }
    bayer
}

#[test]
fn test_bayer_pattern() {
    let pattern = BayerPattern::RGGB;
    assert_eq!(pattern.color_at(0, 0), 0);
    assert_eq!(pattern.color_at(1, 0), 1);
    assert_eq!(pattern.color_at(0, 1), 1);
    assert_eq!(pattern.color_at(1, 1), 2);
}

#[test]
fn test_small_demosaic() {
    let demosaic = ParallelDemosaic::with_tile_size(64);
    let bayer = vec![
        1000, 2000, 1000, 2000,
        2000, 3000, 2000, 3000,
        1000, 2000, 1000, 2000,
        2000, 3000, 2000, 3000,
    ];
    let rgb = demosaic.demosaic(&bayer, 4, 4, BayerPattern::RGGB, 0, 4095);
    assert_eq!(rgb.len(), 4 * 4 * 3);
}

#[test]
fn small_demosaic_has_the_expected_pixels() {
    let demosaic = ParallelDemosaic::with_tile_size(64);
    let bayer = checkerboard(4, 4);
    let rgb = demosaic.demosaic(&bayer, 4, 4, BayerPattern::RGGB, 0, 4095);
    let mut expected = vec![0u8; 48];
    for p in [5usize, 6, 9, 10] {
        expected[p * 3] = 62;
        expected[p * 3 + 1] = 124;
        expected[p * 3 + 2] = 186;
    }
    assert_eq!(rgb, expected);
}

#[test]
fn every_pattern_names_a_colour_everywhere() {
    let patterns = [
        (BayerPattern::RGGB, [[0u8, 1], [1, 2]]),
        (BayerPattern::GRBG, [[1, 0], [2, 1]]),
        (BayerPattern::GBRG, [[1, 2], [0, 1]]),
        (BayerPattern::BGGR, [[2, 1], [1, 0]]),
    ];
    for (pattern, cell) in patterns {
        for y in 0..8usize {
            for x in 0..8usize {
                let c = pattern.color_at(x, y);
                assert!(c <= 2);
                assert_eq!(c, cell[y % 2][x % 2]);
            }
        }
    }
}

#[test]
fn colour_is_told_by_parity_of_large_coordinates() {
    assert_eq!(BayerPattern::RGGB.color_at(usize::MAX, usize::MAX), 2);
    assert_eq!(BayerPattern::BGGR.color_at(usize::MAX - 1, usize::MAX), 1);
    assert_eq!(BayerPattern::GRBG.color_at(1_000_001, 1_000_000), 0);
}

fn cdesc(name: &str) -> [i8; 5] {
    let b = name.as_bytes();
    [b[0] as i8, b[1] as i8, b[2] as i8, b[3] as i8, 0]
}

#[test]
fn pattern_is_read_from_its_letters() {
    assert_eq!(BayerPattern::from_cdesc(&cdesc("RGGB")), BayerPattern::RGGB);
    assert_eq!(BayerPattern::from_cdesc(&cdesc("GRBG")), BayerPattern::GRBG);
    assert_eq!(BayerPattern::from_cdesc(&cdesc("GBRG")), BayerPattern::GBRG);
    assert_eq!(BayerPattern::from_cdesc(&cdesc("BGGR")), BayerPattern::BGGR);
}

#[test]
fn unknown_letters_read_as_rggb() {
    assert_eq!(BayerPattern::from_cdesc(&cdesc("XXXX")), BayerPattern::RGGB);
    assert_eq!(BayerPattern::from_cdesc(&[0, 0, 0, 0, 0]), BayerPattern::RGGB);
    assert_eq!(BayerPattern::from_cdesc(&cdesc("GRBX")), BayerPattern::RGGB);
    assert!(!BayerPattern::is_known_cdesc(&cdesc("XXXX")));
    assert!(BayerPattern::is_known_cdesc(&cdesc("BGGR")));
    assert!(BayerPattern::is_known_cdesc(&cdesc("RGGB")));
}

#[test]
fn pattern_index_follows_the_order_of_the_names() {
    assert_eq!(BayerPattern::RGGB.index(), 0);
    assert_eq!(BayerPattern::GRBG.index(), 1);
    assert_eq!(BayerPattern::GBRG.index(), 2);
    assert_eq!(BayerPattern::BGGR.index(), 3);
}

#[test]
fn processor_settings() {
    let p = ParallelDemosaic::with_tile_size(64);
    assert_eq!(p.tile_size(), 64);
    assert_eq!(p.overlap(), 16);
    assert_eq!(p.algorithm(), DemosaicAlgorithm::Bilinear);
    let p = p.with_algorithm(DemosaicAlgorithm::AHD);
    assert_eq!(p.algorithm(), DemosaicAlgorithm::AHD);
    assert_eq!(p.tile_size(), 64);
    let d = ParallelDemosaic::default();
    assert_eq!(d.tile_size(), 512);
    assert_eq!(d.overlap(), 16);
    let o = ParallelDemosaic::with_overlap(4, 2);
    assert_eq!(o.tile_size(), 4);
    assert_eq!(o.overlap(), 2);
}

#[test]
fn algorithm_is_chosen_by_the_decoder_quality_number() {
    assert_eq!(DemosaicAlgorithm::from_quality(Some(0)), DemosaicAlgorithm::Bilinear);
    assert_eq!(DemosaicAlgorithm::from_quality(Some(1)), DemosaicAlgorithm::VNG);
    assert_eq!(DemosaicAlgorithm::from_quality(Some(3)), DemosaicAlgorithm::AHD);
    assert_eq!(DemosaicAlgorithm::from_quality(Some(12)), DemosaicAlgorithm::Bilinear);
    assert_eq!(DemosaicAlgorithm::from_quality(None), DemosaicAlgorithm::Bilinear);
}

#[test]
fn tiles_of_a_ten_by_seven_image() {
    let bayer: Vec<u16> = (0..70).collect();
    let p = ParallelDemosaic::with_overlap(4, 1);
    let tiles = p.extract_tiles(&bayer, 10, 7);
    let expected = [
        (0usize, 0usize, 5usize, 5usize, [0u16, 1, 2, 3, 4]),
        (3, 0, 6, 5, [3, 4, 5, 6, 7]),
        (7, 0, 3, 5, [7, 8, 9, 17, 18]),
        (0, 3, 5, 4, [30, 31, 32, 33, 34]),
        (3, 3, 6, 4, [33, 34, 35, 36, 37]),
        (7, 3, 3, 4, [37, 38, 39, 47, 48]),
    ];
    assert_eq!(tiles.len(), expected.len());
    for (tile, (x, y, w, h, head)) in tiles.iter().zip(expected.iter()) {
        assert_eq!(tile.x, *x);
        assert_eq!(tile.y, *y);
        assert_eq!(tile.width, *w);
        assert_eq!(tile.height, *h);
        assert_eq!(tile.overlap, 1);
        assert_eq!(tile.data.len(), w * h);
        assert_eq!(&tile.data[..5], &head[..]);
    }
}

#[test]
fn single_tile_is_cut_as_the_grid_says() {
    let bayer: Vec<u16> = (0..70).collect();
    let p = ParallelDemosaic::with_overlap(4, 1);
    let tile = p.extract_tile(&bayer, 10, 7, 1, 1);
    assert_eq!((tile.x, tile.y, tile.width, tile.height), (3, 3, 6, 4));
    assert_eq!(tile.data[0], 33);
    assert_eq!(tile.data[6], 43);
    assert_eq!(tile.data[23], 68);
}

#[test]
fn tile_cores_cover_the_image_once() {
    for (width, height, tile_size, overlap) in
        [(10usize, 7usize, 4usize, 1usize), (8, 8, 4, 0), (5, 3, 8, 16), (9, 9, 3, 2), (1, 1, 1, 0)]
    {
        let bayer = vec![0u16; width * height];
        let p = ParallelDemosaic::with_overlap(tile_size, overlap);
        let tiles = p.extract_tiles(&bayer, width, height);
        let tiles_x = (width + tile_size - 1) / tile_size;
        let tiles_y = (height + tile_size - 1) / tile_size;
        assert_eq!(tiles.len(), tiles_x * tiles_y);
        let mut owners = vec![0u32; width * height];
        for (k, tile) in tiles.iter().enumerate() {
            let (tx, ty) = (k % tiles_x, k / tiles_x);
            let core_x = (tx * tile_size, ((tx + 1) * tile_size).min(width));
            let core_y = (ty * tile_size, ((ty + 1) * tile_size).min(height));
            assert!(tile.x <= core_x.0 && core_x.1 <= tile.x + tile.width);
            assert!(tile.y <= core_y.0 && core_y.1 <= tile.y + tile.height);
            assert!(tile.x + tile.width <= width && tile.y + tile.height <= height);
            for y in core_y.0..core_y.1 {
                for x in core_x.0..core_x.1 {
                    owners[y * width + x] += 1;
                }
            }
        }
        assert!(owners.iter().all(|n| *n == 1));
    }
}

#[test]
fn rows_beyond_a_short_buffer_stay_zero() {
    let bayer: Vec<u16> = vec![7; 10];
    let p = ParallelDemosaic::with_overlap(4, 0);
    let tile = p.extract_tile(&bayer, 4, 4, 0, 0);
    assert_eq!(tile.data, vec![7, 7, 7, 7, 7, 7, 7, 7, 0, 0, 0, 0, 0, 0, 0, 0]);
}

#[test]
fn empty_image_has_no_tiles_and_no_pixels() {
    let p = ParallelDemosaic::with_tile_size(64);
    assert_eq!(p.extract_tiles(&[], 0, 0).len(), 0);
    assert_eq!(p.demosaic(&[], 0, 0, BayerPattern::RGGB, 0, 4095).len(), 0);
    assert_eq!(p.demosaic(&[], 0, 5, BayerPattern::RGGB, 0, 4095).len(), 0);
}

#[test]
fn eight_by_eight_checkerboard_end_to_end() {
    let bayer = checkerboard(8, 8);
    let p = ParallelDemosaic::with_overlap(4, 0);
    let rgb = p.demosaic(&bayer, 8, 8, BayerPattern::RGGB, 0, 4095);
    assert_eq!(rgb.len(), 192);
    for y in 0..8usize {
        for x in 0..8usize {
            let inner = (x % 4 == 1 || x % 4 == 2) && (y % 4 == 1 || y % 4 == 2);
            let pixel = &rgb[(y * 8 + x) * 3..(y * 8 + x) * 3 + 3];
            if inner {
                assert_eq!(pixel, &[62u8, 124, 186][..]);
            } else {
                assert_eq!(pixel, &[0u8, 0, 0][..]);
            }
        }
    }
}

#[test]
fn green_is_the_mean_of_the_four_neighbours() {
    let bayer: Vec<u16> = vec![
        0, 400, 0,
        800, 4095, 1200,
        0, 1600, 0,
    ];
    let p = ParallelDemosaic::with_tile_size(64);
    let rgb = p.demosaic_bilinear(&bayer, 3, 3, 0, 0, BayerPattern::BGGR, 0, 4095);
    assert_eq!(rgb[4 * 3], 255);
    assert_eq!(rgb[4 * 3 + 1], 62);
    assert_eq!(rgb[4 * 3 + 2], 0);
}

#[test]
fn green_site_takes_red_from_its_row_or_its_column() {
    let bayer: Vec<u16> = vec![
        10, 100, 10,
        40, 1000, 60,
        10, 200, 10,
    ];
    let p = ParallelDemosaic::with_tile_size(64);
    let on_red_row = p.demosaic_bilinear(&bayer, 3, 3, 0, 0, BayerPattern::GBRG, 0, 1000);
    assert_eq!(&on_red_row[12..15], &[12u8, 255, 38][..]);
    let on_blue_row = p.demosaic_bilinear(&bayer, 3, 3, 0, 0, BayerPattern::GRBG, 0, 1000);
    assert_eq!(&on_blue_row[12..15], &[38u8, 255, 12][..]);
}

#[test]
fn colour_follows_the_place_of_the_tile_on_the_sensor() {
    let bayer: Vec<u16> = vec![
        0, 400, 0,
        800, 4095, 1200,
        0, 1600, 0,
    ];
    let p = ParallelDemosaic::with_tile_size(64);
    let at_origin = p.demosaic_bilinear(&bayer, 3, 3, 0, 0, BayerPattern::RGGB, 0, 4095);
    let shifted = p.demosaic_bilinear(&bayer, 3, 3, 1, 1, BayerPattern::RGGB, 0, 4095);
    assert_eq!(&at_origin[12..15], &[0u8, 62, 255][..]);
    assert_eq!(&shifted[12..15], &[255u8, 62, 0][..]);
}

#[test]
fn black_level_is_taken_off_and_white_saturates() {
    let bayer: Vec<u16> = vec![
        100, 100, 100,
        100, 50, 100,
        100, 100, 100,
    ];
    let p = ParallelDemosaic::with_tile_size(64);
    let rgb = p.demosaic_bilinear(&bayer, 3, 3, 0, 0, BayerPattern::BGGR, 60, 100);
    assert_eq!(&rgb[12..15], &[0u8, 255, 255][..]);
    let half = p.demosaic_bilinear(&bayer, 3, 3, 0, 0, BayerPattern::BGGR, 60, 140);
    assert_eq!(&half[12..15], &[0u8, 127, 127][..]);
}

#[test]
fn empty_range_of_levels_saturates_inner_pixels() {
    let bayer: Vec<u16> = vec![5; 9];
    let p = ParallelDemosaic::with_tile_size(64);
    let rgb = p.demosaic_bilinear(&bayer, 3, 3, 0, 0, BayerPattern::RGGB, 200, 100);
    let mut expected = vec![0u8; 27];
    expected[12] = 255;
    expected[13] = 255;
    expected[14] = 255;
    assert_eq!(rgb, expected);
}

#[test]
fn degenerate_tile_is_black() {
    let p = ParallelDemosaic::with_tile_size(64);
    for (w, h) in [(2usize, 5usize), (5, 2), (1, 1), (0, 0), (2, 2)] {
        let tile = Tile { data: vec![4000; w * h], x: 0, y: 0, width: w, height: h, overlap: 16 };
        assert!(tile.is_degenerate());
        let out = p.demosaic_tile(&tile, BayerPattern::RGGB, 0, 4095);
        assert_eq!(out.rgb, vec![0u8; w * h * 3]);
        assert_eq!((out.x, out.y, out.width, out.height, out.overlap), (0, 0, w, h, 16));
    }
    let tile = Tile { data: vec![4000; 9], x: 0, y: 0, width: 3, height: 3, overlap: 16 };
    assert!(!tile.is_degenerate());
}

#[test]
fn every_algorithm_reconstructs_bilinearly() {
    let tile = Tile { data: checkerboard(4, 4), x: 2, y: 4, width: 4, height: 4, overlap: 0 };
    let base = ParallelDemosaic::with_tile_size(4).demosaic_tile(&tile, BayerPattern::RGGB, 0, 4095);
    for algorithm in [DemosaicAlgorithm::VNG, DemosaicAlgorithm::AHD] {
        let out = ParallelDemosaic::with_tile_size(4)
            .with_algorithm(algorithm)
            .demosaic_tile(&tile, BayerPattern::RGGB, 0, 4095);
        assert_eq!(out.rgb, base.rgb);
        assert_eq!((out.x, out.y), (2, 4));
    }
}

fn uniform_tile(x: usize, y: usize, w: usize, h: usize, overlap: usize, c: [u8; 3]) -> DemosaicedTile {
    let mut rgb = Vec::new();
    for _ in 0..w * h {
        rgb.extend_from_slice(&c);
    }
    DemosaicedTile { rgb, x, y, width: w, height: h, overlap }
}

#[test]
fn blend_of_two_tiles_without_overlap_band() {
    let p = ParallelDemosaic::with_overlap(2, 0);
    let tiles = vec![uniform_tile(0, 0, 2, 2, 0, [100, 100, 100]), uniform_tile(1, 0, 2, 2, 0, [50, 60, 70])];
    let rgb = p.combine_tiles(tiles, 3, 2).unwrap();
    assert_eq!(rgb, vec![100, 100, 100, 75, 80, 85, 50, 60, 70, 100, 100, 100, 75, 80, 85, 50, 60, 70]);
}

#[test]
fn blend_weighs_by_the_distance_from_the_edge() {
    let p = ParallelDemosaic::with_overlap(4, 3);
    let tiles = vec![uniform_tile(0, 0, 8, 4, 3, [100, 100, 100]), uniform_tile(4, 0, 8, 4, 3, [40, 40, 40])];
    let rgb = p.combine_tiles(tiles, 12, 4).unwrap();
    let row: Vec<u8> = (0..12).map(|x| rgb[(12 + x) * 3]).collect();
    assert_eq!(row, vec![0, 100, 100, 100, 100, 80, 60, 40, 40, 40, 40, 0]);
    assert!(rgb[..36].iter().all(|b| *b == 0));
    assert!(rgb[3 * 36..].iter().all(|b| *b == 0));
}

#[test]
fn first_and_last_row_and_column_of_a_tile_weigh_nothing() {
    let p = ParallelDemosaic::with_overlap(2, 2);
    let tiles = vec![uniform_tile(0, 0, 4, 4, 2, [100, 100, 100]), uniform_tile(2, 0, 4, 4, 2, [40, 40, 40])];
    let rgb = p.combine_tiles(tiles, 6, 4).unwrap();
    let row: Vec<u8> = (0..6).map(|x| rgb[(6 + x) * 3]).collect();
    assert_eq!(row, vec![0, 100, 100, 40, 40, 0]);
    assert!(rgb[..18].iter().all(|b| *b == 0));
}

#[test]
fn uniform_tiles_blend_to_their_colour() {
    let p = ParallelDemosaic::with_overlap(4, 2);
    let grid = p.extract_tiles(&vec![0u16; 64], 8, 8);
    let tiles: Vec<DemosaicedTile> = grid
        .iter()
        .map(|t| uniform_tile(t.x, t.y, t.width, t.height, t.overlap, [10, 20, 30]))
        .collect();
    let rgb = p.combine_tiles(tiles, 8, 8).unwrap();
    for y in 0..8usize {
        for x in 0..8usize {
            let pixel = &rgb[(y * 8 + x) * 3..(y * 8 + x) * 3 + 3];
            if x == 0 || y == 0 || x == 7 || y == 7 {
                assert_eq!(pixel, &[0u8, 0, 0][..]);
            } else {
                assert_eq!(pixel, &[10u8, 20, 30][..]);
            }
        }
    }
}

#[test]
fn uniform_tiles_without_overlap_blend_to_their_colour_everywhere() {
    let p = ParallelDemosaic::with_overlap(3, 0);
    let grid = p.extract_tiles(&vec![0u16; 35], 7, 5);
    let tiles: Vec<DemosaicedTile> =
        grid.iter().map(|t| uniform_tile(t.x, t.y, t.width, t.height, 0, [200, 1, 255])).collect();
    let rgb = p.combine_tiles(tiles, 7, 5).unwrap();
    for p in 0..35usize {
        assert_eq!(&rgb[p * 3..p * 3 + 3], &[200u8, 1, 255][..]);
    }
}

#[test]
fn seam_between_two_tiles_of_a_gradient_is_smooth() {
    let (width, height) = (64usize, 8usize);
    let bayer: Vec<u16> = (0..height).flat_map(|_| (0..width as u16).map(|x| x * 30)).collect();
    let p = ParallelDemosaic::with_overlap(32, 16);
    let tiles = p.extract_tiles(&bayer, width, height);
    assert_eq!(tiles.len(), 2);
    let parts: Vec<DemosaicedTile> = tiles.iter().map(|t| p.demosaic_tile(t, BayerPattern::RGGB, 0, 4095)).collect();
    let rgb = p.combine_tiles(parts, width, height).unwrap();
    for y in 1..height - 1 {
        for x in 2..width - 1 {
            for c in 0..3usize {
                let here = rgb[(y * width + x) * 3 + c] as i32;
                let before = rgb[(y * width + x - 1) * 3 + c] as i32;
                assert!((here - before).abs() <= 2);
                assert_eq!(here, x as i32 * 30 * 255 / 4095);
            }
        }
    }
}

#[test]
fn seam_between_two_tiles_of_a_flat_field_does_not_show() {
    let bayer = vec![4095u16; 6 * 3];
    let p = ParallelDemosaic::with_overlap(3, 1);
    let left = p.demosaic_tile(&p.extract_tile(&bayer, 6, 3, 0, 0), BayerPattern::RGGB, 0, 4095);
    let right = p.demosaic_tile(&p.extract_tile(&bayer, 6, 3, 1, 0), BayerPattern::RGGB, 0, 4095);
    let rgb = p.combine_tiles(vec![left, right], 6, 3).unwrap();
    let green: Vec<u8> = (0..6).map(|x| rgb[(6 + x) * 3 + 1]).collect();
    assert_eq!(green, vec![0, 255, 255, 255, 255, 0]);
}

#[test]
fn flat_field_is_flat_off_the_outer_ring() {
    for (width, height, tile_size, overlap) in
        [(4usize, 4usize, 2usize, 1usize), (40, 33, 8, 16), (17, 9, 5, 2), (9, 9, 1, 1), (12, 12, 64, 16)]
    {
        let bayer = vec![3000u16; width * height];
        let p = ParallelDemosaic::with_overlap(tile_size, overlap);
        let rgb = p.demosaic(&bayer, width, height, BayerPattern::GRBG, 1000, 3000);
        for y in 0..height {
            for x in 0..width {
                let ring = x == 0 || y == 0 || x == width - 1 || y == height - 1;
                let expected: u8 = if ring { 0 } else { 255 };
                for c in 0..3usize {
                    assert_eq!(rgb[(y * width + x) * 3 + c], expected);
                }
            }
        }
    }
}

#[test]
fn tiles_leave_no_trace_where_they_overlap() {
    let (width, height) = (23usize, 17usize);
    let bayer: Vec<u16> = (0..width * height).map(|i| ((i * 7919) % 4096) as u16).collect();
    let whole = ParallelDemosaic::with_tile_size(64).demosaic_bilinear(&bayer, width, height, 0, 0, BayerPattern::GBRG, 64, 4000);
    for (tile_size, overlap) in [(8usize, 2usize), (4, 1), (3, 5), (1, 1), (64, 16), (5, 16)] {
        let p = ParallelDemosaic::with_overlap(tile_size, overlap);
        assert_eq!(p.demosaic(&bayer, width, height, BayerPattern::GBRG, 64, 4000), whole);
    }
}

#[test]
fn pixel_in_no_tile_is_a_coverage_gap() {
    let p = ParallelDemosaic::with_overlap(2, 0);
    let tiles = vec![uniform_tile(0, 0, 2, 2, 0, [9, 9, 9])];
    assert_eq!(p.combine_tiles(tiles, 3, 2), Err(DemosaicError::CoverageGap));
    assert_eq!(p.combine_tiles(Vec::new(), 1, 1), Err(DemosaicError::CoverageGap));
    assert_eq!(p.combine_tiles(Vec::new(), 0, 0), Ok(Vec::new()));
}

#[test]
fn pixels_of_a_tile_outside_the_image_are_passed_over() {
    let p = ParallelDemosaic::with_overlap(2, 0);
    let tiles = vec![uniform_tile(0, 0, 4, 4, 0, [9, 8, 7])];
    let rgb = p.combine_tiles(tiles, 2, 2).unwrap();
    assert_eq!(rgb, vec![9, 8, 7, 9, 8, 7, 9, 8, 7, 9, 8, 7]);
}

#[test]
fn parallel_pipeline_equals_its_steps_in_turn() {
    let (width, height) = (23usize, 17usize);
    let bayer: Vec<u16> = (0..width * height).map(|i| ((i * 7919) % 4096) as u16).collect();
    for (tile_size, overlap) in [(8usize, 2usize), (5, 0), (64, 16), (4, 16)] {
        let p = ParallelDemosaic::with_overlap(tile_size, overlap);
        let whole = p.demosaic(&bayer, width, height, BayerPattern::GBRG, 64, 4000);
        let parts: Vec<DemosaicedTile> = p
            .extract_tiles(&bayer, width, height)
            .iter()
            .map(|t| p.demosaic_tile(t, BayerPattern::GBRG, 64, 4000))
            .collect();
        let stepwise = p.combine_tiles(parts, width, height).unwrap();
        assert_eq!(whole, stepwise);
        assert!(whole.iter().any(|b| *b != 0));
    }
}

#[test]
fn overlap_of_two_on_the_checkerboard() {
    let bayer = checkerboard(8, 8);
    let p = ParallelDemosaic::with_overlap(4, 2);
    let rgb = p.demosaic(&bayer, 8, 8, BayerPattern::RGGB, 0, 4095);
    for y in 0..8usize {
        for x in 0..8usize {
            let pixel = &rgb[(y * 8 + x) * 3..(y * 8 + x) * 3 + 3];
            if x == 0 || y == 0 || x == 7 || y == 7 {
                assert_eq!(pixel, &[0u8, 0, 0][..]);
            } else {
                assert_eq!(pixel, &[62u8, 124, 186][..]);
            }
        }
    }
}

#[test]
fn tiles_too_small_to_reconstruct_are_counted() {
    let bayer = checkerboard(9, 9);
    let p = ParallelDemosaic::with_overlap(4, 0);
    let tiles = p.extract_tiles(&bayer, 9, 9);
    assert_eq!(tiles.len(), 9);
    assert_eq!(count_degenerate(&tiles), 5);
    let (rgb, degenerate) = p.demosaic_reporting(&bayer, 9, 9, BayerPattern::RGGB, 0, 4095);
    assert_eq!(degenerate, 5);
    assert_eq!(rgb, p.demosaic(&bayer, 9, 9, BayerPattern::RGGB, 0, 4095));
    let p = ParallelDemosaic::with_overlap(4, 2);
    assert_eq!(p.demosaic_reporting(&bayer, 9, 9, BayerPattern::RGGB, 0, 4095).1, 0);
    assert_eq!(count_degenerate(&Vec::new()), 0);
    let p = ParallelDemosaic::with_overlap(1, 0);
    assert_eq!(p.demosaic_reporting(&bayer, 9, 9, BayerPattern::RGGB, 0, 4095).1, 81);
}

#[test]
fn overlap_of_one_reaches_over_the_black_ring() {
    assert!(ParallelDemosaic::with_tile_size(64).overlap_covers_ring());
    assert!(ParallelDemosaic::with_overlap(64, 1).overlap_covers_ring());
    assert!(!ParallelDemosaic::with_overlap(64, 0).overlap_covers_ring());
}

#[test]
fn only_the_outer_ring_of_the_image_gets_no_weight() {
    for (width, height, tile_size, overlap) in [(9usize, 7usize, 4usize, 1usize), (13, 5, 3, 5), (6, 6, 6, 16)] {
        let p = ParallelDemosaic::with_overlap(tile_size, overlap);
        let grid = p.extract_tiles(&vec![0u16; width * height], width, height);
        let tiles: Vec<DemosaicedTile> =
            grid.iter().map(|t| uniform_tile(t.x, t.y, t.width, t.height, t.overlap, [7, 8, 9])).collect();
        let rgb = p.combine_tiles(tiles, width, height).unwrap();
        for y in 0..height {
            for x in 0..width {
                let pixel = &rgb[(y * width + x) * 3..(y * width + x) * 3 + 3];
                if x == 0 || y == 0 || x == width - 1 || y == height - 1 {
                    assert_eq!(pixel, &[0u8, 0, 0][..]);
                } else {
                    assert_eq!(pixel, &[7u8, 8, 9][..]);
                }
            }
        }
    }
}
