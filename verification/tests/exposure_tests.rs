use soma_media::exposure::{
    analyse_exposure, estimate_exposure, exposure_tenths, highlight_preservation, median_bin, sample_histogram,
    ExposureEstimate, HighlightPreservation,
};
use soma_media::raw::{ColorSpace, PreviewOptions, RawProcessor};

fn uniform(bin: u16, width: usize, height: usize) -> Vec<u16> {
    vec![bin * 64; width * height]
}

#[test]
fn tenths_of_a_stop_for_chosen_medians() {
    let cases: [(u8, i32); 12] = [
        (0, 30),
        (1, 30),
        (14, 30),
        (15, 29),
        (59, 10),
        (95, 3),
        (96, 0),
        (118, 0),
        (145, 0),
        (146, -3),
        (236, -10),
        (255, -11),
    ];
    for (median, tenths) in cases {
        assert_eq!(exposure_tenths(median), tenths);
    }
}

#[test]
fn median_near_the_target_needs_no_change() {
    for median in 96..=145u8 {
        assert_eq!(exposure_tenths(median), 0);
    }
    assert!(exposure_tenths(95) != 0);
    assert!(exposure_tenths(146) != 0);
}

#[test]
fn darker_images_are_brightened_more() {
    let mut last = exposure_tenths(0);
    for median in 1..=255u8 {
        let now = exposure_tenths(median);
        assert!(now <= last);
        assert!((-20..=30).contains(&now));
        assert!(now == 0 || now.abs() >= 3);
        if median < 96 {
            assert!(now > 0);
        }
        if median > 145 {
            assert!(now < 0);
        }
        last = now;
    }
}

#[test]
fn histogram_counts_every_tenth_sample() {
    let raw: Vec<u16> = (0..100 * 100).map(|i| ((i % 256) * 64) as u16).collect();
    let hist = sample_histogram(&raw, 100, 100, 10);
    assert_eq!(hist.len(), 256);
    assert_eq!(hist.iter().sum::<u64>(), 100);
    assert_eq!(&hist[..12], &[1u64, 0, 1, 0, 0, 0, 1, 0, 1, 0, 1, 0][..]);
    assert_eq!(median_bin(&hist, 50), 134);
    assert_eq!(estimate_exposure(&raw, 100, 100, 10), 0);
}

#[test]
fn histogram_reads_the_first_sample_of_every_stride() {
    let mut raw = vec![0u16; 5 * 4];
    raw[0] = 64;
    raw[3] = 2 * 64;
    raw[15] = 3 * 64 + 63;
    raw[18] = 65535;
    raw[1] = 9 * 64;
    let hist = sample_histogram(&raw, 5, 4, 3);
    let mut expected = vec![0u64; 256];
    expected[1] = 1;
    expected[2] = 1;
    expected[3] = 1;
    expected[255] = 1;
    assert_eq!(hist, expected);
}

#[test]
fn median_is_the_first_bin_that_reaches_the_threshold() {
    let mut hist = vec![0u64; 256];
    hist[3] = 2;
    hist[7] = 5;
    hist[200] = 1;
    assert_eq!(median_bin(&hist, 0), 0);
    assert_eq!(median_bin(&hist, 1), 3);
    assert_eq!(median_bin(&hist, 2), 3);
    assert_eq!(median_bin(&hist, 3), 7);
    assert_eq!(median_bin(&hist, 7), 7);
    assert_eq!(median_bin(&hist, 8), 200);
    assert_eq!(median_bin(&hist, 9), 128);
    let full = vec![u64::MAX; 256];
    assert_eq!(median_bin(&full, u64::MAX), 0);
}

#[test]
fn auto_exposure_of_uniform_images() {
    let raw_processor = RawProcessor::new().unwrap();
    let cases: [(u16, i32); 6] = [(10, 30), (50, 12), (100, 0), (118, 0), (146, -3), (200, -7)];
    for (bin, tenths) in cases {
        let raw = uniform(bin, 20, 20);
        let estimate = raw_processor.calculate_auto_exposure(&raw, 20, 20);
        assert_eq!(estimate, ExposureEstimate { median: Some(bin as u8), tenths });
        assert_eq!(estimate_exposure(&raw, 20, 20, 10), tenths);
    }
}

#[test]
fn buffer_shorter_than_the_image_is_left_alone() {
    let raw_processor = RawProcessor::new().unwrap();
    let raw = uniform(10, 20, 19);
    let none = ExposureEstimate { median: None, tenths: 0 };
    assert_eq!(raw_processor.calculate_auto_exposure(&raw, 20, 20), none);
    assert_eq!(raw_processor.calculate_auto_exposure(&[], 20, 20), none);
    assert_eq!(analyse_exposure(&raw, usize::MAX, 2, 10), none);
    assert_eq!(estimate_exposure(&raw, usize::MAX, 2, 10), 0);
    assert_eq!(none.highlight_preservation(), HighlightPreservation::Off);
}

#[test]
fn image_smaller_than_a_stride_counts_as_dark() {
    let raw = vec![65535u16; 25];
    assert_eq!(estimate_exposure(&raw, 5, 5, 10), 30);
    assert_eq!(estimate_exposure(&raw, 5, 5, 1), -11);
}

#[test]
fn preview_keeps_its_proportions() {
    let raw_processor = RawProcessor::new().unwrap();
    assert_eq!(raw_processor.preview_dimensions(6000, 4000, Some(2048)), (2048, 1365));
    assert_eq!(raw_processor.preview_dimensions(4000, 6000, Some(2048)), (1365, 2048));
    assert_eq!(raw_processor.preview_dimensions(3000, 3000, Some(2048)), (2048, 2048));
    assert_eq!(raw_processor.preview_dimensions(1000, 800, Some(2048)), (1000, 800));
    assert_eq!(raw_processor.preview_dimensions(6000, 4000, None), (6000, 4000));
    assert_eq!(raw_processor.preview_dimensions(u32::MAX, u32::MAX - 1, Some(u32::MAX - 1)), (u32::MAX - 1, u32::MAX - 2));
    assert!(raw_processor.needs_resize(6000, 4000, Some(2048)));
    assert!(!raw_processor.needs_resize(2048, 2048, Some(2048)));
    assert!(!raw_processor.needs_resize(6000, 4000, None));
    assert_eq!(raw_processor.output_dimensions(6001, 4000, true), (3000, 2000));
    assert_eq!(raw_processor.output_dimensions(6001, 4000, false), (6001, 4000));
}

#[test]
fn preview_options_and_colour_spaces() {
    let options = PreviewOptions::default();
    assert_eq!(options.quality, 92);
    assert_eq!(options.max_dimension, Some(2048));
    assert!(!options.force_raw_processing);
    let spaces = [
        ColorSpace::Raw,
        ColorSpace::SRGB,
        ColorSpace::AdobeRGB,
        ColorSpace::WideGamutRGB,
        ColorSpace::ProPhotoRGB,
        ColorSpace::XYZ,
    ];
    for (i, space) in spaces.iter().enumerate() {
        assert_eq!(space.index() as usize, i);
    }
}

#[test]
fn estimate_holds_the_median_that_the_logarithm_is_taken_from() {
    let raw = uniform(32, 20, 20);
    let estimate = analyse_exposure(&raw, 20, 20, 10);
    assert_eq!(estimate, ExposureEstimate { median: Some(32), tenths: 18 });
    let stops = (118.0f64 / 32.0).log2();
    assert!((stops - 1.8826).abs() < 0.0001);
    assert_eq!((stops * 10.0) as i32, estimate.tenths);
    let raw: Vec<u16> = (0..100 * 100).map(|i| ((i % 256) * 64) as u16).collect();
    assert_eq!(analyse_exposure(&raw, 100, 100, 10), ExposureEstimate { median: Some(134), tenths: 0 });
}

#[test]
fn whole_tenths_are_those_of_the_logarithm() {
    for median in 1..=255u8 {
        let stops = (118.0f64 / median as f64).log2().clamp(-2.0, 3.0);
        let expected = if stops.abs() > 0.3 { (stops * 10.0) as i32 } else { 0 };
        assert_eq!(exposure_tenths(median), expected);
    }
}

#[test]
fn highlights_are_kept_by_the_factor_of_the_change() {
    for median in 0..=255u8 {
        let stops = if median == 0 { 3.0 } else { (118.0f64 / median as f64).log2().clamp(-2.0, 3.0) };
        let factor = if stops.abs() > 0.3 { 2.0f64.powf(stops) } else { 1.0 };
        let expected = if factor >= 4.0 {
            HighlightPreservation::Strong
        } else if factor >= 2.0 {
            HighlightPreservation::Medium
        } else if factor >= 1.5 {
            HighlightPreservation::Light
        } else {
            HighlightPreservation::Off
        };
        assert_eq!(highlight_preservation(median), expected);
    }
    assert_eq!(highlight_preservation(0), HighlightPreservation::Strong);
    assert_eq!(highlight_preservation(29), HighlightPreservation::Strong);
    assert_eq!(highlight_preservation(30), HighlightPreservation::Medium);
    assert_eq!(highlight_preservation(59), HighlightPreservation::Medium);
    assert_eq!(highlight_preservation(60), HighlightPreservation::Light);
    assert_eq!(highlight_preservation(78), HighlightPreservation::Light);
    assert_eq!(highlight_preservation(79), HighlightPreservation::Off);
    assert_eq!(highlight_preservation(95), HighlightPreservation::Off);
    assert_eq!(highlight_preservation(118), HighlightPreservation::Off);
    assert_eq!(highlight_preservation(255), HighlightPreservation::Off);
    let estimate = ExposureEstimate { median: Some(78), tenths: 5 };
    assert_eq!(estimate.highlight_preservation(), HighlightPreservation::Light);
}
