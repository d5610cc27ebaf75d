use soma_media::profiles::{
    interpolate_curve, parse_numbers, parse_rggb_levels, parse_tone_curve, PictureStyle,
};

#[test]
fn test_parse_tone_curve() {
    let curve = parse_tone_curve(Some("3 0 128 255 0 128 255"));
    assert!(curve.is_some());
    let c = curve.unwrap();
    assert_eq!(c.input.len(), 3);
    assert_eq!(c.output.len(), 3);
}

#[test]
fn test_interpolate_curve() {
    let input = vec![0, 128, 255];
    let output = vec![0, 64, 255];

    assert_eq!(interpolate_curve(&input, &output, 0), 0);
    assert_eq!(interpolate_curve(&input, &output, 128), 64);
    assert_eq!(interpolate_curve(&input, &output, 255), 255);
}

#[test]
fn tone_curve_of_a_camera() {
    let text = "11 0 64 128 256 512 1024 2048 4096 8192 12288 16383 0 7 14 28 52 90 140 190 230 245 255";
    let c = parse_tone_curve(Some(text)).unwrap();
    assert_eq!(c.input, vec![0, 64, 128, 256, 512, 1024, 2048, 4096, 8192, 12288, 16383]);
    assert_eq!(c.output, vec![0, 7, 14, 28, 52, 90, 140, 190, 230, 245, 255]);
    assert_eq!(interpolate_curve(&c.input, &c.output, 0), 0);
    assert_eq!(interpolate_curve(&c.input, &c.output, 64), 7);
    assert_eq!(interpolate_curve(&c.input, &c.output, 96), 10);
    assert_eq!(interpolate_curve(&c.input, &c.output, 3072), 165);
    assert_eq!(interpolate_curve(&c.input, &c.output, 16383), 255);
    assert_eq!(interpolate_curve(&c.input, &c.output, 20000), 255);
}

#[test]
fn tone_curve_needs_its_count_and_its_points() {
    assert!(parse_tone_curve(None).is_none());
    assert!(parse_tone_curve(Some("")).is_none());
    assert!(parse_tone_curve(Some("1 5")).is_none());
    assert!(parse_tone_curve(Some("2 1 2 3")).is_none());
    let c = parse_tone_curve(Some("1 5 300")).unwrap();
    assert_eq!((c.input, c.output), (vec![5], vec![255]));
    let c = parse_tone_curve(Some("0 1 2")).unwrap();
    assert_eq!((c.input.len(), c.output.len()), (0, 0));
    let c = parse_tone_curve(Some("1 7 8 9 10")).unwrap();
    assert_eq!((c.input, c.output), (vec![7], vec![8]));
}

#[test]
fn numbers_are_the_words_that_write_one() {
    assert_eq!(parse_numbers("  12  +7 x 99999 -3 65535\t1\u{3000}2"), vec![12, 7, 65535, 1, 2]);
    assert_eq!(parse_numbers(""), Vec::<u16>::new());
    assert_eq!(parse_numbers(" \n\t "), Vec::<u16>::new());
    assert_eq!(parse_numbers("007"), vec![7]);
    assert_eq!(parse_numbers("+ ++1 1+ 1.5 0x10 65536 000065535"), vec![65535]);
    assert_eq!(parse_numbers("1\u{a0}2\u{85}3\u{2028}4"), vec![1, 2, 3, 4]);
    assert_eq!(parse_numbers("\u{661}\u{662} 5"), vec![5]);
}

#[test]
fn levels_are_the_first_four_numbers() {
    assert_eq!(parse_rggb_levels(Some("7376 4096 4096 5952")), Some([7376, 4096, 4096, 5952]));
    assert_eq!(parse_rggb_levels(Some("1 2 3 4 5")), Some([1, 2, 3, 4]));
    assert_eq!(parse_rggb_levels(Some("1 2 3")), None);
    assert_eq!(parse_rggb_levels(Some("1 2 x 3")), None);
    assert_eq!(parse_rggb_levels(None), None);
}

#[test]
fn curve_without_points_scales_fourteen_bits_to_a_byte() {
    assert_eq!(interpolate_curve(&[], &[], 0), 0);
    assert_eq!(interpolate_curve(&[], &[], 8192), 127);
    assert_eq!(interpolate_curve(&[], &[], 16383), 255);
    assert_eq!(interpolate_curve(&[], &[], 65535), 255);
    assert_eq!(interpolate_curve(&[1, 2], &[], 16383), 255);
    assert_eq!(interpolate_curve(&[], &[9], 64), 0);
}

#[test]
fn curve_between_and_beyond_its_points() {
    assert_eq!(interpolate_curve(&[0, 128, 255], &[0, 64, 255], 300), 255);
    assert_eq!(interpolate_curve(&[0, 128, 255], &[0, 64, 200], 256), 200);
    assert_eq!(interpolate_curve(&[100, 200], &[50, 150], 150), 100);
    assert_eq!(interpolate_curve(&[100, 200], &[50, 150], 0), 0);
    assert_eq!(interpolate_curve(&[100, 200], &[50, 150], 60), 10);
    assert_eq!(interpolate_curve(&[0, 100], &[200, 100], 50), 150);
    assert_eq!(interpolate_curve(&[0, 3], &[0, 10], 1), 3);
    assert_eq!(interpolate_curve(&[0, 3], &[0, 10], 2), 6);
    assert_eq!(interpolate_curve(&[10, 10], &[7, 9], 5), 7);
    assert_eq!(interpolate_curve(&[0, 100, 200], &[0, 50], 150), 152);
    assert_eq!(interpolate_curve(&[5], &[9], 1), 9);
    assert_eq!(interpolate_curve(&[200, 100], &[10, 250], 50), 255);
}

#[test]
fn picture_style_starts_neutral() {
    let style = PictureStyle::default();
    assert!(style.name.is_none());
    assert_eq!((style.saturation, style.sharpness, style.contrast, style.color_tone), (0, 0, 0, 0));
}
