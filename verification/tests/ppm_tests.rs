use soma_media::error::MediaError;
use soma_media::ppm::{parse_ppm_header, PpmError, PpmHeader};

fn image(header: &str, pixels: usize) -> Vec<u8> {
    let mut data = header.as_bytes().to_vec();
    data.extend(std::iter::repeat(200u8).take(pixels));
    data
}

#[test]
fn header_of_a_decoded_image() {
    let data = image("P6\n640 480\n255\n", 640 * 480 * 3);
    assert_eq!(parse_ppm_header(&data), Ok(PpmHeader { width: 640, height: 480, data_start: 15 }));
    assert_eq!(data.len() - 15, 640 * 480 * 3);
}

#[test]
fn header_with_other_spacing() {
    let data = image("P6\r\n  12\t+7 \r\n65535\n", 10);
    assert_eq!(parse_ppm_header(&data), Ok(PpmHeader { width: 12, height: 7, data_start: 20 }));
    let data = image("P6\n4294967295 0\n\nrest", 0);
    assert_eq!(parse_ppm_header(&data), Ok(PpmHeader { width: u32::MAX, height: 0, data_start: 17 }));
}

#[test]
fn pixels_begin_at_the_start_without_a_third_line_feed() {
    let data = image("P6\n1 2\n255", 0);
    assert_eq!(parse_ppm_header(&data), Ok(PpmHeader { width: 1, height: 2, data_start: 0 }));
}

#[test]
fn third_line_feed_may_lie_beyond_the_first_hundred_bytes() {
    let mut data = image("P6\n3 4\n", 0);
    data.extend(std::iter::repeat(b'#').take(200));
    data.push(b'\n');
    data.extend_from_slice(&[1, 2, 3]);
    assert_eq!(parse_ppm_header(&data), Ok(PpmHeader { width: 3, height: 4, data_start: 208 }));
}

#[test]
fn images_that_do_not_begin_as_ppm() {
    assert_eq!(parse_ppm_header(&[]), Err(PpmError::Format));
    assert_eq!(parse_ppm_header(b"P6"), Err(PpmError::Format));
    assert_eq!(parse_ppm_header(b"P6\n1 2"), Err(PpmError::Format));
    assert_eq!(parse_ppm_header(b"P6\n1 2\n"), Err(PpmError::Format));
    assert_eq!(parse_ppm_header(b"P5\n1 2\n255\n"), Err(PpmError::Format));
    assert_eq!(parse_ppm_header(b"P6 \n1 2\n255\n"), Err(PpmError::Format));
    assert_eq!(parse_ppm_header(b"\nP6\n1 2\n255\n"), Err(PpmError::Format));
    let mut late = vec![b'P', b'6', b'\n'];
    late.extend(std::iter::repeat(b' ').take(96));
    late.extend_from_slice(b"1 2\n255\n");
    assert_eq!(parse_ppm_header(&late), Err(PpmError::Format));
}

#[test]
fn second_line_must_have_two_words() {
    assert_eq!(parse_ppm_header(b"P6\n640\n255\n"), Err(PpmError::Dimensions));
    assert_eq!(parse_ppm_header(b"P6\n\n255\n"), Err(PpmError::Dimensions));
    assert_eq!(parse_ppm_header(b"P6\n1 2 3\n255\n"), Err(PpmError::Dimensions));
    assert_eq!(parse_ppm_header(b"P6\n   \n255\n"), Err(PpmError::Dimensions));
}

#[test]
fn words_must_write_numbers() {
    assert_eq!(parse_ppm_header(b"P6\nx 2\n255\n"), Err(PpmError::Width));
    assert_eq!(parse_ppm_header(b"P6\n-1 2\n255\n"), Err(PpmError::Width));
    assert_eq!(parse_ppm_header(b"P6\n4294967296 2\n255\n"), Err(PpmError::Width));
    assert_eq!(parse_ppm_header(b"P6\n+ 2\n255\n"), Err(PpmError::Width));
    assert_eq!(parse_ppm_header(b"P6\n1 2x\n255\n"), Err(PpmError::Height));
    assert_eq!(parse_ppm_header(b"P6\n1 99999999999999999999999\n255\n"), Err(PpmError::Height));
    assert_eq!(parse_ppm_header(b"P6\nx y\n255\n"), Err(PpmError::Width));
}

#[test]
fn errors_become_errors_of_processing() {
    let cases = [
        (PpmError::Format, "Invalid PPM format"),
        (PpmError::Dimensions, "Invalid PPM dimensions"),
        (PpmError::Width, "Invalid width"),
        (PpmError::Height, "Invalid height"),
    ];
    for (error, text) in cases {
        assert_eq!(error.into_media_error(), MediaError::ProcessingError(text.to_string()));
    }
}
