use soma_media::metadata::{
    detect_mime_from_extension, file_extension, gcd, mime_for_extension, ColorInfo, Dimensions,
    MetadataBackend, SensorInfo, ShootingInfo,
};

#[test]
fn test_mime_detection() {
    assert_eq!(detect_mime_from_extension("test.jpg"), "image/jpeg");
    assert_eq!(detect_mime_from_extension("test.MP4"), "video/mp4");
    assert_eq!(detect_mime_from_extension("test.dng"), "image/x-adobe-dng");
    assert_eq!(detect_mime_from_extension("test.cr2"), "image/x-canon-cr2");
    assert_eq!(detect_mime_from_extension("test.mp3"), "audio/mpeg");
}

#[test]
fn test_aspect_ratio() {
    let d = Dimensions { width: 1920, height: 1080, bit_depth: None };
    assert_eq!(d.aspect_ratio(), "16:9".to_string());
    let d = Dimensions { width: 6000, height: 4000, bit_depth: None };
    assert_eq!(d.aspect_ratio(), "3:2".to_string());
}

#[test]
fn aspect_ratio_of_unusual_sizes() {
    let d = Dimensions { width: 0, height: 7, bit_depth: Some(8) };
    assert_eq!(d.aspect_ratio(), "0:1");
    let d = Dimensions { width: 7, height: 0, bit_depth: None };
    assert_eq!(d.aspect_ratio(), "1:0");
    let d = Dimensions { width: u32::MAX, height: u32::MAX, bit_depth: None };
    assert_eq!(d.aspect_ratio(), "1:1");
    assert_eq!(d.pixel_count(), 18446744065119617025);
    let d = Dimensions { width: 1001, height: 13, bit_depth: None };
    assert_eq!(d.aspect_ratio(), "77:1");
}

#[test]
fn greatest_common_divisor() {
    assert_eq!(gcd(1920, 1080), 120);
    assert_eq!(gcd(6000, 4000), 2000);
    assert_eq!(gcd(0, 5), 5);
    assert_eq!(gcd(5, 0), 5);
    assert_eq!(gcd(0, 0), 0);
    assert_eq!(gcd(17, 13), 1);
    assert_eq!(gcd(u32::MAX, 3), 3);
}

#[test]
fn every_known_extension_has_its_type() {
    let table = [
        ("jpg", "image/jpeg"),
        ("jpeg", "image/jpeg"),
        ("png", "image/png"),
        ("gif", "image/gif"),
        ("webp", "image/webp"),
        ("tiff", "image/tiff"),
        ("tif", "image/tiff"),
        ("bmp", "image/bmp"),
        ("heic", "image/heic"),
        ("heif", "image/heic"),
        ("avif", "image/avif"),
        ("svg", "image/svg+xml"),
        ("ico", "image/x-icon"),
        ("cr2", "image/x-canon-cr2"),
        ("cr3", "image/x-canon-cr3"),
        ("nef", "image/x-nikon-nef"),
        ("arw", "image/x-sony-arw"),
        ("dng", "image/x-adobe-dng"),
        ("raf", "image/x-fuji-raf"),
        ("orf", "image/x-olympus-orf"),
        ("rw2", "image/x-panasonic-rw2"),
        ("pef", "image/x-pentax-pef"),
        ("srw", "image/x-samsung-srw"),
        ("mp4", "video/mp4"),
        ("m4v", "video/mp4"),
        ("mov", "video/quicktime"),
        ("avi", "video/x-msvideo"),
        ("mkv", "video/x-matroska"),
        ("webm", "video/webm"),
        ("wmv", "video/x-ms-wmv"),
        ("flv", "video/x-flv"),
        ("mp3", "audio/mpeg"),
        ("wav", "audio/wav"),
        ("flac", "audio/flac"),
        ("aac", "audio/aac"),
        ("ogg", "audio/ogg"),
        ("m4a", "audio/mp4"),
        ("wma", "audio/x-ms-wma"),
        ("pdf", "application/pdf"),
        ("json", "application/json"),
        ("xml", "application/xml"),
    ];
    for (ext, mime) in table {
        assert_eq!(mime_for_extension(ext), mime);
        assert_eq!(detect_mime_from_extension(&format!("/data/file.{}", ext.to_uppercase())), mime);
    }
    assert_eq!(mime_for_extension("JPG"), "application/octet-stream");
    assert_eq!(mime_for_extension(""), "application/octet-stream");
    assert_eq!(mime_for_extension("jpgx"), "application/octet-stream");
}

#[test]
fn extension_is_what_follows_the_last_dot_of_the_name() {
    assert_eq!(file_extension("archive.tar.gz"), Some("gz".to_string()));
    assert_eq!(file_extension("a/b.c/d.JPEG"), Some("JPEG".to_string()));
    assert_eq!(file_extension(".bashrc"), None);
    assert_eq!(file_extension("dir/.hidden"), None);
    assert_eq!(file_extension("dir.d/file"), None);
    assert_eq!(file_extension("noext"), None);
    assert_eq!(file_extension(""), None);
    assert_eq!(file_extension("x."), Some(String::new()));
    assert_eq!(file_extension(".a.b"), Some("b".to_string()));
    assert_eq!(file_extension("folder/"), None);
    assert_eq!(file_extension("p/q.r\u{e9}s"), Some("r\u{e9}s".to_string()));
}

#[test]
fn files_without_known_extension_are_binary() {
    assert_eq!(detect_mime_from_extension("README"), "application/octet-stream");
    assert_eq!(detect_mime_from_extension(".jpg"), "application/octet-stream");
    assert_eq!(detect_mime_from_extension("photo.xyz"), "application/octet-stream");
    assert_eq!(detect_mime_from_extension("dir.jpg/photo"), "application/octet-stream");
    assert_eq!(detect_mime_from_extension("photo.JpEg"), "image/jpeg");
}

#[test]
fn descriptions_start_empty() {
    let d = Dimensions::default();
    assert_eq!((d.width, d.height, d.bit_depth), (0, 0, None));
    let c = ColorInfo::default();
    assert!(c.color_space.is_none() && c.color_profile.is_none());
    assert!(c.white_balance.is_none() && c.color_temperature.is_none());
    assert_eq!(MetadataBackend::default(), MetadataBackend::FileMagic);
    let s = SensorInfo::default();
    assert_eq!((s.raw_width, s.raw_height, s.width, s.height), (0, 0, 0, 0));
    assert!(s.bayer_pattern.is_none() && s.black_level.is_none() && s.white_level.is_none());
    let i = ShootingInfo::default();
    assert!(i.exposure_mode.is_none() && i.shot_order.is_none());
}

#[test]
fn extension_is_that_of_the_file_name_as_paths_have_it() {
    let paths = [
        "", "/", ".", "..", "a/..", "a/.", "./", "a/./", "photo.jpg/", "photo.jpg//", "photo.jpg/.",
        "photo.jpg/./", "a.b/c", ".a", "..a", "a..", "...", "a/b/.c.d", "/.", "//", "a/.b/", "x./",
        "a.tar.gz", "dir.d/", ".hidden/", "..x/", "/..", "a/./.", "./.", "./a.b", "a/../b.c", "a.b/..",
        "noext", "x.", "x.y.", "caf\u{e9}.\u{e9}t\u{e9}", "a b.c d", "a//b.c", ".a.b",
    ];
    for path in paths {
        let expected =
            std::path::Path::new(path).extension().and_then(|e| e.to_str()).map(|e| e.to_string());
        assert_eq!(file_extension(path), expected);
    }
    assert_eq!(file_extension("photo.jpg/"), Some("jpg".to_string()));
    assert_eq!(detect_mime_from_extension("photo.JPG/"), "image/jpeg");
}
