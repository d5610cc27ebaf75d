use soma_media::audio::spectrogram_frames;
use soma_media::image::ImageOutputFormat;
use soma_media::metadata::{
    fallback_backend, fallback_backend_for_path, is_audio, is_image, is_raw, is_raw_file_type, is_video,
    MetadataBackend,
};
use soma_media::organ::is_health_check;
use soma_media::raw::{Orientation, RawProcessor};
use soma_media::text::{has_part, has_prefix, same_text};

#[test]
fn test_media_type_detection() {
    let video_mime = "video/mp4";
    assert!(is_video(video_mime, false, false));
    assert!(!is_audio(video_mime, false, false, false));
    assert!(!is_image(video_mime));

    let image_mime = "image/jpeg";
    assert!(is_image(image_mime));
    assert!(!is_video(image_mime, false, false));

    assert!(is_raw("image/x-adobe-dng", "DNG"));
    assert!(is_image("image/x-adobe-dng"));
}

#[test]
fn media_kinds_told_by_what_is_known_of_the_file() {
    assert!(is_video("", true, true));
    assert!(!is_video("", true, false));
    assert!(!is_video("", false, true));
    assert!(is_audio("audio/mpeg", false, false, false));
    assert!(is_audio("", true, true, false));
    assert!(!is_audio("", true, true, true));
    assert!(!is_audio("video/mp4", true, true, false));
    assert!(is_audio("audio/x", true, true, true));
    assert!(!is_image("Image/png"));
    assert!(!is_image("image"));
    assert!(is_image("image/"));
}

#[test]
fn raw_files_told_by_type_or_media_type() {
    assert!(is_raw("application/octet-stream", "cr2"));
    assert!(is_raw("application/octet-stream", "NeF"));
    assert!(is_raw("image/vnd-x-raw", "bin"));
    assert!(!is_raw("image/x-adobe-dng", "bin"));
    assert!(!is_raw("image/jpeg", "jpg"));
    assert!(!is_raw("", ""));
    for name in ["cr2", "cr3", "nef", "arw", "dng", "raf", "orf", "rw2", "pef", "srw"] {
        assert!(is_raw_file_type(name));
        assert_eq!(fallback_backend(name), MetadataBackend::LibRaw);
    }
    assert!(!is_raw_file_type("CR2"));
    assert!(!is_raw_file_type("tiff"));
}

#[test]
fn backend_is_chosen_by_the_extension() {
    for name in ["jpg", "jpeg", "tiff", "tif", "heic", "heif"] {
        assert_eq!(fallback_backend(name), MetadataBackend::KamadakExif);
    }
    for name in ["mp4", "mov", "avi", "mkv", "webm", "mp3", "flac", "wav", "aac", "ogg", "m4a"] {
        assert_eq!(fallback_backend(name), MetadataBackend::FFprobe);
    }
    for name in ["png", "", "JPG", "pdf"] {
        assert_eq!(fallback_backend(name), MetadataBackend::FileMagic);
    }
    assert_eq!(fallback_backend_for_path("/photos/IMG_0001.CR2"), MetadataBackend::LibRaw);
    assert_eq!(fallback_backend_for_path("clip.MoV"), MetadataBackend::FFprobe);
    assert_eq!(fallback_backend_for_path("scan.Tif"), MetadataBackend::KamadakExif);
    assert_eq!(fallback_backend_for_path("notes"), MetadataBackend::FileMagic);
}

#[test]
fn raw_media_types() {
    let raw = [
        "image/x-canon-cr2",
        "image/x-canon-cr3",
        "image/x-canon-crw",
        "image/x-nikon-nef",
        "image/x-sony-arw",
        "image/x-sony-srf",
        "image/x-sony-sr2",
        "image/x-pentax-pef",
        "image/x-samsung-srw",
        "image/x-olympus-orf",
        "image/x-panasonic-raw",
        "image/x-fuji-raf",
        "image/x-sigma-x3f",
        "image/x-adobe-dng",
        "image/x-dcraw",
        "image/tiff",
    ];
    for mime in raw {
        assert!(RawProcessor::is_raw_mime(mime));
    }
    for mime in ["image/jpeg", "", "image/x-panasonic-rw2", "IMAGE/TIFF", "image/tiff "] {
        assert!(!RawProcessor::is_raw_mime(mime));
    }
}

#[test]
fn flip_values_turn_the_preview() {
    assert_eq!(RawProcessor::orientation(0), Orientation::Upright);
    assert_eq!(RawProcessor::orientation(1), Orientation::Upright);
    assert_eq!(RawProcessor::orientation(3), Orientation::Rotate180);
    assert_eq!(RawProcessor::orientation(5), Orientation::Rotate90Mirrored);
    assert_eq!(RawProcessor::orientation(6), Orientation::Rotate90);
    assert_eq!(RawProcessor::orientation(8), Orientation::Rotate270);
    assert_eq!(RawProcessor::orientation(7), Orientation::Upright);
    assert_eq!(RawProcessor::orientation(-1), Orientation::Upright);
    assert_eq!(RawProcessor::orientation(i32::MAX), Orientation::Upright);
}

#[test]
fn image_formats_are_known_by_name() {
    assert_eq!(ImageOutputFormat::from_name("jpg"), ImageOutputFormat::Jpeg);
    assert_eq!(ImageOutputFormat::from_name("JPEG"), ImageOutputFormat::Jpeg);
    assert_eq!(ImageOutputFormat::from_name("PNG"), ImageOutputFormat::Png);
    assert_eq!(ImageOutputFormat::from_name("WebP"), ImageOutputFormat::Webp);
    assert_eq!(ImageOutputFormat::from_name("avif"), ImageOutputFormat::Avif);
    assert_eq!(ImageOutputFormat::from_name("bmp"), ImageOutputFormat::Jpeg);
    assert_eq!(ImageOutputFormat::from_name(""), ImageOutputFormat::Jpeg);
    assert_eq!(ImageOutputFormat::from_lower_name("PNG"), ImageOutputFormat::Jpeg);
    assert_eq!(ImageOutputFormat::from_lower_name("png"), ImageOutputFormat::Png);
}

#[test]
fn whole_windows_make_the_frames_of_a_spectrogram() {
    assert_eq!(spectrogram_frames(0, 2048), 0);
    assert_eq!(spectrogram_frames(0, 0), 0);
    assert_eq!(spectrogram_frames(2047, 2048), 0);
    assert_eq!(spectrogram_frames(2048, 2048), 1);
    assert_eq!(spectrogram_frames(48000, 2048), 23);
}

#[test]
fn health_checks_are_known_by_their_names() {
    assert!(is_health_check("health"));
    assert!(is_health_check("health.check"));
    assert!(!is_health_check("healthy"));
    assert!(!is_health_check(""));
    assert!(!is_health_check("media.capabilities"));
}

#[test]
fn texts_are_compared_and_searched() {
    assert!(same_text("", ""));
    assert!(same_text("a\u{e9}", "a\u{e9}"));
    assert!(!same_text("a", "A"));
    assert!(!same_text("a", "ab"));
    assert!(has_prefix("video/mp4", "video/"));
    assert!(has_prefix("video/", "video/"));
    assert!(!has_prefix("video", "video/"));
    assert!(has_prefix("anything", ""));
    assert!(has_prefix("", ""));
    assert!(has_part("image/vnd-x-raw", "-x-"));
    assert!(has_part("-x-", "-x-"));
    assert!(has_part("a-x-", "-x-"));
    assert!(!has_part("-x", "-x-"));
    assert!(!has_part("-xx-", "-x-"));
    assert!(has_part("abc", ""));
    assert!(has_part("", ""));
    assert!(!has_part("", "a"));
}
