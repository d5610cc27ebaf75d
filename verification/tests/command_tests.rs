use soma_media::audio::{AudioConfig, AudioFormat, AudioPreprocessor};
use soma_media::error::MediaError;
use soma_media::ffmpeg::{FfmpegCommand, FfmpegError};
use soma_media::image::{scale_filter_text, ImageConfig, ImageOutputFormat, ImagePreprocessor};
use soma_media::text::decimal_string;
use soma_media::video::{join_path, VideoConfig, VideoPreprocessor};

fn args(cmd: &FfmpegCommand) -> Vec<&str> {
    cmd.arguments().iter().map(|s| s.as_str()).collect()
}

#[test]
fn command_collects_its_arguments_in_order() {
    let cmd = FfmpegCommand::new();
    assert!(cmd.arguments().is_empty());
    let cmd = cmd.input("in file.mp4").args(&["-vn", "-ar", "8000"]).arg("-y").output("out.wav");
    assert_eq!(args(&cmd), vec!["-i", "in file.mp4", "-vn", "-ar", "8000", "-y", "out.wav"]);
    let cmd = cmd.args(&[]);
    assert_eq!(cmd.arguments().len(), 7);
    assert!(FfmpegCommand::default().arguments().is_empty());
}

#[test]
fn audio_is_resampled_to_the_settings() {
    let p = AudioPreprocessor::new(AudioConfig::default());
    let cmd = p.preprocess("in.mp3", "out.wav");
    assert_eq!(args(&cmd), vec!["-i", "in.mp3", "-ar", "48000", "-ac", "1", "-f", "wav", "out.wav"]);
    let p = AudioPreprocessor::new(AudioConfig { sample_rate: 16000, channels: 2, format: AudioFormat::Flac });
    let cmd = p.extract_from_video("v.mp4", "a.flac");
    assert_eq!(
        args(&cmd),
        vec!["-i", "v.mp4", "-vn", "-ar", "16000", "-ac", "2", "-f", "flac", "a.flac"]
    );
    assert_eq!(p.config().sample_rate, 16000);
}

#[test]
fn audio_formats_have_their_names() {
    assert_eq!(AudioFormat::Wav.as_str(), "wav");
    assert_eq!(AudioFormat::Mp3.as_str(), "mp3");
    assert_eq!(AudioFormat::Flac.as_str(), "flac");
    let config = AudioConfig::default();
    assert_eq!((config.sample_rate, config.channels, config.format), (48000, 1, AudioFormat::Wav));
}

#[test]
fn image_formats_have_their_names() {
    let formats = [
        (ImageOutputFormat::Jpeg, "jpg"),
        (ImageOutputFormat::Png, "png"),
        (ImageOutputFormat::Webp, "webp"),
        (ImageOutputFormat::Avif, "avif"),
    ];
    for (format, name) in formats {
        assert_eq!(format.as_str(), name);
        assert_eq!(format.extension(), name);
    }
    let config = ImageConfig::default();
    assert_eq!((config.width, config.height, config.quality), (336, 336, 90));
    assert_eq!(config.format, ImageOutputFormat::Jpeg);
}

#[test]
fn image_is_scaled_and_encoded_with_its_quality() {
    let p = ImagePreprocessor::new(ImageConfig::default());
    assert!(p.has_raw());
    assert_eq!(
        args(&p.preprocess("in.png", "out.jpg")),
        vec!["-i", "in.png", "-vf", "scale=336:336", "-q:v", "3", "out.jpg"]
    );
    let config = |format, quality| ImageConfig { width: 1920, height: 1080, format, quality };
    let p = ImagePreprocessor::new(config(ImageOutputFormat::Webp, 80));
    assert_eq!(
        args(&p.preprocess("a", "b")),
        vec!["-i", "a", "-vf", "scale=1920:1080", "-quality", "80", "b"]
    );
    let p = ImagePreprocessor::new(config(ImageOutputFormat::Avif, 51));
    assert_eq!(args(&p.preprocess("a", "b")), vec!["-i", "a", "-vf", "scale=1920:1080", "-crf", "24", "b"]);
    let p = ImagePreprocessor::new(config(ImageOutputFormat::Png, 100));
    assert_eq!(args(&p.preprocess("a", "b")), vec!["-i", "a", "-vf", "scale=1920:1080", "b"]);
    let p = ImagePreprocessor::new(config(ImageOutputFormat::Jpeg, 100));
    assert_eq!(args(&p.preprocess("a", "b"))[4..6], ["-q:v", "0"]);
    let p = ImagePreprocessor::new(config(ImageOutputFormat::Jpeg, 0));
    assert_eq!(args(&p.preprocess("a", "b"))[4..6], ["-q:v", "33"]);
    assert_eq!(
        args(&p.plain_convert_command("in.tif", "out.rgb")),
        vec!["-i", "in.tif", "-vf", "scale=1920:1080", "-pix_fmt", "rgb24", "out.rgb"]
    );
    assert_eq!(p.config().width, 1920);
}

#[test]
fn numbers_are_written_in_decimal() {
    assert_eq!(decimal_string(0), "0");
    assert_eq!(decimal_string(7), "7");
    assert_eq!(decimal_string(10), "10");
    assert_eq!(decimal_string(65535), "65535");
    assert_eq!(decimal_string(u64::MAX), "18446744073709551615");
    assert_eq!(scale_filter_text(0, 4294967295), "scale=0:4294967295");
}

#[test]
fn frames_are_written_at_the_rate_and_size_of_the_settings() {
    let p = VideoPreprocessor::new(VideoConfig::default());
    assert_eq!(
        args(&p.extract_frames("v.mp4", "/tmp/out")),
        vec![
            "-i",
            "v.mp4",
            "-vf",
            "fps=1,scale=336:336",
            "-f",
            "image2",
            "-frames:v",
            "10",
            "/tmp/out/frame_%04d.jpg"
        ]
    );
    let p = VideoPreprocessor::new(VideoConfig { fps: 25, width: 640, height: 360, max_frames: None });
    assert_eq!(
        args(&p.extract_frames("v.mp4", "out/")),
        vec!["-i", "v.mp4", "-vf", "fps=25,scale=640:360", "-f", "image2", "out/frame_%04d.jpg"]
    );
    assert_eq!(p.config().fps, 25);
}

#[test]
fn frame_files_are_numbered_from_one() {
    let p = VideoPreprocessor::new(VideoConfig::default());
    assert_eq!(p.frame_path("/tmp/out", 1), Some("/tmp/out/frame_0001.jpg".to_string()));
    assert_eq!(p.frame_path("/tmp/out", 10), Some("/tmp/out/frame_0010.jpg".to_string()));
    assert_eq!(p.frame_path("/tmp/out", 11), None);
    assert_eq!(p.frame_path("/tmp/out", 0), None);
    let p = VideoPreprocessor::new(VideoConfig { fps: 1, width: 1, height: 1, max_frames: None });
    assert_eq!(p.frame_path("", 999), Some("frame_0999.jpg".to_string()));
    assert_eq!(p.frame_path("d/", 1000), Some("d/frame_1000.jpg".to_string()));
    assert_eq!(p.frame_path("d", 1001), None);
    let p = VideoPreprocessor::new(VideoConfig { fps: 1, width: 1, height: 1, max_frames: Some(123456) });
    assert_eq!(p.frame_path("d", 100), Some("d/frame_0100.jpg".to_string()));
    assert_eq!(p.frame_path("d", 123456), Some("d/frame_123456.jpg".to_string()));
    let p = VideoPreprocessor::new(VideoConfig { fps: 1, width: 1, height: 1, max_frames: Some(0) });
    assert_eq!(p.frame_path("d", 1), None);
}

#[test]
fn paths_are_joined_with_one_separator() {
    assert_eq!(join_path("a", "b"), "a/b");
    assert_eq!(join_path("a/", "b"), "a/b");
    assert_eq!(join_path("", "b"), "b");
    assert_eq!(join_path("/", "b"), "/b");
    assert_eq!(join_path("a/b", ""), "a/b/");
}

#[test]
fn frames_are_timed_by_the_rate() {
    let p = VideoPreprocessor::new(VideoConfig { fps: 2, width: 1, height: 1, max_frames: None });
    assert_eq!(p.frame_timestamp_ms(0), 0);
    assert_eq!(p.frame_timestamp_ms(3), 1500);
    let p = VideoPreprocessor::new(VideoConfig { fps: 3, width: 1, height: 1, max_frames: None });
    assert_eq!(p.frame_timestamp_ms(1), 333);
    assert_eq!(p.frame_timestamp_ms(2), 666);
    let images = vec![
        image::DynamicImage::new_rgb8(1, 1),
        image::DynamicImage::new_rgb8(2, 1),
        image::DynamicImage::new_rgb8(3, 1),
    ];
    let frames = p.load_frames(images);
    assert_eq!(frames.len(), 3);
    for (i, frame) in frames.iter().enumerate() {
        assert_eq!(frame.frame_number, i);
        assert_eq!(frame.timestamp_ms, (i as u64 * 1000) / 3);
        assert_eq!(frame.image.width(), i as u32 + 1);
    }
    assert!(p.load_frames(Vec::new()).is_empty());
}

#[test]
fn errors_have_their_messages() {
    assert_eq!(FfmpegError::NotInstalled.message(), "FFmpeg not found in system PATH");
    assert_eq!(FfmpegError::ExecutionFailed("boom".to_string()).message(), "FFmpeg execution failed: boom");
    assert_eq!(FfmpegError::InvalidOutput("x".to_string()).message(), "Invalid output: x");
    assert_eq!(FfmpegError::Io("gone".to_string()).message(), "IO error: gone");
    assert_eq!(MediaError::DependencyNotFound("exiftool".to_string()).message(), "Dependency not found: exiftool");
    assert_eq!(MediaError::ProcessingError("p".to_string()).message(), "Processing failed: p");
    assert_eq!(MediaError::ValidationError("v".to_string()).message(), "Validation failed: v");
    assert_eq!(MediaError::Io("i".to_string()).message(), "IO error: i");
    assert_eq!(
        MediaError::Ffmpeg(FfmpegError::NotInstalled).message(),
        "FFmpeg error: FFmpeg not found in system PATH"
    );
}
