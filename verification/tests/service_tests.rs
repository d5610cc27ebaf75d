use soma_media::compute_client::{ComputeClient, Probe, RequestKind, ResizeAlgorithm};
use soma_media::metrics::{Metrics, Timer};
use soma_media::organ::{MediaOrgan, Operation};

#[test]
fn counters_start_at_zero() {
    let m = Metrics::new();
    assert_eq!(m.total_requests, 0);
    assert_eq!(m.total_latency_ms, 0);
    assert_eq!(m.average_latency_ms(), 0);
    assert_eq!(m, Metrics::default());
    let ops = m.operations();
    assert_eq!(ops.audio_preprocess + ops.raw_preview + ops.raw_metadata, 0);
}

#[test]
fn requests_are_counted_by_outcome_and_operation() {
    let mut m = Metrics::new();
    m.record_request("raw.preview", true, 30);
    m.record_request("raw.preview", false, 10);
    m.record_request("audio.preprocess", true, 5);
    m.record_request("audio.mel_spectrogram", true, 1);
    m.record_request("video.extract_frames", true, 1);
    m.record_request("image.preprocess", true, 1);
    m.record_request("raw.metadata", true, 1);
    m.record_request("media.capabilities", true, 1);
    m.record_request("nonsense", false, 0);
    assert_eq!(m.total_requests, 9);
    assert_eq!(m.successful_requests, 7);
    assert_eq!(m.failed_requests, 2);
    assert_eq!(m.total_latency_ms, 50);
    assert_eq!(m.average_latency_ms(), 5);
    let ops = m.operations();
    assert_eq!(ops.raw_preview, 2);
    assert_eq!(ops.audio_preprocess, 1);
    assert_eq!(ops.audio_mel_spectrogram, 1);
    assert_eq!(ops.video_extract_frames, 1);
    assert_eq!(ops.image_preprocess, 1);
    assert_eq!(ops.raw_metadata, 1);
}

#[test]
fn counters_wrap_round() {
    let mut m = Metrics::new();
    m.total_requests = u64::MAX;
    m.total_latency_ms = u64::MAX - 1;
    m.raw_preview_count = u64::MAX;
    m.record_request("raw.preview", true, 5);
    assert_eq!(m.total_requests, 0);
    assert_eq!(m.total_latency_ms, 3);
    assert_eq!(m.raw_preview_count, 0);
    assert_eq!(m.successful_requests, 1);
    assert_eq!(m.average_latency_ms(), 0);
}

#[test]
fn timer_tells_the_time_since_it_was_made() {
    let t = Timer::new();
    let first = t.elapsed_ms();
    let second = t.elapsed_ms();
    assert!(first <= second);
    assert!(second < 60_000);
    assert!(Timer::default().elapsed_ms() < 60_000);
}

#[test]
fn operations_are_known_by_their_names() {
    let all = [
        (Operation::AudioPreprocess, "audio.preprocess"),
        (Operation::AudioMelSpectrogram, "audio.mel_spectrogram"),
        (Operation::VideoExtractFrames, "video.extract_frames"),
        (Operation::ImagePreprocess, "image.preprocess"),
        (Operation::RawPreview, "raw.preview"),
        (Operation::RawMetadata, "raw.metadata"),
        (Operation::Capabilities, "media.capabilities"),
        (Operation::Metrics, "metrics"),
    ];
    for (operation, name) in all {
        assert_eq!(operation.name(), name);
        assert_eq!(Operation::parse(name), Some(operation));
    }
    assert_eq!(Operation::parse("invalid.operation"), None);
    assert_eq!(Operation::parse(""), None);
    assert_eq!(Operation::parse("Raw.Preview"), None);
}

#[test]
fn organ_counts_what_it_serves() {
    let mut organ = MediaOrgan::new();
    assert_eq!(organ.metrics(), Metrics::new());
    assert_eq!(organ.begin("invalid.operation", 4), None);
    assert_eq!(organ.metrics().total_requests, 1);
    assert_eq!(organ.metrics().failed_requests, 1);
    assert_eq!(organ.metrics().total_latency_ms, 4);
    assert_eq!(organ.begin("raw.metadata", 9), Some(Operation::RawMetadata));
    assert_eq!(organ.metrics().total_requests, 1);
    organ.finish("raw.metadata", 6);
    let m = organ.metrics();
    assert_eq!((m.total_requests, m.successful_requests, m.raw_metadata_count), (2, 1, 1));
    assert_eq!(m.total_latency_ms, 10);
    let again = MediaOrgan::with_metrics(m);
    assert_eq!(again.metrics(), m);
    assert_eq!(MediaOrgan::default().metrics(), Metrics::new());
}

#[test]
fn client_remembers_what_it_saw_of_the_service() {
    let mut client = ComputeClient::new();
    assert_eq!(client.socket_path(), "/tmp/soma_compute.sock");
    assert_eq!(client.timeout_ms(), 5000);
    assert_eq!(client.cached_availability(), None);
    assert!(!client.note_probe(Probe::NoSocket));
    assert_eq!(client.cached_availability(), Some(false));
    assert!(!client.note_probe(Probe::Answered));
    let mut client = ComputeClient::with_socket("/run/compute.sock");
    assert_eq!(client.socket_path(), "/run/compute.sock");
    assert!(client.note_probe(Probe::Answered));
    assert!(client.note_probe(Probe::Failed));
    assert_eq!(client.cached_availability(), Some(true));
    let mut client = ComputeClient::default();
    assert!(!client.note_probe(Probe::Failed));
}

#[test]
fn messages_are_framed_by_their_length() {
    assert_eq!(ComputeClient::frame(&[]), Some(vec![0, 0, 0, 0]));
    assert_eq!(ComputeClient::frame(&[7, 8, 9]), Some(vec![0, 0, 0, 3, 7, 8, 9]));
    let body = vec![1u8; 0x01_02_03];
    let framed = ComputeClient::frame(&body).unwrap();
    assert_eq!(&framed[..4], &[0u8, 1, 2, 3][..]);
    assert_eq!(framed.len(), body.len() + 4);
    assert_eq!(ComputeClient::body_length(&[0, 1, 2, 3]), 0x01_02_03);
    assert_eq!(ComputeClient::body_length(&[255, 255, 255, 255]), u32::MAX);
    assert_eq!(ComputeClient::body_length(&[0x12, 0x34, 0x56, 0x78]), 0x1234_5678);
}

#[test]
fn requests_have_their_names() {
    let all = [
        (RequestKind::Ping, "health"),
        (RequestKind::ImageResize, "image_resize"),
        (RequestKind::ImageGamma, "image_gamma"),
        (RequestKind::ChromaticAberration, "chromatic_aberration"),
        (RequestKind::MedianFilter, "median_filter"),
        (RequestKind::Denoise, "denoise"),
    ];
    for (kind, name) in all {
        assert_eq!(kind.op(), name);
    }
    assert_ne!(ResizeAlgorithm::Nearest, ResizeAlgorithm::Lanczos3);
    assert_ne!(ResizeAlgorithm::Bilinear, ResizeAlgorithm::Lanczos3);
}
