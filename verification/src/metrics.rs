//! Counters of requests and a timer for their latency.

use vstd::prelude::*;
use crate::text::same_text;

verus! {

/// Requests counted per operation.
#[derive(Debug, Clone, Copy, PartialEq, Eq)]
pub struct OperationMetrics {
    /// Audio conversions.
    pub audio_preprocess: u64,
    /// Mel spectrograms.
    pub audio_mel_spectrogram: u64,
    /// Frame extractions.
    pub video_extract_frames: u64,
    /// Image conversions.
    pub image_preprocess: u64,
    /// RAW previews.
    pub raw_preview: u64,
    /// RAW metadata extractions.
    pub raw_metadata: u64,
}

/// Counters of the requests that were served.  Every counter wraps round
/// at the top of its range.
#[derive(Debug, Clone, Copy, PartialEq, Eq)]
pub struct Metrics {
    /// All requests.
    pub total_requests: u64,
    /// Requests that succeeded.
    pub successful_requests: u64,
    /// Requests that failed.
    pub failed_requests: u64,
    /// Sum of the latencies of all requests, in milliseconds.
    pub total_latency_ms: u64,
    /// Audio conversions.
    pub audio_preprocess_count: u64,
    /// Mel spectrograms.
    pub audio_mel_count: u64,
    /// Frame extractions.
    pub video_frames_count: u64,
    /// Image conversions.
    pub image_preprocess_count: u64,
    /// RAW previews.
    pub raw_preview_count: u64,
    /// RAW metadata extractions.
    pub raw_metadata_count: u64,
}

/// A counter after one more event.
pub open spec fn bump(n: u64) -> u64 {
    if n == u64::MAX {
        0u64
    } else {
        (n + 1) as u64
    }
}

/// A sum of latencies after `latency_ms` more.
pub open spec fn add_latency(sum: u64, latency_ms: u64) -> u64 {
    if sum + latency_ms > u64::MAX {
        (sum + latency_ms - u64::MAX - 1) as u64
    } else {
        (sum + latency_ms) as u64
    }
}

/// The counters after a request for operation `op` was served.
pub open spec fn recorded(before: Metrics, op: Seq<char>, success: bool, latency_ms: u64) -> Metrics {
    Metrics {
        total_requests: bump(before.total_requests),
        successful_requests: if success {
            bump(before.successful_requests)
        } else {
            before.successful_requests
        },
        failed_requests: if success {
            before.failed_requests
        } else {
            bump(before.failed_requests)
        },
        total_latency_ms: add_latency(before.total_latency_ms, latency_ms),
        audio_preprocess_count: if op == "audio.preprocess"@ {
            bump(before.audio_preprocess_count)
        } else {
            before.audio_preprocess_count
        },
        audio_mel_count: if op == "audio.mel_spectrogram"@ {
            bump(before.audio_mel_count)
        } else {
            before.audio_mel_count
        },
        video_frames_count: if op == "video.extract_frames"@ {
            bump(before.video_frames_count)
        } else {
            before.video_frames_count
        },
        image_preprocess_count: if op == "image.preprocess"@ {
            bump(before.image_preprocess_count)
        } else {
            before.image_preprocess_count
        },
        raw_preview_count: if op == "raw.preview"@ {
            bump(before.raw_preview_count)
        } else {
            before.raw_preview_count
        },
        raw_metadata_count: if op == "raw.metadata"@ {
            bump(before.raw_metadata_count)
        } else {
            before.raw_metadata_count
        },
    }
}

/// Counters that have counted nothing.
pub open spec fn zero_metrics() -> Metrics {
    Metrics {
        total_requests: 0,
        successful_requests: 0,
        failed_requests: 0,
        total_latency_ms: 0,
        audio_preprocess_count: 0,
        audio_mel_count: 0,
        video_frames_count: 0,
        image_preprocess_count: 0,
        raw_preview_count: 0,
        raw_metadata_count: 0,
    }
}

/// A counter after one more event.
fn bumped(n: u64) -> (r: u64)
    ensures
        r == bump(n),
{
    n.wrapping_add(1)
}

impl Metrics {
    /// Counters that have counted nothing.
    pub fn new() -> (m: Metrics)
        ensures
            m == zero_metrics(),
    {
        Metrics {
            total_requests: 0,
            successful_requests: 0,
            failed_requests: 0,
            total_latency_ms: 0,
            audio_preprocess_count: 0,
            audio_mel_count: 0,
            video_frames_count: 0,
            image_preprocess_count: 0,
            raw_preview_count: 0,
            raw_metadata_count: 0,
        }
    }

    /// Counts one request for operation `op`, served in `latency_ms`
    /// milliseconds.  An operation that has no counter of its own is counted
    /// in the totals alone.
    pub fn record_request(&mut self, op: &str, success: bool, latency_ms: u64)
        ensures
            *final(self) == recorded(*old(self), op@, success, latency_ms),
    {
        self.total_requests = bumped(self.total_requests);
        if success {
            self.successful_requests = bumped(self.successful_requests);
        } else {
            self.failed_requests = bumped(self.failed_requests);
        }
        self.total_latency_ms = self.total_latency_ms.wrapping_add(latency_ms);
        if same_text(op, "audio.preprocess") {
            self.audio_preprocess_count = bumped(self.audio_preprocess_count);
        }
        if same_text(op, "audio.mel_spectrogram") {
            self.audio_mel_count = bumped(self.audio_mel_count);
        }
        if same_text(op, "video.extract_frames") {
            self.video_frames_count = bumped(self.video_frames_count);
        }
        if same_text(op, "image.preprocess") {
            self.image_preprocess_count = bumped(self.image_preprocess_count);
        }
        if same_text(op, "raw.preview") {
            self.raw_preview_count = bumped(self.raw_preview_count);
        }
        if same_text(op, "raw.metadata") {
            self.raw_metadata_count = bumped(self.raw_metadata_count);
        }
    }

    /// Mean latency of a request in milliseconds, rounded down; zero
    /// before the first request.
    pub fn average_latency_ms(&self) -> (mean: u64)
        ensures
            mean == if self.total_requests > 0 {
                self.total_latency_ms / self.total_requests
            } else {
                0
            },
    {
        if self.total_requests > 0 {
            self.total_latency_ms / self.total_requests
        } else {
            0
        }
    }

    /// The counters of the single operations.
    pub fn operations(&self) -> (ops: OperationMetrics)
        ensures
            ops == (OperationMetrics {
                audio_preprocess: self.audio_preprocess_count,
                audio_mel_spectrogram: self.audio_mel_count,
                video_extract_frames: self.video_frames_count,
                image_preprocess: self.image_preprocess_count,
                raw_preview: self.raw_preview_count,
                raw_metadata: self.raw_metadata_count,
            }),
    {
        OperationMetrics {
            audio_preprocess: self.audio_preprocess_count,
            audio_mel_spectrogram: self.audio_mel_count,
            video_extract_frames: self.video_frames_count,
            image_preprocess: self.image_preprocess_count,
            raw_preview: self.raw_preview_count,
            raw_metadata: self.raw_metadata_count,
        }
    }
}

impl Default for Metrics {
    fn default() -> (m: Metrics)
        ensures
            m == zero_metrics(),
    {
        Metrics::new()
    }
}

/// A point in time as the standard library's monotonic clock tells it.
#[verifier::external_type_specification]
#[verifier::external_body]
pub struct ExInstant(std::time::Instant);

/// Reads the clock.
///
/// Calls `std::time::Instant::now`.  Nothing is claimed of the reading.
#[verifier::external_body]
fn clock_now() -> (now: std::time::Instant) {
    std::time::Instant::now()
}

/// The whole milliseconds since `start`.
///
/// Calls `std::time::Instant::elapsed` and `Duration::as_millis`.  Nothing
/// is claimed of the time that has passed.
#[verifier::external_body]
fn millis_since(start: &std::time::Instant) -> (ms: u64) {
    start.elapsed().as_millis() as u64
}

/// Measures the time since it was made.
pub struct Timer {
    start: std::time::Instant,
}

impl Timer {
    /// A timer that starts now.
    pub fn new() -> (t: Timer) {
        Timer { start: clock_now() }
    }

    /// The whole milliseconds since the timer was made.
    pub fn elapsed_ms(&self) -> (ms: u64) {
        millis_since(&self.start)
    }
}

impl Default for Timer {
    fn default() -> (t: Timer) {
        Timer::new()
    }
}

} // verus!
