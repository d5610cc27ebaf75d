//! The operations that the media organ offers, and the counting of requests.

use vstd::prelude::*;
use crate::metrics::{recorded, zero_metrics, Metrics};
use crate::text::same_text;

verus! {

/// An operation of the organ.
#[derive(Debug, Clone, Copy, PartialEq, Eq, Structural)]
pub enum Operation {
    /// `audio.preprocess`: convert an audio file.
    AudioPreprocess,
    /// `audio.mel_spectrogram`: describe a mel spectrogram.
    AudioMelSpectrogram,
    /// `video.extract_frames`: write the frames of a video.
    VideoExtractFrames,
    /// `image.preprocess`: convert an image.
    ImagePreprocess,
    /// `raw.preview`: make a preview of a RAW file.
    RawPreview,
    /// `raw.metadata`: read the metadata of a RAW file.
    RawMetadata,
    /// `media.capabilities`: describe the organ.
    Capabilities,
    /// `metrics`: report the counters.
    Metrics,
}

/// The operation that a name stands for, if any.
pub open spec fn operation_named(op: Seq<char>) -> Option<Operation> {
    if op == "audio.preprocess"@ {
        Some(Operation::AudioPreprocess)
    } else if op == "audio.mel_spectrogram"@ {
        Some(Operation::AudioMelSpectrogram)
    } else if op == "video.extract_frames"@ {
        Some(Operation::VideoExtractFrames)
    } else if op == "image.preprocess"@ {
        Some(Operation::ImagePreprocess)
    } else if op == "raw.preview"@ {
        Some(Operation::RawPreview)
    } else if op == "raw.metadata"@ {
        Some(Operation::RawMetadata)
    } else if op == "media.capabilities"@ {
        Some(Operation::Capabilities)
    } else if op == "metrics"@ {
        Some(Operation::Metrics)
    } else {
        None
    }
}

/// The name of an operation.
pub open spec fn operation_name(op: Operation) -> Seq<char> {
    match op {
        Operation::AudioPreprocess => "audio.preprocess"@,
        Operation::AudioMelSpectrogram => "audio.mel_spectrogram"@,
        Operation::VideoExtractFrames => "video.extract_frames"@,
        Operation::ImagePreprocess => "image.preprocess"@,
        Operation::RawPreview => "raw.preview"@,
        Operation::RawMetadata => "raw.metadata"@,
        Operation::Capabilities => "media.capabilities"@,
        Operation::Metrics => "metrics"@,
    }
}

impl Operation {
    /// The operation that `op` names; none for a name that the organ does
    /// not know.
    pub fn parse(op: &str) -> (r: Option<Operation>)
        ensures
            r == operation_named(op@),
    {
        if same_text(op, "audio.preprocess") {
            Some(Operation::AudioPreprocess)
        } else if same_text(op, "audio.mel_spectrogram") {
            Some(Operation::AudioMelSpectrogram)
        } else if same_text(op, "video.extract_frames") {
            Some(Operation::VideoExtractFrames)
        } else if same_text(op, "image.preprocess") {
            Some(Operation::ImagePreprocess)
        } else if same_text(op, "raw.preview") {
            Some(Operation::RawPreview)
        } else if same_text(op, "raw.metadata") {
            Some(Operation::RawMetadata)
        } else if same_text(op, "media.capabilities") {
            Some(Operation::Capabilities)
        } else if same_text(op, "metrics") {
            Some(Operation::Metrics)
        } else {
            None
        }
    }

    /// The name of the operation.
    pub fn name(&self) -> (s: &'static str)
        ensures
            s@ == operation_name(*self),
    {
        match self {
            Operation::AudioPreprocess => "audio.preprocess",
            Operation::AudioMelSpectrogram => "audio.mel_spectrogram",
            Operation::VideoExtractFrames => "video.extract_frames",
            Operation::ImagePreprocess => "image.preprocess",
            Operation::RawPreview => "raw.preview",
            Operation::RawMetadata => "raw.metadata",
            Operation::Capabilities => "media.capabilities",
            Operation::Metrics => "metrics",
        }
    }
}

/// Whether a request asks for the health of the service, which is answered
/// without the organ.
pub fn is_health_check(op: &str) -> (health: bool)
    ensures
        health == (op@ == "health"@ || op@ == "health.check"@),
{
    same_text(op, "health") || same_text(op, "health.check")
}

/// The media organ: its operations and the counters of its requests.
pub struct MediaOrgan {
    metrics: Metrics,
}

impl MediaOrgan {
    /// The counters of the organ.
    pub closed spec fn spec_metrics(&self) -> Metrics {
        self.metrics
    }

    /// An organ that has served nothing.
    pub fn new() -> (organ: MediaOrgan)
        ensures
            organ.spec_metrics() == zero_metrics(),
    {
        MediaOrgan { metrics: Metrics::new() }
    }

    /// An organ that goes on counting from `metrics`.
    pub fn with_metrics(metrics: Metrics) -> (organ: MediaOrgan)
        ensures
            organ.spec_metrics() == metrics,
    {
        MediaOrgan { metrics }
    }

    /// The counters of the organ.
    #[verifier::when_used_as_spec(spec_metrics)]
    pub fn metrics(&self) -> (m: Metrics)
        ensures
            m == self.spec_metrics(),
    {
        self.metrics
    }

    /// Looks up the operation that a request names and counts the request
    /// as failed where there is none.  A request for a known operation is
    /// counted by `finish` once it was served.
    pub fn begin(&mut self, op: &str, latency_ms: u64) -> (operation: Option<Operation>)
        ensures
            operation == operation_named(op@),
            final(self).spec_metrics() == if operation is Some {
                old(self).spec_metrics()
            } else {
                recorded(old(self).spec_metrics(), op@, false, latency_ms)
            },
    {
        let operation = Operation::parse(op);
        if operation.is_none() {
            self.metrics.record_request(op, false, latency_ms);
        }
        operation
    }

    /// Counts a request that was served with success.
    pub fn finish(&mut self, op: &str, latency_ms: u64)
        ensures
            final(self).spec_metrics() == recorded(old(self).spec_metrics(), op@, true, latency_ms),
    {
        self.metrics.record_request(op, true, latency_ms);
    }
}

impl Default for MediaOrgan {
    fn default() -> (organ: MediaOrgan)
        ensures
            organ.spec_metrics() == zero_metrics(),
    {
        MediaOrgan::new()
    }
}

} // verus!
