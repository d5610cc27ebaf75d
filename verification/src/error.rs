//! The error of the library's operations.

use vstd::prelude::*;
use vstd::string::*;
use crate::ffmpeg::{ffmpeg_message, FfmpegError};

verus! {

/// What can go wrong in a media operation.
#[derive(Debug, Clone, PartialEq, Eq)]
pub enum MediaError {
    /// A program or library that the operation needs is missing.
    DependencyNotFound(String),
    /// The operation itself failed.
    ProcessingError(String),
    /// The input does not have the form that the operation asks for.
    ValidationError(String),
    /// Reading or writing a file failed.
    Io(String),
    /// Running `ffmpeg` failed.
    Ffmpeg(FfmpegError),
}

/// The message of an error, as text.
pub open spec fn media_message(e: MediaError) -> Seq<char> {
    match e {
        MediaError::DependencyNotFound(s) => "Dependency not found: "@ + s@,
        MediaError::ProcessingError(s) => "Processing failed: "@ + s@,
        MediaError::ValidationError(s) => "Validation failed: "@ + s@,
        MediaError::Io(s) => "IO error: "@ + s@,
        MediaError::Ffmpeg(e) => "FFmpeg error: "@ + ffmpeg_message(e),
    }
}

impl MediaError {
    /// The message of the error.
    pub fn message(&self) -> (text: String)
        ensures
            text@ == media_message(*self),
    {
        match self {
            MediaError::DependencyNotFound(s) => String::from_str("Dependency not found: ").concat(
                s.as_str(),
            ),
            MediaError::ProcessingError(s) => String::from_str("Processing failed: ").concat(
                s.as_str(),
            ),
            MediaError::ValidationError(s) => String::from_str("Validation failed: ").concat(
                s.as_str(),
            ),
            MediaError::Io(s) => String::from_str("IO error: ").concat(s.as_str()),
            MediaError::Ffmpeg(e) => {
                let inner = e.message();
                String::from_str("FFmpeg error: ").concat(inner.as_str())
            },
        }
    }
}

} // verus!
