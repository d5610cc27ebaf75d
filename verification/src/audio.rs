//! Audio conversion: the `ffmpeg` commands that resample and extract audio.

use vstd::prelude::*;
use crate::ffmpeg::FfmpegCommand;
use crate::text::{decimal, decimal_string};

verus! {

/// Container of the converted audio.
#[derive(Debug, Clone, Copy, PartialEq, Eq, Structural)]
pub enum AudioFormat {
    /// Uncompressed WAV.
    Wav,
    /// MP3.
    Mp3,
    /// FLAC.
    Flac,
}

/// The name by which `ffmpeg` knows a format.
pub open spec fn audio_format_name(format: AudioFormat) -> Seq<char> {
    match format {
        AudioFormat::Wav => "wav"@,
        AudioFormat::Mp3 => "mp3"@,
        AudioFormat::Flac => "flac"@,
    }
}

impl AudioFormat {
    /// The name by which `ffmpeg` knows the format.
    pub fn as_str(&self) -> (name: &'static str)
        ensures
            name@ == audio_format_name(*self),
    {
        match self {
            AudioFormat::Wav => "wav",
            AudioFormat::Mp3 => "mp3",
            AudioFormat::Flac => "flac",
        }
    }
}

/// How audio is converted.
#[derive(Debug, Clone, Copy)]
pub struct AudioConfig {
    /// Samples per second of the result.
    pub sample_rate: u32,
    /// Number of channels of the result.
    pub channels: u16,
    /// Container of the result.
    pub format: AudioFormat,
}

impl Default for AudioConfig {
    /// Mono WAV at 48 kHz.
    fn default() -> (config: AudioConfig)
        ensures
            config.sample_rate == 48000,
            config.channels == 1,
            config.format == AudioFormat::Wav,
    {
        AudioConfig { sample_rate: 48000, channels: 1, format: AudioFormat::Wav }
    }
}

/// The arguments that convert `input` to `output`: resample, set the
/// channels, name the container.
pub open spec fn audio_arguments(config: AudioConfig, input: Seq<char>, output: Seq<char>) -> Seq<
    Seq<char>,
> {
    seq![
        "-i"@,
        input,
        "-ar"@,
        decimal(config.sample_rate as nat),
        "-ac"@,
        decimal(config.channels as nat),
        "-f"@,
        audio_format_name(config.format),
        output,
    ]
}

/// The arguments that take the audio out of a video: as `audio_arguments`,
/// with the picture left out.
pub open spec fn audio_from_video_arguments(
    config: AudioConfig,
    video: Seq<char>,
    output: Seq<char>,
) -> Seq<Seq<char>> {
    seq![
        "-i"@,
        video,
        "-vn"@,
        "-ar"@,
        decimal(config.sample_rate as nat),
        "-ac"@,
        decimal(config.channels as nat),
        "-f"@,
        audio_format_name(config.format),
        output,
    ]
}

/// Number of frames of a spectrogram of `samples` samples with windows of
/// `n_fft` samples: the whole windows that fit.
pub fn spectrogram_frames(samples: usize, n_fft: usize) -> (frames: usize)
    requires
        samples == 0 || n_fft > 0,
    ensures
        frames == if samples == 0 {
            0
        } else {
            samples as int / n_fft as int
        },
{
    if samples == 0 {
        0
    } else {
        samples / n_fft
    }
}

/// Converts audio files with `ffmpeg`.
pub struct AudioPreprocessor {
    config: AudioConfig,
}

impl AudioPreprocessor {
    /// The settings of the preprocessor.
    pub closed spec fn spec_config(&self) -> AudioConfig {
        self.config
    }

    /// A preprocessor with the given settings.
    pub fn new(config: AudioConfig) -> (p: AudioPreprocessor)
        ensures
            p.spec_config() == config,
    {
        AudioPreprocessor { config }
    }

    /// The settings of the preprocessor.
    #[verifier::when_used_as_spec(spec_config)]
    pub fn config(&self) -> (config: AudioConfig)
        ensures
            config == self.spec_config(),
    {
        self.config
    }

    /// The command that converts the file at `input` into `output`.
    pub fn preprocess(&self, input: &str, output: &str) -> (cmd: FfmpegCommand)
        ensures
            cmd@ == audio_arguments(self.spec_config(), input@, output@),
    {
        let rate = decimal_string(self.config.sample_rate as u64);
        let channels = decimal_string(self.config.channels as u64);
        let cmd = FfmpegCommand::new().input(input).arg("-ar").arg(rate.as_str()).arg("-ac").arg(
            channels.as_str(),
        ).arg("-f").arg(self.config.format.as_str()).output(output);
        assert(cmd@ =~= audio_arguments(self.spec_config(), input@, output@));
        cmd
    }

    /// The command that writes the audio track of `video` into `output`.
    pub fn extract_from_video(&self, video: &str, output: &str) -> (cmd: FfmpegCommand)
        ensures
            cmd@ == audio_from_video_arguments(self.spec_config(), video@, output@),
    {
        let rate = decimal_string(self.config.sample_rate as u64);
        let channels = decimal_string(self.config.channels as u64);
        let cmd = FfmpegCommand::new().input(video).arg("-vn").arg("-ar").arg(rate.as_str()).arg(
            "-ac",
        ).arg(channels.as_str()).arg("-f").arg(self.config.format.as_str()).output(output);
        assert(cmd@ =~= audio_from_video_arguments(self.spec_config(), video@, output@));
        cmd
    }
}

} // verus!
