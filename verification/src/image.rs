//! Image conversion: the `ffmpeg` commands that scale and re-encode images.

use vstd::prelude::*;
use vstd::string::*;
use crate::ffmpeg::FfmpegCommand;
use crate::raw::RawProcessor;
use crate::text::{
    all_ascii, ascii_lowercase, decimal, decimal_string, lowercase, lowercase_of, push_decimal,
    same_text,
};

verus! {

/// Encoding of the converted image.
#[derive(Debug, Clone, Copy, PartialEq, Eq, Structural)]
pub enum ImageOutputFormat {
    /// JPEG.
    Jpeg,
    /// PNG.
    Png,
    /// WebP.
    Webp,
    /// AVIF.
    Avif,
}

/// The file extension of a format.
pub open spec fn image_format_name(format: ImageOutputFormat) -> Seq<char> {
    match format {
        ImageOutputFormat::Jpeg => "jpg"@,
        ImageOutputFormat::Png => "png"@,
        ImageOutputFormat::Webp => "webp"@,
        ImageOutputFormat::Avif => "avif"@,
    }
}

/// The format that a lower-case name stands for; JPEG for a name that is
/// not known.
pub open spec fn image_format_named(name: Seq<char>) -> ImageOutputFormat {
    if name == "png"@ {
        ImageOutputFormat::Png
    } else if name == "webp"@ {
        ImageOutputFormat::Webp
    } else if name == "avif"@ {
        ImageOutputFormat::Avif
    } else {
        ImageOutputFormat::Jpeg
    }
}

impl ImageOutputFormat {
    /// The format that a lower-case name stands for: `png`, `webp`, `avif`,
    /// and JPEG for `jpg`, `jpeg` and every other name.
    pub fn from_lower_name(name: &str) -> (format: ImageOutputFormat)
        ensures
            format == image_format_named(name@),
    {
        if same_text(name, "png") {
            ImageOutputFormat::Png
        } else if same_text(name, "webp") {
            ImageOutputFormat::Webp
        } else if same_text(name, "avif") {
            ImageOutputFormat::Avif
        } else {
            ImageOutputFormat::Jpeg
        }
    }

    /// The format that a name stands for, without regard to case.  For a
    /// name of ASCII characters that is the format of the name with its
    /// capital letters made small.
    pub fn from_name(name: &str) -> (format: ImageOutputFormat)
        ensures
            format == image_format_named(lowercase_of(name@)),
            all_ascii(name@) ==> format == image_format_named(ascii_lowercase(name@)),
    {
        let lower = lowercase(name);
        ImageOutputFormat::from_lower_name(lower.as_str())
    }

    /// The short name of the format.
    pub fn as_str(&self) -> (name: &'static str)
        ensures
            name@ == image_format_name(*self),
    {
        match self {
            ImageOutputFormat::Jpeg => "jpg",
            ImageOutputFormat::Png => "png",
            ImageOutputFormat::Webp => "webp",
            ImageOutputFormat::Avif => "avif",
        }
    }

    /// The file extension of the format, without the dot.
    pub fn extension(&self) -> (name: &'static str)
        ensures
            name@ == image_format_name(*self),
    {
        self.as_str()
    }
}

/// How images are converted.
#[derive(Debug, Clone, Copy)]
pub struct ImageConfig {
    /// Width of the result in pixels.
    pub width: u32,
    /// Height of the result in pixels.
    pub height: u32,
    /// Encoding of the result.
    pub format: ImageOutputFormat,
    /// Quality of a lossy encoding, from 1 to 100.
    pub quality: u8,
}

impl Default for ImageConfig {
    /// JPEG of 336 by 336 pixels at quality 90.
    fn default() -> (config: ImageConfig)
        ensures
            config.width == 336,
            config.height == 336,
            config.format == ImageOutputFormat::Jpeg,
            config.quality == 90,
    {
        ImageConfig { width: 336, height: 336, format: ImageOutputFormat::Jpeg, quality: 90 }
    }
}

/// The scaling filter `scale=W:H`.
pub open spec fn scale_filter(width: u32, height: u32) -> Seq<char> {
    "scale="@ + decimal(width as nat) + ":"@ + decimal(height as nat)
}

/// The arguments that set the quality of an encoding; none for PNG, which
/// loses nothing.
pub open spec fn quality_arguments(format: ImageOutputFormat, quality: u8) -> Seq<Seq<char>> {
    match format {
        ImageOutputFormat::Jpeg => seq!["-q:v"@, decimal(((100 - quality) / 3) as nat)],
        ImageOutputFormat::Webp => seq!["-quality"@, decimal(quality as nat)],
        ImageOutputFormat::Avif => seq!["-crf"@, decimal(((100 - quality) / 2) as nat)],
        ImageOutputFormat::Png => Seq::<Seq<char>>::empty(),
    }
}

/// The arguments that scale `input` and encode it into `output`.
pub open spec fn image_arguments(config: ImageConfig, input: Seq<char>, output: Seq<char>) -> Seq<
    Seq<char>,
> {
    seq!["-i"@, input, "-vf"@, scale_filter(config.width, config.height)] + quality_arguments(
        config.format,
        config.quality,
    ) + seq![output]
}

/// The arguments that scale an image of a common format into raw RGB.
pub open spec fn plain_convert_arguments(
    config: ImageConfig,
    input: Seq<char>,
    output: Seq<char>,
) -> Seq<Seq<char>> {
    seq![
        "-i"@,
        input,
        "-vf"@,
        scale_filter(config.width, config.height),
        "-pix_fmt"@,
        "rgb24"@,
        output,
    ]
}

/// The text of the scaling filter.
pub fn scale_filter_text(width: u32, height: u32) -> (text: String)
    ensures
        text@ == scale_filter(width, height),
{
    let mut text = String::from_str("scale=");
    push_decimal(&mut text, width as u64);
    text.append(":");
    push_decimal(&mut text, height as u64);
    text
}

/// Converts images with `ffmpeg`, and RAW files with the RAW processor.
pub struct ImagePreprocessor {
    config: ImageConfig,
    raw: Option<RawProcessor>,
}

impl ImagePreprocessor {
    /// The settings of the preprocessor.
    pub closed spec fn spec_config(&self) -> ImageConfig {
        self.config
    }

    /// Whether the preprocessor has a RAW processor at hand.
    pub closed spec fn spec_has_raw(&self) -> bool {
        self.raw is Some
    }

    /// A preprocessor with the given settings and a RAW processor.
    pub fn new(config: ImageConfig) -> (p: ImagePreprocessor)
        ensures
            p.spec_config() == config,
            p.spec_has_raw(),
    {
        let raw = match RawProcessor::new() {
            Ok(r) => Some(r),
            Err(_) => None,
        };
        ImagePreprocessor { config, raw }
    }

    /// The settings of the preprocessor.
    #[verifier::when_used_as_spec(spec_config)]
    pub fn config(&self) -> (config: ImageConfig)
        ensures
            config == self.spec_config(),
    {
        self.config
    }

    /// Whether the preprocessor has a RAW processor at hand.
    #[verifier::when_used_as_spec(spec_has_raw)]
    pub fn has_raw(&self) -> (b: bool)
        ensures
            b == self.spec_has_raw(),
    {
        self.raw.is_some()
    }

    /// The command that scales the image at `input` and encodes it into
    /// `output`.
    pub fn preprocess(&self, input: &str, output: &str) -> (cmd: FfmpegCommand)
        requires
            self.spec_config().quality <= 100,
        ensures
            cmd@ == image_arguments(self.spec_config(), input@, output@),
    {
        let filter = scale_filter_text(self.config.width, self.config.height);
        let cmd = FfmpegCommand::new().input(input).arg("-vf").arg(filter.as_str());
        let quality: u8 = self.config.quality;
        let cmd = match self.config.format {
            ImageOutputFormat::Jpeg => {
                let level = decimal_string(((100 - quality) / 3) as u64);
                cmd.arg("-q:v").arg(level.as_str())
            },
            ImageOutputFormat::Webp => {
                let level = decimal_string(quality as u64);
                cmd.arg("-quality").arg(level.as_str())
            },
            ImageOutputFormat::Avif => {
                let level = decimal_string(((100 - quality) / 2) as u64);
                cmd.arg("-crf").arg(level.as_str())
            },
            ImageOutputFormat::Png => cmd,
        };
        let cmd = cmd.output(output);
        assert(cmd@ =~= image_arguments(self.spec_config(), input@, output@));
        cmd
    }

    /// The command that scales an image of a common format at `input` into
    /// raw RGB at `output`; the way taken for a file that is no RAW file.
    pub fn plain_convert_command(&self, input: &str, output: &str) -> (cmd: FfmpegCommand)
        ensures
            cmd@ == plain_convert_arguments(self.spec_config(), input@, output@),
    {
        let filter = scale_filter_text(self.config.width, self.config.height);
        let cmd = FfmpegCommand::new().input(input).arg("-vf").arg(filter.as_str()).arg(
            "-pix_fmt",
        ).arg("rgb24").output(output);
        assert(cmd@ =~= plain_convert_arguments(self.spec_config(), input@, output@));
        cmd
    }
}

} // verus!
