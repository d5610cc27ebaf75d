//! RAW processing: the settings of a preview and the exposure estimate.

use vstd::prelude::*;
use crate::error::MediaError;
use crate::text::same_text;
use crate::exposure::{
    analyse_exposure, auto_exposure_of, estimate_of, ExposureEstimate, MAX_BRIGHTEN_TENTHS,
    MAX_DARKEN_TENTHS, SAMPLE_STRIDE,
};

verus! {

/// Colour space of a processed image.
#[derive(Debug, Clone, Copy, PartialEq, Eq, Structural)]
pub enum ColorSpace {
    /// The sensor's own colours.
    Raw,
    /// sRGB.
    SRGB,
    /// Adobe RGB (1998).
    AdobeRGB,
    /// Wide-gamut RGB.
    WideGamutRGB,
    /// ProPhoto RGB.
    ProPhotoRGB,
    /// CIE XYZ.
    XYZ,
}

impl ColorSpace {
    /// The number by which the decoder knows the colour space.
    pub fn index(&self) -> (i: u8)
        ensures
            i == match *self {
                ColorSpace::Raw => 0u8,
                ColorSpace::SRGB => 1u8,
                ColorSpace::AdobeRGB => 2u8,
                ColorSpace::WideGamutRGB => 3u8,
                ColorSpace::ProPhotoRGB => 4u8,
                ColorSpace::XYZ => 5u8,
            },
    {
        match self {
            ColorSpace::Raw => 0,
            ColorSpace::SRGB => 1,
            ColorSpace::AdobeRGB => 2,
            ColorSpace::WideGamutRGB => 3,
            ColorSpace::ProPhotoRGB => 4,
            ColorSpace::XYZ => 5,
        }
    }
}

/// How a preview is made.
#[derive(Debug, Clone, Copy)]
pub struct PreviewOptions {
    /// WebP quality, from 1 to 100.
    pub quality: u8,
    /// Longest side of the preview in pixels, if limited.
    pub max_dimension: Option<u32>,
    /// Whether to process the sensor data even where a preview is embedded.
    pub force_raw_processing: bool,
}

impl Default for PreviewOptions {
    /// Quality 92, at most 2048 pixels, embedded previews preferred.
    fn default() -> (options: PreviewOptions)
        ensures
            options.quality == 92,
            options.max_dimension == Some(2048u32),
            !options.force_raw_processing,
    {
        PreviewOptions { quality: 92, max_dimension: Some(2048), force_raw_processing: false }
    }
}

/// The size to which an image of `width` by `height` is brought so that
/// neither side exceeds `max`, keeping its proportions: the longer side
/// becomes `max`, the other shrinks with it, rounded down.  An image that
/// fits keeps its size.
pub open spec fn fitted_size(width: u32, height: u32, max: u32) -> (u32, u32) {
    if width > max || height > max {
        if width > height {
            (max, ((max as int * height as int) / width as int) as u32)
        } else {
            (((max as int * width as int) / height as int) as u32, max)
        }
    } else {
        (width, height)
    }
}

/// The size of the preview of an image of `width` by `height`.
pub open spec fn preview_size(width: u32, height: u32, max_dimension: Option<u32>) -> (u32, u32) {
    match max_dimension {
        Some(max) => fitted_size(width, height, max),
        None => (width, height),
    }
}

/// What has to be done to an embedded preview so that it stands upright.
#[derive(Debug, Clone, Copy, PartialEq, Eq, Structural)]
pub enum Orientation {
    /// Nothing.
    Upright,
    /// Turn by 180 degrees.
    Rotate180,
    /// Turn by 90 degrees clockwise, then mirror left to right.
    Rotate90Mirrored,
    /// Turn by 90 degrees clockwise.
    Rotate90,
    /// Turn by 270 degrees clockwise.
    Rotate270,
}

/// What the decoder's flip value asks for; a value that is not known asks
/// for nothing.
pub open spec fn orientation_of(flip: i32) -> Orientation {
    if flip == 3 {
        Orientation::Rotate180
    } else if flip == 5 {
        Orientation::Rotate90Mirrored
    } else if flip == 6 {
        Orientation::Rotate90
    } else if flip == 8 {
        Orientation::Rotate270
    } else {
        Orientation::Upright
    }
}

/// Whether a media type is one that RAW files are detected as.
pub open spec fn is_raw_mime_name(mime: Seq<char>) -> bool {
    mime == "image/x-canon-cr2"@ || mime == "image/x-canon-cr3"@ || mime == "image/x-canon-crw"@
        || mime == "image/x-nikon-nef"@ || mime == "image/x-sony-arw"@ || mime
        == "image/x-sony-srf"@ || mime == "image/x-sony-sr2"@ || mime == "image/x-pentax-pef"@
        || mime == "image/x-samsung-srw"@ || mime == "image/x-olympus-orf"@ || mime
        == "image/x-panasonic-raw"@ || mime == "image/x-fuji-raf"@ || mime == "image/x-sigma-x3f"@
        || mime == "image/x-adobe-dng"@ || mime == "image/x-dcraw"@ || mime == "image/tiff"@
}

/// Processes RAW sensor data.
#[derive(Debug, Clone, Copy)]
pub struct RawProcessor;

impl RawProcessor {
    /// A RAW processor.  It needs no outside program and is always made.
    pub fn new() -> (r: Result<RawProcessor, MediaError>)
        ensures
            r is Ok,
    {
        Ok(RawProcessor)
    }

    /// Analyses the exposure of a `width` by `height` buffer of raw samples
    /// from every tenth sample of every tenth row.  Where the estimate
    /// suggests a change, its size in stops is the base-two logarithm of
    /// 118 over the median bin, limited to three stops up and two stops
    /// down, and the decoder applies it as a factor of two to that power.
    pub fn calculate_auto_exposure(&self, raw: &[u16], width: usize, height: usize) -> (estimate:
        ExposureEstimate)
        ensures
            estimate == estimate_of(raw@, width as int, height as int, SAMPLE_STRIDE as int),
            estimate.tenths == auto_exposure_of(
                raw@,
                width as int,
                height as int,
                SAMPLE_STRIDE as int,
            ),
            -MAX_DARKEN_TENTHS <= estimate.tenths <= MAX_BRIGHTEN_TENTHS,
    {
        analyse_exposure(raw, width, height, SAMPLE_STRIDE)
    }

    /// Whether a file of the detected media type `mime` may be a RAW file.
    /// Many RAW formats are detected as TIFF, which therefore counts.
    pub fn is_raw_mime(mime: &str) -> (raw: bool)
        ensures
            raw == is_raw_mime_name(mime@),
    {
        same_text(mime, "image/x-canon-cr2") || same_text(mime, "image/x-canon-cr3") || same_text(
            mime,
            "image/x-canon-crw",
        ) || same_text(mime, "image/x-nikon-nef") || same_text(mime, "image/x-sony-arw")
            || same_text(mime, "image/x-sony-srf") || same_text(mime, "image/x-sony-sr2")
            || same_text(mime, "image/x-pentax-pef") || same_text(mime, "image/x-samsung-srw")
            || same_text(mime, "image/x-olympus-orf") || same_text(mime, "image/x-panasonic-raw")
            || same_text(mime, "image/x-fuji-raf") || same_text(mime, "image/x-sigma-x3f")
            || same_text(mime, "image/x-adobe-dng") || same_text(mime, "image/x-dcraw") || same_text(
            mime,
            "image/tiff",
        )
    }

    /// What has to be done to an embedded preview whose flip value is
    /// `flip` so that it stands upright.
    pub fn orientation(flip: i32) -> (o: Orientation)
        ensures
            o == orientation_of(flip),
    {
        if flip == 3 {
            Orientation::Rotate180
        } else if flip == 5 {
            Orientation::Rotate90Mirrored
        } else if flip == 6 {
            Orientation::Rotate90
        } else if flip == 8 {
            Orientation::Rotate270
        } else {
            Orientation::Upright
        }
    }

    /// Whether an image of `width` by `height` has to shrink to respect
    /// `max_dimension`.
    pub fn needs_resize(&self, width: u32, height: u32, max_dimension: Option<u32>) -> (b: bool)
        ensures
            b == (max_dimension matches Some(max) && (width > max || height > max)),
    {
        match max_dimension {
            Some(max) => width > max || height > max,
            None => false,
        }
    }

    /// The size of the preview of an image of `width` by `height`.
    pub fn preview_dimensions(&self, width: u32, height: u32, max_dimension: Option<u32>) -> (size:
        (u32, u32))
        ensures
            size == preview_size(width, height, max_dimension),
            size.0 <= width,
            size.1 <= height,
    {
        match max_dimension {
            Some(max) => {
                if width > max || height > max {
                    if width > height {
                        assert(max as u64 * height as u64 <= 0xffff_ffff * 0xffff_ffff)
                            by (nonlinear_arith)
                            requires
                                max <= 0xffff_ffff,
                                height <= 0xffff_ffff,
                        ;
                        let scaled: u64 = (max as u64 * height as u64) / (width as u64);
                        assert(scaled <= height) by (nonlinear_arith)
                            requires
                                scaled == (max as int * height as int) / (width as int),
                                max < width,
                                height >= 0,
                        ;
                        (max, scaled as u32)
                    } else {
                        assert(height > 0);
                        assert(max as u64 * width as u64 <= 0xffff_ffff * 0xffff_ffff)
                            by (nonlinear_arith)
                            requires
                                max <= 0xffff_ffff,
                                width <= 0xffff_ffff,
                        ;
                        let scaled: u64 = (max as u64 * width as u64) / (height as u64);
                        assert(scaled <= width) by (nonlinear_arith)
                            requires
                                scaled == (max as int * width as int) / (height as int),
                                max < height,
                                width >= 0,
                        ;
                        (scaled as u32, max)
                    }
                } else {
                    (width, height)
                }
            },
            None => (width, height),
        }
    }

    /// The size of the image that the decoder hands out for a sensor of
    /// `width` by `height`: half of each side in half-size mode.
    pub fn output_dimensions(&self, width: u32, height: u32, half_size: bool) -> (size: (u32, u32))
        ensures
            size == if half_size {
                (width / 2, height / 2)
            } else {
                (width, height)
            },
    {
        if half_size {
            (width / 2, height / 2)
        } else {
            (width, height)
        }
    }
}

} // verus!
