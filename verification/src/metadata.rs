//! Descriptions of media files: sizes, colour, sensor, and the media type
//! that a file name stands for.

use vstd::prelude::*;
use vstd::string::*;
use crate::text::{
    all_ascii, ascii_lowercase, chars_of, contains_text, decimal, has_part, has_prefix, lowercase,
    lowercase_of, push_decimal, same_text, starts_with,
};

verus! {

/// Size of an image or a video frame.
#[derive(Debug, Clone, Copy, PartialEq, Eq)]
pub struct Dimensions {
    /// Width in pixels.
    pub width: u32,
    /// Height in pixels.
    pub height: u32,
    /// Bits per sample, where known.
    pub bit_depth: Option<u8>,
}

impl Default for Dimensions {
    fn default() -> (d: Dimensions)
        ensures
            d.width == 0,
            d.height == 0,
            d.bit_depth is None,
    {
        Dimensions { width: 0, height: 0, bit_depth: None }
    }
}

/// Colour and white balance of an image.
#[derive(Debug, Clone, PartialEq, Eq)]
pub struct ColorInfo {
    /// Name of the colour space.
    pub color_space: Option<String>,
    /// Description of the embedded colour profile.
    pub color_profile: Option<String>,
    /// White balance setting.
    pub white_balance: Option<String>,
    /// Colour temperature in kelvin.
    pub color_temperature: Option<u32>,
}

impl Default for ColorInfo {
    fn default() -> (c: ColorInfo)
        ensures
            c.color_space is None,
            c.color_profile is None,
            c.white_balance is None,
            c.color_temperature is None,
    {
        ColorInfo {
            color_space: None,
            color_profile: None,
            white_balance: None,
            color_temperature: None,
        }
    }
}

/// The source that metadata was read with.
#[derive(Debug, Clone, Copy, PartialEq, Eq, Structural)]
pub enum MetadataBackend {
    /// ExifTool.
    ExifTool,
    /// The EXIF reader written in Rust.
    KamadakExif,
    /// LibRaw.
    LibRaw,
    /// FFprobe.
    FFprobe,
    /// The file name and size alone.
    FileMagic,
    /// Nothing was read.
    NoBackend,
}

impl Default for MetadataBackend {
    fn default() -> (b: MetadataBackend)
        ensures
            b == MetadataBackend::FileMagic,
    {
        MetadataBackend::FileMagic
    }
}

/// The sensor of a RAW file.
#[derive(Debug, Clone, PartialEq, Eq)]
pub struct SensorInfo {
    /// Width of the sensor in samples.
    pub raw_width: u32,
    /// Height of the sensor in samples.
    pub raw_height: u32,
    /// Width of the image after cropping.
    pub width: u32,
    /// Height of the image after cropping.
    pub height: u32,
    /// Rows cropped at the top.
    pub top_margin: u32,
    /// Columns cropped at the left.
    pub left_margin: u32,
    /// Bits per sample.
    pub bits_per_pixel: u8,
    /// Number of colours of the filter array.
    pub colors: u8,
    /// Name of the Bayer arrangement.
    pub bayer_pattern: Option<String>,
    /// Black level of each of the four photosites of a cell.
    pub black_level: Option<[u16; 4]>,
    /// Level at which the sensor saturates.
    pub white_level: Option<u16>,
}

impl Default for SensorInfo {
    fn default() -> (s: SensorInfo)
        ensures
            s.raw_width == 0,
            s.raw_height == 0,
            s.width == 0,
            s.height == 0,
            s.top_margin == 0,
            s.left_margin == 0,
            s.bits_per_pixel == 0,
            s.colors == 0,
            s.bayer_pattern is None,
            s.black_level is None,
            s.white_level is None,
    {
        SensorInfo {
            raw_width: 0,
            raw_height: 0,
            width: 0,
            height: 0,
            top_margin: 0,
            left_margin: 0,
            bits_per_pixel: 0,
            colors: 0,
            bayer_pattern: None,
            black_level: None,
            white_level: None,
        }
    }
}

/// How a picture was taken.
#[derive(Debug, Clone, PartialEq, Eq)]
pub struct ShootingInfo {
    /// Exposure mode.
    pub exposure_mode: Option<String>,
    /// Metering mode.
    pub metering_mode: Option<String>,
    /// Focus mode.
    pub focus_mode: Option<String>,
    /// Flash status.
    pub flash: Option<String>,
    /// Image stabilisation status.
    pub image_stabilization: Option<String>,
    /// Drive mode.
    pub drive_mode: Option<String>,
    /// Place of the shot in its sequence.
    pub shot_order: Option<u32>,
}

impl Default for ShootingInfo {
    fn default() -> (s: ShootingInfo)
        ensures
            s.exposure_mode is None,
            s.metering_mode is None,
            s.focus_mode is None,
            s.flash is None,
            s.image_stabilization is None,
            s.drive_mode is None,
            s.shot_order is None,
    {
        ShootingInfo {
            exposure_mode: None,
            metering_mode: None,
            focus_mode: None,
            flash: None,
            image_stabilization: None,
            drive_mode: None,
            shot_order: None,
        }
    }
}

/// The greatest common divisor by Euclid's rule; `gcd_of(0, 0)` is zero.
pub open spec fn gcd_of(a: nat, b: nat) -> nat
    decreases b,
{
    if b == 0 {
        a
    } else {
        gcd_of(b, a % b)
    }
}

/// The greatest common divisor divides both numbers, and is zero only
/// where both are.
pub proof fn lemma_gcd_divides(a: nat, b: nat)
    ensures
        gcd_of(a, b) == 0 <==> (a == 0 && b == 0),
        gcd_of(a, b) > 0 ==> a % gcd_of(a, b) == 0 && b % gcd_of(a, b) == 0,
    decreases b,
{
    if b != 0 {
        lemma_gcd_divides(b, a % b);
        let g = gcd_of(a, b);
        let q = a / b;
        let r = a % b;
        vstd::arithmetic::div_mod::lemma_fundamental_div_mod(a as int, b as int);
        assert(a == b * q + r);
        let x = (b / g) as int;
        let y = (r / g) as int;
        vstd::arithmetic::div_mod::lemma_fundamental_div_mod(b as int, g as int);
        vstd::arithmetic::div_mod::lemma_fundamental_div_mod(r as int, g as int);
        assert(a == g * (x * q + y)) by (nonlinear_arith)
            requires
                a == b * q + r,
                b == g * x,
                r == g * y,
        ;
        vstd::arithmetic::div_mod::lemma_mod_multiples_basic(x * q + y, g as int);
        assert(g * (x * q + y) == (x * q + y) * g) by (nonlinear_arith);
    }
}

/// Every common divisor of two numbers divides their greatest common divisor.
pub proof fn lemma_gcd_is_greatest(a: nat, b: nat, d: nat)
    requires
        d > 0,
        a % d == 0,
        b % d == 0,
    ensures
        gcd_of(a, b) % d == 0,
    decreases b,
{
    if b != 0 {
        let q = (a / b) as int;
        let r = (a % b) as int;
        vstd::arithmetic::div_mod::lemma_fundamental_div_mod(a as int, b as int);
        vstd::arithmetic::div_mod::lemma_fundamental_div_mod(a as int, d as int);
        vstd::arithmetic::div_mod::lemma_fundamental_div_mod(b as int, d as int);
        let x = (a / d) as int;
        let y = (b / d) as int;
        assert(r == d * (x - y * q)) by (nonlinear_arith)
            requires
                a == b * q + r,
                a == d * x,
                b == d * y,
        ;
        assert(d * (x - y * q) == (x - y * q) * d) by (nonlinear_arith);
        vstd::arithmetic::div_mod::lemma_mod_multiples_basic(x - y * q, d as int);
        lemma_gcd_is_greatest(b, (a % b) as nat, d);
    }
}

/// The greatest common divisor of two numbers.
pub fn gcd(a: u32, b: u32) -> (g: u32)
    ensures
        g == gcd_of(a as nat, b as nat),
    decreases b,
{
    if b == 0 {
        a
    } else {
        gcd(b, a % b)
    }
}

/// The proportions `W:H` of a size, in lowest terms.
pub open spec fn aspect_ratio_of(width: u32, height: u32) -> Seq<char> {
    let g = gcd_of(width as nat, height as nat);
    decimal(width as nat / g) + ":"@ + decimal(height as nat / g)
}

impl Dimensions {
    /// The proportions of the size in lowest terms, such as `16:9`.
    pub fn aspect_ratio(&self) -> (text: String)
        requires
            self.width > 0 || self.height > 0,
        ensures
            text@ == aspect_ratio_of(self.width, self.height),
    {
        proof {
            lemma_gcd_divides(self.width as nat, self.height as nat);
        }
        let g: u32 = gcd(self.width, self.height);
        let mut text = String::new();
        push_decimal(&mut text, (self.width / g) as u64);
        text.append(":");
        push_decimal(&mut text, (self.height / g) as u64);
        assert(text@ =~= aspect_ratio_of(self.width, self.height));
        text
    }

    /// Number of pixels.
    pub fn pixel_count(&self) -> (n: u64)
        ensures
            n == self.width * self.height,
    {
        assert(self.width as u64 * self.height as u64 <= 0xffff_ffff * 0xffff_ffff)
            by (nonlinear_arith)
            requires
                self.width <= 0xffff_ffff,
                self.height <= 0xffff_ffff,
        ;
        self.width as u64 * self.height as u64
    }
}

/// Where the last segment of a path begins: after its last `/`.
pub open spec fn segment_start(path: Seq<char>, n: int) -> int
    decreases n,
{
    if n <= 0 {
        0
    } else if path[n - 1] == '/' {
        n
    } else {
        segment_start(path, n - 1)
    }
}

/// Where the last dot stands among the first `n` characters, from `from`
/// on; `-1` if there is none.
pub open spec fn last_dot(path: Seq<char>, from: int, n: int) -> int
    decreases n - from,
{
    if n <= from {
        -1
    } else if path[n - 1] == '.' {
        n - 1
    } else {
        last_dot(path, from, n - 1)
    }
}

/// Where the file name of a path ends: before every `/`, and every `.`
/// that follows a `/`, at the end of the path.
pub open spec fn name_end(path: Seq<char>, n: int) -> int
    decreases n,
{
    if n <= 0 {
        0
    } else if path[n - 1] == '/' {
        name_end(path, n - 1)
    } else if n >= 2 && path[n - 1] == '.' && path[n - 2] == '/' {
        name_end(path, n - 1)
    } else {
        n
    }
}

/// The extension of a file name: what follows the last dot of the file
/// name, which is the last segment of the path that is not empty and not a
/// single dot.  A name without a dot, a name whose only dot is its first
/// character, and the name `..` have none.
pub open spec fn extension_of(path: Seq<char>) -> Option<Seq<char>> {
    let end = name_end(path, path.len() as int);
    let start = segment_start(path, end);
    let dot = last_dot(path, start, end);
    if end - start == 2 && path[start] == '.' && path[start + 1] == '.' {
        None
    } else if dot <= start {
        None
    } else {
        Some(path.subrange(dot + 1, end))
    }
}

/// The extension of a file name, as `extension_of` defines it.
pub fn file_extension(path: &str) -> (ext: Option<String>)
    ensures
        match ext {
            Some(e) => extension_of(path@) == Some(e@),
            None => extension_of(path@) is None,
        },
{
    let chars = chars_of(path);
    let n: usize = chars.len();
    let mut end: usize = n;
    while end > 0 && (chars[end - 1] == '/' || (end >= 2 && chars[end - 1] == '.' && chars[end - 2]
        == '/'))
        invariant
            end <= n,
            n == path@.len(),
            chars@ == path@,
            name_end(path@, n as int) == name_end(path@, end as int),
        decreases end,
    {
        end = end - 1;
    }
    assert(name_end(path@, end as int) == end);
    let mut i: usize = end;
    let mut dot: Option<usize> = None;
    while i > 0 && chars[i - 1] != '/'
        invariant
            i <= end <= n,
            n == path@.len(),
            chars@ == path@,
            segment_start(path@, end as int) == segment_start(path@, i as int),
            match dot {
                Some(d) => i <= d < end && last_dot(path@, i as int, end as int) == d,
                None => last_dot(path@, i as int, end as int) == -1,
            },
        decreases i,
    {
        proof {
            lemma_last_dot_extends(path@, i as int - 1, end as int);
        }
        if dot.is_none() && chars[i - 1] == '.' {
            dot = Some(i - 1);
        }
        i = i - 1;
    }
    if end - i == 2 && chars[i] == '.' && chars[i + 1] == '.' {
        return None;
    }
    match dot {
        Some(d) => {
            if d > i {
                let ext = path.substring_char(d + 1, end);
                Some(String::from_str(ext))
            } else {
                None
            }
        },
        None => None,
    }
}

/// Looking for the last dot from one character earlier finds the same dot,
/// or that character where there was none and it is a dot.
pub proof fn lemma_last_dot_extends(path: Seq<char>, from: int, n: int)
    requires
        0 <= from < n <= path.len(),
    ensures
        last_dot(path, from, n) == if last_dot(path, from + 1, n) >= 0 {
            last_dot(path, from + 1, n)
        } else if path[from] == '.' {
            from
        } else {
            -1
        },
        last_dot(path, from + 1, n) >= 0 ==> from + 1 <= last_dot(path, from + 1, n) < n,
    decreases n - from,
{
    if n > from + 1 {
        if path[n - 1] != '.' {
            lemma_last_dot_extends(path, from, n - 1);
        }
    } else {
        assert(last_dot(path, from, n - 1) == -1);
        assert(last_dot(path, from + 1, n) == -1);
    }
}

/// The media type that a lower-case extension stands for; a general binary
/// type for an extension that is not known.
pub open spec fn mime_of(ext: Seq<char>) -> Seq<char> {
    if ext == "jpg"@ || ext == "jpeg"@ {
        "image/jpeg"@
    } else if ext == "png"@ {
        "image/png"@
    } else if ext == "gif"@ {
        "image/gif"@
    } else if ext == "webp"@ {
        "image/webp"@
    } else if ext == "tiff"@ || ext == "tif"@ {
        "image/tiff"@
    } else if ext == "bmp"@ {
        "image/bmp"@
    } else if ext == "heic"@ || ext == "heif"@ {
        "image/heic"@
    } else if ext == "avif"@ {
        "image/avif"@
    } else if ext == "svg"@ {
        "image/svg+xml"@
    } else if ext == "ico"@ {
        "image/x-icon"@
    } else if ext == "cr2"@ {
        "image/x-canon-cr2"@
    } else if ext == "cr3"@ {
        "image/x-canon-cr3"@
    } else if ext == "nef"@ {
        "image/x-nikon-nef"@
    } else if ext == "arw"@ {
        "image/x-sony-arw"@
    } else if ext == "dng"@ {
        "image/x-adobe-dng"@
    } else if ext == "raf"@ {
        "image/x-fuji-raf"@
    } else if ext == "orf"@ {
        "image/x-olympus-orf"@
    } else if ext == "rw2"@ {
        "image/x-panasonic-rw2"@
    } else if ext == "pef"@ {
        "image/x-pentax-pef"@
    } else if ext == "srw"@ {
        "image/x-samsung-srw"@
    } else if ext == "mp4"@ || ext == "m4v"@ {
        "video/mp4"@
    } else if ext == "mov"@ {
        "video/quicktime"@
    } else if ext == "avi"@ {
        "video/x-msvideo"@
    } else if ext == "mkv"@ {
        "video/x-matroska"@
    } else if ext == "webm"@ {
        "video/webm"@
    } else if ext == "wmv"@ {
        "video/x-ms-wmv"@
    } else if ext == "flv"@ {
        "video/x-flv"@
    } else if ext == "mp3"@ {
        "audio/mpeg"@
    } else if ext == "wav"@ {
        "audio/wav"@
    } else if ext == "flac"@ {
        "audio/flac"@
    } else if ext == "aac"@ {
        "audio/aac"@
    } else if ext == "ogg"@ {
        "audio/ogg"@
    } else if ext == "m4a"@ {
        "audio/mp4"@
    } else if ext == "wma"@ {
        "audio/x-ms-wma"@
    } else if ext == "pdf"@ {
        "application/pdf"@
    } else if ext == "json"@ {
        "application/json"@
    } else if ext == "xml"@ {
        "application/xml"@
    } else {
        "application/octet-stream"@
    }
}

/// The media type that a lower-case extension stands for.
pub fn mime_for_extension(ext: &str) -> (mime: &'static str)
    ensures
        mime@ == mime_of(ext@),
{
    if same_text(ext, "jpg") || same_text(ext, "jpeg") {
        "image/jpeg"
    } else if same_text(ext, "png") {
        "image/png"
    } else if same_text(ext, "gif") {
        "image/gif"
    } else if same_text(ext, "webp") {
        "image/webp"
    } else if same_text(ext, "tiff") || same_text(ext, "tif") {
        "image/tiff"
    } else if same_text(ext, "bmp") {
        "image/bmp"
    } else if same_text(ext, "heic") || same_text(ext, "heif") {
        "image/heic"
    } else if same_text(ext, "avif") {
        "image/avif"
    } else if same_text(ext, "svg") {
        "image/svg+xml"
    } else if same_text(ext, "ico") {
        "image/x-icon"
    } else if same_text(ext, "cr2") {
        "image/x-canon-cr2"
    } else if same_text(ext, "cr3") {
        "image/x-canon-cr3"
    } else if same_text(ext, "nef") {
        "image/x-nikon-nef"
    } else if same_text(ext, "arw") {
        "image/x-sony-arw"
    } else if same_text(ext, "dng") {
        "image/x-adobe-dng"
    } else if same_text(ext, "raf") {
        "image/x-fuji-raf"
    } else if same_text(ext, "orf") {
        "image/x-olympus-orf"
    } else if same_text(ext, "rw2") {
        "image/x-panasonic-rw2"
    } else if same_text(ext, "pef") {
        "image/x-pentax-pef"
    } else if same_text(ext, "srw") {
        "image/x-samsung-srw"
    } else if same_text(ext, "mp4") || same_text(ext, "m4v") {
        "video/mp4"
    } else if same_text(ext, "mov") {
        "video/quicktime"
    } else if same_text(ext, "avi") {
        "video/x-msvideo"
    } else if same_text(ext, "mkv") {
        "video/x-matroska"
    } else if same_text(ext, "webm") {
        "video/webm"
    } else if same_text(ext, "wmv") {
        "video/x-ms-wmv"
    } else if same_text(ext, "flv") {
        "video/x-flv"
    } else if same_text(ext, "mp3") {
        "audio/mpeg"
    } else if same_text(ext, "wav") {
        "audio/wav"
    } else if same_text(ext, "flac") {
        "audio/flac"
    } else if same_text(ext, "aac") {
        "audio/aac"
    } else if same_text(ext, "ogg") {
        "audio/ogg"
    } else if same_text(ext, "m4a") {
        "audio/mp4"
    } else if same_text(ext, "wma") {
        "audio/x-ms-wma"
    } else if same_text(ext, "pdf") {
        "application/pdf"
    } else if same_text(ext, "json") {
        "application/json"
    } else if same_text(ext, "xml") {
        "application/xml"
    } else {
        "application/octet-stream"
    }
}

/// The media type of a file, told by its name: the type of the lower-case
/// form of its extension, or of the empty text where it has none.
pub open spec fn detected_mime(path: Seq<char>) -> Seq<char> {
    match extension_of(path) {
        Some(ext) => mime_of(lowercase_of(ext)),
        None => mime_of(lowercase_of(Seq::<char>::empty())),
    }
}

/// The extension of a file name, or the empty text where it has none.
pub open spec fn extension_text(path: Seq<char>) -> Seq<char> {
    match extension_of(path) {
        Some(ext) => ext,
        None => Seq::<char>::empty(),
    }
}

/// The media type of a file, told by the extension of its name without
/// regard to case.  For an extension of ASCII characters that is the type
/// of the extension with its capital letters made small.
pub fn detect_mime_from_extension(path: &str) -> (mime: String)
    ensures
        mime@ == detected_mime(path@),
        all_ascii(extension_text(path@)) ==> mime@ == mime_of(
            ascii_lowercase(extension_text(path@)),
        ),
{
    let ext = match file_extension(path) {
        Some(e) => e,
        None => String::new(),
    };
    let lower = lowercase(ext.as_str());
    String::from_str(mime_for_extension(lower.as_str()))
}

/// Whether a lower-case file type is one of the RAW formats.
pub open spec fn is_raw_name(file_type: Seq<char>) -> bool {
    file_type == "cr2"@ || file_type == "cr3"@ || file_type == "nef"@ || file_type == "arw"@
        || file_type == "dng"@ || file_type == "raf"@ || file_type == "orf"@ || file_type == "rw2"@
        || file_type == "pef"@ || file_type == "srw"@
}

/// Whether a lower-case file type is one of the RAW formats.
pub fn is_raw_file_type(file_type: &str) -> (raw: bool)
    ensures
        raw == is_raw_name(file_type@),
{
    same_text(file_type, "cr2") || same_text(file_type, "cr3") || same_text(file_type, "nef")
        || same_text(file_type, "arw") || same_text(file_type, "dng") || same_text(file_type, "raf")
        || same_text(file_type, "orf") || same_text(file_type, "rw2") || same_text(file_type, "pef")
        || same_text(file_type, "srw")
}

/// Whether a file is a video: its media type says so, or it has both a
/// duration and a frame rate.
pub fn is_video(mime_type: &str, has_duration: bool, has_frame_rate: bool) -> (video: bool)
    ensures
        video == (starts_with(mime_type@, "video/"@) || (has_duration && has_frame_rate)),
{
    has_prefix(mime_type, "video/") || (has_duration && has_frame_rate)
}

/// Whether a file is an audio file: its media type says so, or it has a
/// duration and a sample rate and is no video.
pub fn is_audio(
    mime_type: &str,
    has_duration: bool,
    has_sample_rate: bool,
    has_frame_rate: bool,
) -> (audio: bool)
    ensures
        audio == (starts_with(mime_type@, "audio/"@) || (has_duration && has_sample_rate && !(
        starts_with(mime_type@, "video/"@) || (has_duration && has_frame_rate)))),
{
    has_prefix(mime_type, "audio/") || (has_duration && has_sample_rate && !is_video(
        mime_type,
        has_duration,
        has_frame_rate,
    ))
}

/// Whether a file is an image: its media type says so.
pub fn is_image(mime_type: &str) -> (image: bool)
    ensures
        image == starts_with(mime_type@, "image/"@),
{
    has_prefix(mime_type, "image/")
}

/// Whether a file is a RAW image: its media type holds `-x-`, or its file
/// type, without regard to case, is one of the RAW formats.
pub fn is_raw(mime_type: &str, file_type: &str) -> (raw: bool)
    ensures
        raw == (contains_text(mime_type@, "-x-"@) || is_raw_name(lowercase_of(file_type@))),
        all_ascii(file_type@) ==> raw == (contains_text(mime_type@, "-x-"@) || is_raw_name(
            ascii_lowercase(file_type@),
        )),
{
    if has_part(mime_type, "-x-") {
        true
    } else {
        let lower = lowercase(file_type);
        is_raw_file_type(lower.as_str())
    }
}

/// The source that is tried for a file whose lower-case extension is `ext`
/// when ExifTool is not at hand: LibRaw for RAW files, the EXIF reader for
/// common images, FFprobe for video and audio, and the file itself for
/// anything else.
pub open spec fn fallback_backend_of(ext: Seq<char>) -> MetadataBackend {
    if is_raw_name(ext) {
        MetadataBackend::LibRaw
    } else if ext == "jpg"@ || ext == "jpeg"@ || ext == "tiff"@ || ext == "tif"@ || ext == "heic"@
        || ext == "heif"@ {
        MetadataBackend::KamadakExif
    } else if ext == "mp4"@ || ext == "mov"@ || ext == "avi"@ || ext == "mkv"@ || ext == "webm"@
        || ext == "mp3"@ || ext == "flac"@ || ext == "wav"@ || ext == "aac"@ || ext == "ogg"@ || ext
        == "m4a"@ {
        MetadataBackend::FFprobe
    } else {
        MetadataBackend::FileMagic
    }
}

/// The source that is tried for a file whose lower-case extension is `ext`
/// when ExifTool is not at hand.
pub fn fallback_backend(ext: &str) -> (backend: MetadataBackend)
    ensures
        backend == fallback_backend_of(ext@),
{
    if is_raw_file_type(ext) {
        MetadataBackend::LibRaw
    } else if same_text(ext, "jpg") || same_text(ext, "jpeg") || same_text(ext, "tiff")
        || same_text(ext, "tif") || same_text(ext, "heic") || same_text(ext, "heif") {
        MetadataBackend::KamadakExif
    } else if same_text(ext, "mp4") || same_text(ext, "mov") || same_text(ext, "avi") || same_text(
        ext,
        "mkv",
    ) || same_text(ext, "webm") || same_text(ext, "mp3") || same_text(ext, "flac") || same_text(
        ext,
        "wav",
    ) || same_text(ext, "aac") || same_text(ext, "ogg") || same_text(ext, "m4a") {
        MetadataBackend::FFprobe
    } else {
        MetadataBackend::FileMagic
    }
}

/// The source that is tried for the file at `path` when ExifTool is not
/// at hand, told by the extension of its name without regard to case.
pub fn fallback_backend_for_path(path: &str) -> (backend: MetadataBackend)
    ensures
        backend == fallback_backend_of(lowercase_of(extension_text(path@))),
        all_ascii(extension_text(path@)) ==> backend == fallback_backend_of(
            ascii_lowercase(extension_text(path@)),
        ),
{
    let ext = match file_extension(path) {
        Some(e) => e,
        None => String::new(),
    };
    let lower = lowercase(ext.as_str());
    fallback_backend(lower.as_str())
}

} // verus!
