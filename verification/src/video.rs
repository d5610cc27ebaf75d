//! Frame extraction: the `ffmpeg` command that writes the frames of a video,
//! the names of the files it writes, and the time of each frame.

use vstd::prelude::*;
use vstd::string::*;
use crate::ffmpeg::FfmpegCommand;
use crate::text::{decimal, decimal_string, push_decimal};

verus! {

/// How frames are taken out of a video.
#[derive(Debug, Clone, Copy)]
pub struct VideoConfig {
    /// Frames taken per second of video.
    pub fps: u8,
    /// Width of a frame in pixels.
    pub width: u32,
    /// Height of a frame in pixels.
    pub height: u32,
    /// Largest number of frames taken, if limited.
    pub max_frames: Option<usize>,
}

impl Default for VideoConfig {
    /// One frame per second, 336 by 336 pixels, at most ten frames.
    fn default() -> (config: VideoConfig)
        ensures
            config.fps == 1,
            config.width == 336,
            config.height == 336,
            config.max_frames == Some(10usize),
    {
        VideoConfig { fps: 1, width: 336, height: 336, max_frames: Some(10) }
    }
}

/// A decoded picture of the `image` crate.
#[verifier::external_type_specification]
#[verifier::external_body]
pub struct ExDynamicImage(image::DynamicImage);

/// One frame of a video.
pub struct VideoFrame {
    /// The picture.
    pub image: image::DynamicImage,
    /// Time of the frame from the start of the video, in milliseconds.
    pub timestamp_ms: u64,
    /// Place of the frame among the extracted frames, from zero.
    pub frame_number: usize,
}

/// Number of frames looked for where the number is not limited.
pub const UNLIMITED_FRAMES: usize = 1000;

/// The name of the file pattern that `ffmpeg` writes frames to.
pub open spec fn frame_pattern() -> Seq<char> {
    "frame_%04d.jpg"@
}

/// A file `name` inside the directory `dir`: joined by a `/` unless the
/// directory is empty or ends in one.
pub open spec fn joined(dir: Seq<char>, name: Seq<char>) -> Seq<char> {
    if dir.len() == 0 || dir.last() == '/' {
        dir + name
    } else {
        dir + "/"@ + name
    }
}

/// A number in at least four digits, with zeros in front where it has fewer.
pub open spec fn four_digits(n: nat) -> Seq<char> {
    if n < 10 {
        "000"@ + decimal(n)
    } else if n < 100 {
        "00"@ + decimal(n)
    } else if n < 1000 {
        "0"@ + decimal(n)
    } else {
        decimal(n)
    }
}

/// The name of the file of frame `index`.
pub open spec fn frame_name(index: nat) -> Seq<char> {
    "frame_"@ + four_digits(index) + ".jpg"@
}

/// The filter that sets rate and size: `fps=F,scale=W:H`.
pub open spec fn frame_filter(config: VideoConfig) -> Seq<char> {
    "fps="@ + decimal(config.fps as nat) + ",scale="@ + decimal(config.width as nat) + ":"@
        + decimal(config.height as nat)
}

/// The arguments that write the frames of `video` into `output_dir`.
pub open spec fn frame_arguments(config: VideoConfig, video: Seq<char>, output_dir: Seq<char>) -> Seq<
    Seq<char>,
> {
    let head = seq!["-i"@, video, "-vf"@, frame_filter(config), "-f"@, "image2"@];
    let limit = match config.max_frames {
        Some(max) => seq!["-frames:v"@, decimal(max as nat)],
        None => Seq::<Seq<char>>::empty(),
    };
    head + limit + seq![joined(output_dir, frame_pattern())]
}

/// The time of frame `index` in milliseconds, at `fps` frames per second.
pub open spec fn frame_time_ms(index: nat, fps: nat) -> nat {
    (index * 1000) / fps
}

/// The path of the file `name` inside the directory `dir`.
pub fn join_path(dir: &str, name: &str) -> (path: String)
    ensures
        path@ == joined(dir@, name@),
{
    let n: usize = dir.unicode_len();
    let mut path = String::from_str(dir);
    if n > 0 && dir.get_char(n - 1) != '/' {
        path.append("/");
    }
    path.append(name);
    assert(path@ =~= joined(dir@, name@));
    path
}

/// Extracts the frames of a video with `ffmpeg`.
pub struct VideoPreprocessor {
    config: VideoConfig,
}

impl VideoPreprocessor {
    /// The settings of the preprocessor.
    pub closed spec fn spec_config(&self) -> VideoConfig {
        self.config
    }

    /// A preprocessor with the given settings.
    pub fn new(config: VideoConfig) -> (p: VideoPreprocessor)
        ensures
            p.spec_config() == config,
    {
        VideoPreprocessor { config }
    }

    /// The settings of the preprocessor.
    #[verifier::when_used_as_spec(spec_config)]
    pub fn config(&self) -> (config: VideoConfig)
        ensures
            config == self.spec_config(),
    {
        self.config
    }

    /// The command that writes the frames of `video` into `output_dir`, as
    /// files `frame_0001.jpg`, `frame_0002.jpg` and so on.
    pub fn extract_frames(&self, video: &str, output_dir: &str) -> (cmd: FfmpegCommand)
        ensures
            cmd@ == frame_arguments(self.spec_config(), video@, output_dir@),
    {
        let mut filter = String::from_str("fps=");
        push_decimal(&mut filter, self.config.fps as u64);
        filter.append(",scale=");
        push_decimal(&mut filter, self.config.width as u64);
        filter.append(":");
        push_decimal(&mut filter, self.config.height as u64);
        let cmd = FfmpegCommand::new().input(video).arg("-vf").arg(filter.as_str()).arg("-f").arg(
            "image2",
        );
        let cmd = match self.config.max_frames {
            Some(max) => {
                let limit = decimal_string(max as u64);
                cmd.arg("-frames:v").arg(limit.as_str())
            },
            None => cmd,
        };
        let pattern = join_path(output_dir, "frame_%04d.jpg");
        let cmd = cmd.output(pattern.as_str());
        assert(cmd@ =~= frame_arguments(self.spec_config(), video@, output_dir@));
        cmd
    }

    /// The path at which frame `index` is looked for, counting from one;
    /// none for an index of zero or beyond the largest number of frames.
    /// The frames that were written are those whose files exist, up to the
    /// first that does not.
    pub fn frame_path(&self, output_dir: &str, index: usize) -> (path: Option<String>)
        ensures
            match path {
                Some(p) => self.spec_has_frame(index) && p@ == joined(
                    output_dir@,
                    frame_name(index as nat),
                ),
                None => !self.spec_has_frame(index),
            },
    {
        let limit: usize = match self.config.max_frames {
            Some(max) => max,
            None => UNLIMITED_FRAMES,
        };
        if index < 1 || index > limit {
            return None;
        }
        let mut name = String::from_str("frame_");
        if index < 10 {
            name.append("000");
        } else if index < 100 {
            name.append("00");
        } else if index < 1000 {
            name.append("0");
        }
        push_decimal(&mut name, index as u64);
        name.append(".jpg");
        assert(name@ =~= frame_name(index as nat));
        Some(join_path(output_dir, name.as_str()))
    }

    /// Whether frame `index`, counting from one, is among those looked for.
    pub open spec fn spec_has_frame(&self, index: usize) -> bool {
        1 <= index <= match self.spec_config().max_frames {
            Some(max) => max,
            None => UNLIMITED_FRAMES,
        }
    }

    /// The time of frame `index`, counting from zero, in milliseconds from
    /// the start of the video.
    pub fn frame_timestamp_ms(&self, index: usize) -> (ms: u64)
        requires
            self.spec_config().fps > 0,
            index * 1000 <= u64::MAX,
        ensures
            ms == frame_time_ms(index as nat, self.spec_config().fps as nat),
    {
        (index as u64 * 1000) / (self.config.fps as u64)
    }

    /// Makes frames of decoded pictures: the picture at position `i` becomes
    /// frame `i`, with the time of that frame.
    pub fn load_frames(&self, images: Vec<image::DynamicImage>) -> (frames: Vec<VideoFrame>)
        requires
            self.spec_config().fps > 0,
            images@.len() * 1000 <= u64::MAX,
        ensures
            frames@.len() == images@.len(),
            forall|i: int|
                0 <= i < frames@.len() ==> {
                    &&& (#[trigger] frames@[i]).image == images@[i]
                    &&& frames@[i].frame_number == i
                    &&& frames@[i].timestamp_ms == frame_time_ms(
                        i as nat,
                        self.spec_config().fps as nat,
                    )
                },
    {
        let mut rest = images;
        let total: usize = rest.len();
        let mut reversed: Vec<VideoFrame> = Vec::new();
        let mut left: usize = total;
        while left > 0
            invariant
                left <= total,
                total == images@.len(),
                total * 1000 <= u64::MAX,
                self.spec_config().fps > 0,
                rest@ == images@.subrange(0, left as int),
                reversed@.len() == total - left,
                forall|j: int|
                    0 <= j < reversed@.len() ==> {
                        &&& (#[trigger] reversed@[j]).image == images@[total - 1 - j]
                        &&& reversed@[j].frame_number == total - 1 - j
                        &&& reversed@[j].timestamp_ms == frame_time_ms(
                            (total - 1 - j) as nat,
                            self.spec_config().fps as nat,
                        )
                    },
            decreases left,
        {
            let image = rest.pop().unwrap();
            left = left - 1;
            assert(left * 1000 <= total * 1000);
            let timestamp_ms: u64 = self.frame_timestamp_ms(left);
            reversed.push(VideoFrame { image, timestamp_ms, frame_number: left });
            assert(rest@ =~= images@.subrange(0, left as int));
        }
        let mut frames: Vec<VideoFrame> = Vec::new();
        let mut k: usize = 0;
        while k < total
            invariant
                k <= total,
                reversed@.len() == total - k,
                frames@.len() == k,
                total == images@.len(),
                forall|j: int|
                    0 <= j < reversed@.len() ==> {
                        &&& (#[trigger] reversed@[j]).image == images@[total - 1 - j]
                        &&& reversed@[j].frame_number == total - 1 - j
                        &&& reversed@[j].timestamp_ms == frame_time_ms(
                            (total - 1 - j) as nat,
                            self.spec_config().fps as nat,
                        )
                    },
                forall|i: int|
                    0 <= i < frames@.len() ==> {
                        &&& (#[trigger] frames@[i]).image == images@[i]
                        &&& frames@[i].frame_number == i
                        &&& frames@[i].timestamp_ms == frame_time_ms(
                            i as nat,
                            self.spec_config().fps as nat,
                        )
                    },
            decreases total - k,
        {
            let frame = reversed.pop().unwrap();
            frames.push(frame);
            k = k + 1;
        }
        frames
    }
}

} // verus!
