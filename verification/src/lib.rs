//! Media preprocessing: Bayer demosaicing of RAW sensor data, exposure
//! estimation, and the command and metadata helpers that surround them.

pub mod audio;
pub mod compute_client;
pub mod demosaic;
pub mod error;
pub mod exposure;
pub mod ffmpeg;
pub mod gpu;
pub mod image;
pub mod metadata;
pub mod metrics;
pub mod organ;
pub mod ppm;
pub mod profiles;
pub mod raw;
pub mod text;
pub mod validation;
pub mod video;

pub use audio::{AudioConfig, AudioFormat, AudioPreprocessor};
pub use compute_client::ComputeClient;
pub use error::MediaError;
pub use ffmpeg::{FfmpegCommand, FfmpegError};
pub use gpu::{GpuBackend, GpuProcessor};
pub use image::{ImageConfig, ImageOutputFormat, ImagePreprocessor};
pub use metadata::{
    detect_mime_from_extension, ColorInfo, Dimensions, MetadataBackend, SensorInfo, ShootingInfo,
};
pub use metrics::{Metrics, OperationMetrics, Timer};
pub use organ::MediaOrgan;
pub use profiles::{PictureStyle, ToneCurve};
pub use raw::{ColorSpace, PreviewOptions, RawProcessor};
pub use video::{VideoConfig, VideoFrame, VideoPreprocessor};
