//! Tile-based Bayer demosaicing.
//!
//! The sensor buffer is cut into overlapping tiles, each tile is
//! reconstructed on its own, and the results are blended into one image.

pub mod bilinear;
pub mod blend;
pub mod engine;
pub mod parallel;
pub mod pattern;
pub mod tiling;

pub use bilinear::DemosaicedTile;
pub use blend::DemosaicError;
pub use engine::{DemosaicAlgorithm, ParallelDemosaic};
pub use pattern::BayerPattern;
pub use tiling::Tile;
