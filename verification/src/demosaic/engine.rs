//! The demosaic processor and its settings.

use vstd::prelude::*;

verus! {

/// Which reconstruction a processor runs on each tile.
#[derive(Debug, Clone, Copy, PartialEq, Eq, Structural)]
pub enum DemosaicAlgorithm {
    /// Bilinear interpolation of same-colour neighbours.
    Bilinear,
    /// Variable number of gradients; reconstructs as `Bilinear` does.
    VNG,
    /// Adaptive homogeneity-directed; reconstructs as `Bilinear` does.
    AHD,
}

impl DemosaicAlgorithm {
    /// The reconstruction that stands for a quality number of the RAW
    /// decoder: 0 is bilinear, 1 is VNG, 3 is AHD; any other number, and
    /// none, is bilinear.
    pub fn from_quality(quality: Option<u8>) -> (algorithm: DemosaicAlgorithm)
        ensures
            algorithm == match quality {
                Some(1u8) => DemosaicAlgorithm::VNG,
                Some(3u8) => DemosaicAlgorithm::AHD,
                _ => DemosaicAlgorithm::Bilinear,
            },
    {
        match quality {
            Some(1) => DemosaicAlgorithm::VNG,
            Some(3) => DemosaicAlgorithm::AHD,
            _ => DemosaicAlgorithm::Bilinear,
        }
    }
}

/// Largest overlap a processor blends with.  Blend weights are counted in
/// units of one over the overlap squared and must fit the accumulator.
pub const MAX_OVERLAP: usize = 65535;

/// Distance, in samples, over which the reconstruction of a pixel looks.
pub const INTERPOLATION_RADIUS: usize = 1;

/// Overlap of a processor made by `with_tile_size` or `default`.
pub const DEFAULT_OVERLAP: usize = 16;

/// Tile size of a processor made by `default`.
pub const DEFAULT_TILE_SIZE: usize = 512;

/// Demosaics a Bayer buffer tile by tile.
pub struct ParallelDemosaic {
    tile_size: usize,
    overlap: usize,
    algorithm: DemosaicAlgorithm,
}

impl ParallelDemosaic {
    /// Side of a tile's core, in samples.
    pub closed spec fn spec_tile_size(&self) -> usize {
        self.tile_size
    }

    /// Width of the band that neighbouring tiles share.
    pub closed spec fn spec_overlap(&self) -> usize {
        self.overlap
    }

    /// The reconstruction that runs on each tile.
    pub closed spec fn spec_algorithm(&self) -> DemosaicAlgorithm {
        self.algorithm
    }

    /// A processor with tiles of `tile_size`, an overlap of 16 and bilinear
    /// reconstruction.
    pub fn with_tile_size(tile_size: usize) -> (p: ParallelDemosaic)
        ensures
            p.spec_tile_size() == tile_size,
            p.spec_overlap() == DEFAULT_OVERLAP,
            p.spec_algorithm() == DemosaicAlgorithm::Bilinear,
    {
        ParallelDemosaic { tile_size, overlap: DEFAULT_OVERLAP, algorithm: DemosaicAlgorithm::Bilinear }
    }

    /// A processor with tiles of `tile_size` that share `overlap` samples.
    pub fn with_overlap(tile_size: usize, overlap: usize) -> (p: ParallelDemosaic)
        ensures
            p.spec_tile_size() == tile_size,
            p.spec_overlap() == overlap,
            p.spec_algorithm() == DemosaicAlgorithm::Bilinear,
    {
        ParallelDemosaic { tile_size, overlap, algorithm: DemosaicAlgorithm::Bilinear }
    }

    /// The same processor with another reconstruction.
    pub fn with_algorithm(self, algorithm: DemosaicAlgorithm) -> (p: ParallelDemosaic)
        ensures
            p.spec_tile_size() == self.spec_tile_size(),
            p.spec_overlap() == self.spec_overlap(),
            p.spec_algorithm() == algorithm,
    {
        ParallelDemosaic { tile_size: self.tile_size, overlap: self.overlap, algorithm }
    }

    /// Whether the overlap reaches as far as the reconstruction looks: one
    /// sample.  With it, the black ring of every tile weighs nothing in the
    /// blend and its neighbours show through; with less, the rings show as
    /// a black grid in the image.
    pub fn overlap_covers_ring(&self) -> (covers: bool)
        ensures
            covers == (self.spec_overlap() >= INTERPOLATION_RADIUS),
    {
        self.overlap >= INTERPOLATION_RADIUS
    }

    /// Side of a tile's core, in samples.
    #[verifier::when_used_as_spec(spec_tile_size)]
    pub fn tile_size(&self) -> (n: usize)
        ensures
            n == self.spec_tile_size(),
    {
        self.tile_size
    }

    /// Width of the band that neighbouring tiles share.
    #[verifier::when_used_as_spec(spec_overlap)]
    pub fn overlap(&self) -> (n: usize)
        ensures
            n == self.spec_overlap(),
    {
        self.overlap
    }

    /// The reconstruction that runs on each tile.
    #[verifier::when_used_as_spec(spec_algorithm)]
    pub fn algorithm(&self) -> (a: DemosaicAlgorithm)
        ensures
            a == self.spec_algorithm(),
    {
        self.algorithm
    }
}

impl Default for ParallelDemosaic {
    /// Tiles of 512 samples with an overlap of 16, reconstructed bilinearly.
    fn default() -> (p: ParallelDemosaic)
        ensures
            p.spec_tile_size() == DEFAULT_TILE_SIZE,
            p.spec_overlap() == DEFAULT_OVERLAP,
            p.spec_algorithm() == DemosaicAlgorithm::Bilinear,
    {
        ParallelDemosaic {
            tile_size: DEFAULT_TILE_SIZE,
            overlap: DEFAULT_OVERLAP,
            algorithm: DemosaicAlgorithm::Bilinear,
        }
    }
}

} // verus!
