//! The errors of an alignment run.
use vstd::prelude::*;

verus! {

/// Which of the two images of a pair a stage was working on.
#[derive(Clone, Copy, Debug, PartialEq, Eq, Structural)]
pub enum ImageSide {
    Source,
    Scanned,
}

/// The required fields that a sheet template was built without.
#[derive(Clone, Copy, Debug, PartialEq, Eq, Structural)]
pub struct MissingFields {
    pub name: bool,
    pub img_path: bool,
    pub detect_rects: bool,
}

/// What is wrong with a configuration or with the inputs of a stage.
#[derive(Clone, Copy, Debug, PartialEq, Eq, Structural)]
pub enum ConfigIssue {
    /// The sheet names no region of interest.
    NoRegions,
    /// The region at this index has a negative origin or size, or its
    /// enlarged extent does not fit in `i32`.
    InvalidRegion { index: usize },
    /// An image whose rows differ in length, or whose dimensions leave
    /// `i32`.
    MalformedImage,
    /// Two images that must share their dimensions do not.
    DimensionMismatch,
    /// A denoising kernel size is not odd and positive.
    InvalidKernel { index: usize },
    /// A sheet template lacks required fields.
    Missing(MissingFields),
}

/// Why no correspondences could be had.
#[derive(Clone, Copy, Debug, PartialEq, Eq, Structural)]
pub enum MatchIssue {
    /// One of the two descriptor sets is empty.
    EmptyDescriptors(ImageSide),
    /// Every candidate was filtered out.
    NoneSurvived { candidates: usize },
    /// The neighbour list of this query is too short, or names a keypoint
    /// that does not exist.
    BadNeighbours { query: usize },
}

/// Why no homography could be fitted.
#[derive(Clone, Copy, Debug, PartialEq, Eq, Structural)]
pub enum GeometryIssue {
    /// Fewer than four point pairs.
    InsufficientCorrespondences { found: usize },
    /// No sample of the point pairs gave a well-conditioned transform.
    DegenerateConfiguration,
}

/// The failure of one stage of an alignment run.
#[derive(Clone, Copy, Debug, PartialEq, Eq, Structural)]
pub enum AlignError {
    /// A malformed or contradictory configuration or input.
    ConfigError(ConfigIssue),
    /// No keypoint was found in this image within its mask.
    DetectionError(ImageSide),
    /// No usable correspondences.
    MatchError(MatchIssue),
    /// No homography can be fitted to the correspondences.
    GeometryError(GeometryIssue),
}

} // verus!
