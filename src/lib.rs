//! Alignment of a blank reference sheet with its filled-in scan, and the
//! difference between them inside the sheet's regions of interest.
//!
//! `sheet` holds the templates and the detection masks made from their
//! regions, `matching` the acceptance of candidate correspondences, `image`,
//! `diff` and `paper_pair` the sample-wise work on images, and `pipeline`
//! the decisions of a run, whose image work an image backend performs.
pub mod diff;
pub mod error;
pub mod image;
pub mod matching;
pub mod paper_pair;
pub mod pipeline;
pub mod sheet;
