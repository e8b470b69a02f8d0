//! The difference between the source image and the aligned scan.
use vstd::prelude::*;

use crate::error::{AlignError, ConfigIssue};
use crate::image::{bw, GrayImage};

verus! {

/// The threshold at which `ThresholdAndAbsDiff` binarizes its inputs.
pub const BLACK_WHITE_THRESH: u8 = 128;

/// `a - b`, or 0 where `b` is brighter.
pub open spec fn sat_sub(a: u8, b: u8) -> u8 {
    if a >= b { (a - b) as u8 } else { 0 }
}

/// `|a - b|`.
pub open spec fn abs_diff(a: u8, b: u8) -> u8 {
    if a >= b { (a - b) as u8 } else { (b - a) as u8 }
}

/// How two samples at the same place are compared.
#[derive(Clone, Copy, Debug, PartialEq, Eq, Structural)]
pub enum DiffMode {
    /// `|source - scanned|`: the sign is lost.
    Absolute,
    /// `source - scanned`, 0 where the scan is brighter: only what the scan
    /// darkened remains.
    Signed,
    /// Both samples binarized at `threshold`, then `|source - scanned|`.
    Binarized { threshold: u8 },
}

impl DiffMode {
    /// The difference sample for source sample `a` and scanned sample `b`.
    pub open spec fn pixel(self, a: u8, b: u8) -> u8 {
        match self {
            DiffMode::Absolute => abs_diff(a, b),
            DiffMode::Signed => sat_sub(a, b),
            DiffMode::Binarized { threshold } => abs_diff(bw(a, threshold), bw(b, threshold)),
        }
    }

    fn pixel_exec(&self, a: u8, b: u8) -> (d: u8)
        ensures
            d == self.pixel(a, b),
    {
        match self {
            DiffMode::Absolute => if a >= b { a - b } else { b - a },
            DiffMode::Signed => if a >= b { a - b } else { 0 },
            DiffMode::Binarized { threshold } => {
                let x: u8 = if a > *threshold { 255 } else { 0 };
                let y: u8 = if b > *threshold { 255 } else { 0 };
                if x >= y { x - y } else { y - x }
            },
        }
    }
}

/// What a difference of `source` and `scanned` under `mode` gives: the
/// sample-wise difference when the two share their dimensions, a
/// configuration error otherwise.
pub open spec fn diff_result(source: &GrayImage, scanned: &GrayImage, mode: DiffMode, res: Result<GrayImage, AlignError>) -> bool {
    match res {
        Ok(d) => {
            &&& source.same_dims(scanned)
            &&& d.wf()
            &&& d.same_dims(source)
            &&& forall|r: int, c: int| 0 <= r < source.height_spec() && 0 <= c < source.width ==>
                    #[trigger] d.at(r, c) == mode.pixel(source.at(r, c), scanned.at(r, c))
        },
        Err(e) => !source.same_dims(scanned) && e == AlignError::ConfigError(ConfigIssue::DimensionMismatch),
    }
}

/// Two bit-identical images have an all-background difference, whichever
/// way the samples are compared.
pub proof fn lemma_identical_images_diff_to_background(img: &GrayImage, mode: DiffMode, d: GrayImage)
    requires
        diff_result(img, img, mode, Ok(d)),
    ensures
        forall|r: int, c: int| 0 <= r < d.height_spec() && 0 <= c < d.width ==> #[trigger] d.at(r, c) == 0,
{
    assert forall|r: int, c: int| 0 <= r < d.height_spec() && 0 <= c < d.width implies #[trigger] d.at(r, c) == 0 by {
        assert(d.at(r, c) == mode.pixel(img.at(r, c), img.at(r, c)));
    }
}

/// The sample-wise difference of two images of the same dimensions.
pub fn diff_images(source: &GrayImage, scanned: &GrayImage, mode: DiffMode) -> (res: Result<GrayImage, AlignError>)
    requires
        source.wf(),
        scanned.wf(),
    ensures
        diff_result(source, scanned, mode, res),
{
    if source.width != scanned.width || source.height() != scanned.height() {
        return Err(AlignError::ConfigError(ConfigIssue::DimensionMismatch));
    }
    let width = source.width;
    let mut pixels: Vec<Vec<u8>> = Vec::new();
    let mut r: usize = 0;
    while r < source.pixels.len()
        invariant
            source.wf(),
            scanned.wf(),
            source.same_dims(scanned),
            width == source.width,
            r <= source.pixels@.len(),
            pixels@.len() == r,
            forall|i: int| 0 <= i < r ==> #[trigger] pixels@[i]@.len() == width,
            forall|i: int, c: int| 0 <= i < r && 0 <= c < width ==>
                #[trigger] pixels@[i]@[c] == mode.pixel(source.at(i, c), scanned.at(i, c)),
        decreases source.pixels@.len() - r,
    {
        let a = &source.pixels[r];
        let b = &scanned.pixels[r];
        let mut line: Vec<u8> = Vec::new();
        let mut c: usize = 0;
        while c < width
            invariant
                source.wf(),
                scanned.wf(),
                source.same_dims(scanned),
                width == source.width,
                r < source.pixels@.len(),
                a@ == source.pixels@[r as int]@,
                b@ == scanned.pixels@[r as int]@,
                c <= width,
                line@.len() == c,
                forall|k: int| 0 <= k < c ==> #[trigger] line@[k] == mode.pixel(source.at(r as int, k), scanned.at(r as int, k)),
            decreases width - c,
        {
            line.push(mode.pixel_exec(a[c], b[c]));
            c = c + 1;
        }
        pixels.push(line);
        r = r + 1;
    }
    Ok(GrayImage { width, pixels })
}

/// A way of taking the difference of the source image and the aligned scan.
pub trait DiffMethod {
    /// How the samples are compared.
    spec fn mode(&self) -> DiffMode;

    fn diff(&self, source: &GrayImage, scanned: &GrayImage) -> (res: Result<GrayImage, AlignError>)
        requires
            source.wf(),
            scanned.wf(),
        ensures
            diff_result(source, scanned, self.mode(), res),
    ;
}

/// A median kernel size: odd and positive.
pub open spec fn valid_ksize(k: i32) -> bool {
    k >= 1 && k % 2 == 1
}

/// The first kernel size, if any, that is not odd and positive.
pub open spec fn first_invalid_ksize(ksizes: Seq<i32>, i: int) -> bool {
    &&& 0 <= i < ksizes.len()
    &&& !valid_ksize(ksizes[i])
    &&& forall|j: int| 0 <= j < i ==> valid_ksize(#[trigger] ksizes[j])
}

/// Subtraction (`source - scanned`, 0 where the scan is brighter), then
/// median filters with the given kernel sizes, in order, each applied to the
/// result of the one before.
///
/// `diff` gives the subtraction; the filter passes run on the image
/// backend, one per entry of `ksizes`.
pub struct DiffThenMedianBlur {
    ksizes: Vec<i32>,
}

impl DiffThenMedianBlur {
    pub closed spec fn ksizes_spec(&self) -> Seq<i32> {
        self.ksizes@
    }

    /// The method with these kernel sizes, when each is odd and positive.
    pub fn use_ksizes(ksizes: Vec<i32>) -> (res: Result<Self, AlignError>)
        ensures
            match res {
                Ok(m) => m.ksizes_spec() == ksizes@ && forall|j: int| 0 <= j < ksizes@.len() ==> valid_ksize(#[trigger] ksizes@[j]),
                Err(e) => exists|i: int| #[trigger] first_invalid_ksize(ksizes@, i)
                    && e == AlignError::ConfigError(ConfigIssue::InvalidKernel { index: i as usize }),
            },
    {
        let mut i: usize = 0;
        while i < ksizes.len()
            invariant
                i <= ksizes@.len(),
                forall|j: int| 0 <= j < i ==> valid_ksize(#[trigger] ksizes@[j]),
            decreases ksizes@.len() - i,
        {
            let k = ksizes[i];
            if k < 1 || k % 2 != 1 {
                assert(first_invalid_ksize(ksizes@, i as int));
                return Err(AlignError::ConfigError(ConfigIssue::InvalidKernel { index: i }));
            }
            i = i + 1;
        }
        Ok(DiffThenMedianBlur { ksizes })
    }

    /// The kernel sizes of the filter passes, in order.
    pub fn ksizes(&self) -> (k: &Vec<i32>)
        ensures
            k@ == self.ksizes_spec(),
    {
        &self.ksizes
    }
}

impl DiffMethod for DiffThenMedianBlur {
    open spec fn mode(&self) -> DiffMode {
        DiffMode::Signed
    }

    fn diff(&self, source: &GrayImage, scanned: &GrayImage) -> (res: Result<GrayImage, AlignError>) {
        diff_images(source, scanned, DiffMode::Signed)
    }
}

/// The absolute difference.
pub struct PlainAbsDiff;

impl DiffMethod for PlainAbsDiff {
    open spec fn mode(&self) -> DiffMode {
        DiffMode::Absolute
    }

    fn diff(&self, source: &GrayImage, scanned: &GrayImage) -> (res: Result<GrayImage, AlignError>) {
        diff_images(source, scanned, DiffMode::Absolute)
    }
}

/// The absolute difference of the two images binarized at
/// `BLACK_WHITE_THRESH`.
pub struct ThresholdAndAbsDiff;

impl DiffMethod for ThresholdAndAbsDiff {
    open spec fn mode(&self) -> DiffMode {
        DiffMode::Binarized { threshold: BLACK_WHITE_THRESH }
    }

    fn diff(&self, source: &GrayImage, scanned: &GrayImage) -> (res: Result<GrayImage, AlignError>) {
        diff_images(source, scanned, DiffMode::Binarized { threshold: BLACK_WHITE_THRESH })
    }
}

} // verus!
