//! The pair of a blank sheet image and its filled-in scan.
use vstd::prelude::*;

use crate::image::{bw, to_bw, GrayImage};
use crate::sheet::{Rect_, SheetData};

verus! {

/// What to do with both images after loading them.
#[derive(Clone, Copy, Debug, PartialEq, Eq, Structural)]
pub enum ImgPreProcess {
    /// Keep the grayscale.
    NoAction,
    /// Binarize at the given threshold.
    ToBW(u8),
}

impl ImgPreProcess {
    /// The sample that step turns `a` into.
    pub open spec fn pixel(self, a: u8) -> u8 {
        match self {
            ImgPreProcess::NoAction => a,
            ImgPreProcess::ToBW(t) => bw(a, t),
        }
    }
}

/// `out` is `m` with the step applied to each sample.
pub open spec fn processed(m: &GrayImage, step: ImgPreProcess, out: &GrayImage) -> bool {
    &&& out.wf()
    &&& out.same_dims(m)
    &&& forall|r: int, c: int| 0 <= r < m.height_spec() && 0 <= c < m.width ==>
            #[trigger] out.at(r, c) == step.pixel(m.at(r, c))
}

/// Applies `step` to one image.
pub fn preprocess(m: &GrayImage, step: ImgPreProcess) -> (out: GrayImage)
    requires
        m.wf(),
    ensures
        processed(m, step, &out),
{
    match step {
        ImgPreProcess::NoAction => m.crop(m.width, m.height()),
        ImgPreProcess::ToBW(t) => to_bw(m, t),
    }
}

/// `out` is the top-left part of `m`, `width` by `height`.
pub open spec fn cropped(m: &GrayImage, width: int, height: int, out: &GrayImage) -> bool {
    &&& out.wf()
    &&& out.width == width
    &&& out.height_spec() == height
    &&& forall|r: int, c: int| 0 <= r < height && 0 <= c < width ==> #[trigger] out.at(r, c) == m.at(r, c)
}

/// Pair of the blank document and the scanned (filled) document.
#[derive(Clone, Debug)]
pub struct PaperPair {
    pub source: GrayImage,
    pub sheet_data: SheetData,
    pub scanned: GrayImage,
}

impl PaperPair {
    pub open spec fn wf(&self) -> bool {
        self.source.wf() && self.scanned.wf()
    }

    /// A new pair with `step` applied to both images.
    pub fn apply(&self, step: ImgPreProcess) -> (p: Self)
        requires
            self.wf(),
        ensures
            processed(&self.source, step, &p.source),
            processed(&self.scanned, step, &p.scanned),
            p.sheet_data.name@ == self.sheet_data.name@,
            p.sheet_data.img_path@ == self.sheet_data.img_path@,
            p.sheet_data.detect_rects@ == self.sheet_data.detect_rects@,
    {
        let source = preprocess(&self.source, step);
        let scanned = preprocess(&self.scanned, step);
        let sheet_data = SheetData {
            name: self.sheet_data.name.clone(),
            img_path: self.sheet_data.img_path.clone(),
            detect_rects: copy_rects(&self.sheet_data.detect_rects),
        };
        PaperPair { source, sheet_data, scanned }
    }

    /// Applies `step` to both images in place.
    pub fn apply_inplace(&mut self, step: ImgPreProcess)
        requires
            old(self).wf(),
        ensures
            processed(&old(self).source, step, &final(self).source),
            processed(&old(self).scanned, step, &final(self).scanned),
            final(self).sheet_data == old(self).sheet_data,
    {
        self.source = preprocess(&self.source, step);
        self.scanned = preprocess(&self.scanned, step);
    }

    /// The pair with `step` applied to both images.
    pub fn apply_into(self, step: ImgPreProcess) -> (p: Self)
        requires
            self.wf(),
        ensures
            processed(&self.source, step, &p.source),
            processed(&self.scanned, step, &p.scanned),
            p.sheet_data == self.sheet_data,
    {
        let source = preprocess(&self.source, step);
        let scanned = preprocess(&self.scanned, step);
        PaperPair { source, sheet_data: self.sheet_data, scanned }
    }

    /// Crops both images to their common top-left part: as many rows as the
    /// shorter one has and as many columns as the narrower one.
    pub fn fit_sizes(&mut self)
        requires
            old(self).wf(),
        ensures
            cropped(
                &old(self).source,
                vstd::math::min(old(self).source.width as int, old(self).scanned.width as int),
                vstd::math::min(old(self).source.height_spec(), old(self).scanned.height_spec()),
                &final(self).source,
            ),
            cropped(
                &old(self).scanned,
                vstd::math::min(old(self).source.width as int, old(self).scanned.width as int),
                vstd::math::min(old(self).source.height_spec(), old(self).scanned.height_spec()),
                &final(self).scanned,
            ),
            final(self).sheet_data == old(self).sheet_data,
    {
        let the_row: usize = if self.source.height() <= self.scanned.height() {
            self.source.height()
        } else {
            self.scanned.height()
        };
        let the_col: usize = if self.source.width <= self.scanned.width {
            self.source.width
        } else {
            self.scanned.width
        };
        self.source = self.source.crop(the_col, the_row);
        self.scanned = self.scanned.crop(the_col, the_row);
    }
}

/// A copy of a list of rectangles.
fn copy_rects(v: &Vec<Rect_>) -> (out: Vec<Rect_>)
    ensures
        out@ == v@,
{
    let mut out: Vec<Rect_> = Vec::new();
    let mut i: usize = 0;
    while i < v.len()
        invariant
            i <= v@.len(),
            out@ == v@.subrange(0, i as int),
        decreases v@.len() - i,
    {
        out.push(v[i]);
        i = i + 1;
    }
    out
}

} // verus!
