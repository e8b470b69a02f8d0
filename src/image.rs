//! Single-channel 8-bit images.
use vstd::prelude::*;

verus! {

/// A grid of 8-bit intensity samples, stored row by row.
///
/// `pixels[row][col]` is the sample at column `col` of row `row`; every row
/// holds `width` samples, and the height is the number of rows.
#[derive(Clone, Debug)]
pub struct GrayImage {
    pub width: usize,
    pub pixels: Vec<Vec<u8>>,
}

/// The largest sample value: foreground in masks and binarized images.
pub const WHITE: u8 = 255;

impl GrayImage {
    /// Every row has `width` samples, and both dimensions fit in `i32`.
    pub open spec fn wf(&self) -> bool {
        &&& self.width <= i32::MAX
        &&& self.pixels@.len() <= i32::MAX
        &&& forall|r: int| 0 <= r < self.pixels@.len() ==> #[trigger] self.pixels@[r]@.len() == self.width
    }

    pub open spec fn height_spec(&self) -> int {
        self.pixels@.len() as int
    }

    /// The sample at (`row`, `col`).
    pub open spec fn at(&self, row: int, col: int) -> u8 {
        self.pixels@[row]@[col]
    }

    /// Both images have the same width and height.
    pub open spec fn same_dims(&self, other: &GrayImage) -> bool {
        self.width == other.width && self.height_spec() == other.height_spec()
    }

    /// Tells whether every row has `width` samples and both dimensions fit
    /// in `i32`.
    pub fn is_well_formed(&self) -> (ok: bool)
        ensures
            ok == self.wf(),
    {
        if self.width > i32::MAX as usize || self.pixels.len() > i32::MAX as usize {
            return false;
        }
        let mut r: usize = 0;
        while r < self.pixels.len()
            invariant
                r <= self.pixels@.len(),
                forall|i: int| 0 <= i < r ==> #[trigger] self.pixels@[i]@.len() == self.width,
            decreases self.pixels@.len() - r,
        {
            if self.pixels[r].len() != self.width {
                return false;
            }
            r = r + 1;
        }
        true
    }

    pub fn height(&self) -> (h: usize)
        ensures
            h == self.height_spec(),
    {
        self.pixels.len()
    }

    /// An image of the given dimensions with every sample equal to `value`.
    pub fn filled(width: usize, height: usize, value: u8) -> (img: GrayImage)
        requires
            width <= i32::MAX,
            height <= i32::MAX,
        ensures
            img.wf(),
            img.width == width,
            img.height_spec() == height,
            forall|r: int, c: int|
                0 <= r < height && 0 <= c < width ==> #[trigger] img.at(r, c) == value,
    {
        let mut pixels: Vec<Vec<u8>> = Vec::new();
        let mut r: usize = 0;
        while r < height
            invariant
                r <= height,
                pixels@.len() == r,
                forall|i: int| 0 <= i < r ==> #[trigger] pixels@[i]@.len() == width,
                forall|i: int, c: int|
                    0 <= i < r && 0 <= c < width ==> #[trigger] pixels@[i]@[c] == value,
            decreases height - r,
        {
            pixels.push(constant_row(width, value));
            r = r + 1;
        }
        GrayImage { width, pixels }
    }
}

/// A sample binarized at `thresh`: foreground above it, background otherwise.
pub open spec fn bw(a: u8, thresh: u8) -> u8 {
    if a > thresh { WHITE } else { 0 }
}

/// The image binarized at `thresh`: each sample above `thresh` becomes
/// `WHITE`, every other sample 0.
pub fn to_bw(m: &GrayImage, thresh: u8) -> (out: GrayImage)
    requires
        m.wf(),
    ensures
        out.wf(),
        out.same_dims(m),
        forall|r: int, c: int| 0 <= r < m.height_spec() && 0 <= c < m.width ==>
            #[trigger] out.at(r, c) == bw(m.at(r, c), thresh),
{
    let mut pixels: Vec<Vec<u8>> = Vec::new();
    let mut r: usize = 0;
    while r < m.pixels.len()
        invariant
            m.wf(),
            r <= m.pixels@.len(),
            pixels@.len() == r,
            forall|i: int| 0 <= i < r ==> #[trigger] pixels@[i]@.len() == m.width,
            forall|i: int, c: int| 0 <= i < r && 0 <= c < m.width ==>
                #[trigger] pixels@[i]@[c] == bw(m.at(i, c), thresh),
        decreases m.pixels@.len() - r,
    {
        let src = &m.pixels[r];
        let mut line: Vec<u8> = Vec::new();
        let mut c: usize = 0;
        while c < m.width
            invariant
                m.wf(),
                r < m.pixels@.len(),
                src@ == m.pixels@[r as int]@,
                c <= m.width,
                line@.len() == c,
                forall|k: int| 0 <= k < c ==> #[trigger] line@[k] == bw(m.at(r as int, k), thresh),
            decreases m.width - c,
        {
            let v = src[c];
            line.push(if v > thresh { WHITE } else { 0 });
            c = c + 1;
        }
        pixels.push(line);
        r = r + 1;
    }
    GrayImage { width: m.width, pixels }
}

impl GrayImage {
    /// The top-left `width` by `height` part of the image.
    pub fn crop(&self, width: usize, height: usize) -> (out: GrayImage)
        requires
            self.wf(),
            width <= self.width,
            height <= self.height_spec(),
        ensures
            out.wf(),
            out.width == width,
            out.height_spec() == height,
            forall|r: int, c: int| 0 <= r < height && 0 <= c < width ==>
                #[trigger] out.at(r, c) == self.at(r, c),
    {
        let mut pixels: Vec<Vec<u8>> = Vec::new();
        let mut r: usize = 0;
        while r < height
            invariant
                self.wf(),
                width <= self.width,
                height <= self.height_spec(),
                r <= height,
                pixels@.len() == r,
                forall|i: int| 0 <= i < r ==> #[trigger] pixels@[i]@.len() == width,
                forall|i: int, c: int| 0 <= i < r && 0 <= c < width ==>
                    #[trigger] pixels@[i]@[c] == self.at(i, c),
            decreases height - r,
        {
            let src = &self.pixels[r];
            let mut line: Vec<u8> = Vec::new();
            let mut c: usize = 0;
            while c < width
                invariant
                    self.wf(),
                    width <= self.width,
                    r < self.pixels@.len(),
                    src@ == self.pixels@[r as int]@,
                    c <= width,
                    line@.len() == c,
                    forall|k: int| 0 <= k < c ==> #[trigger] line@[k] == self.at(r as int, k),
                decreases width - c,
            {
                line.push(src[c]);
                c = c + 1;
            }
            pixels.push(line);
            r = r + 1;
        }
        GrayImage { width, pixels }
    }
}

/// A row of `width` samples, all equal to `value`.
pub fn constant_row(width: usize, value: u8) -> (row: Vec<u8>)
    ensures
        row@.len() == width,
        forall|c: int| 0 <= c < width ==> #[trigger] row@[c] == value,
{
    let mut row: Vec<u8> = Vec::new();
    let mut c: usize = 0;
    while c < width
        invariant
            c <= width,
            row@.len() == c,
            forall|i: int| 0 <= i < c ==> #[trigger] row@[i] == value,
        decreases width - c,
    {
        row.push(value);
        c = c + 1;
    }
    row
}

} // verus!
