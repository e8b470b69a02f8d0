//! Sheet templates, their regions of interest, and the detection masks made
//! from them.
use vstd::prelude::*;

use crate::error::{AlignError, ConfigIssue, MissingFields};
use crate::image::{constant_row, GrayImage, WHITE};

verus! {

pub open spec fn max_int(a: int, b: int) -> int {
    if a >= b { a } else { b }
}

pub open spec fn min_int(a: int, b: int) -> int {
    if a <= b { a } else { b }
}

/// A rectangle in pixel coordinates: columns `x .. x + width`, rows
/// `y .. y + height`.
#[derive(Clone, Copy, Debug, Default, PartialEq, Eq, Structural)]
pub struct Rect_ {
    pub x: i32,
    pub y: i32,
    pub width: i32,
    pub height: i32,
}

impl Rect_ {
    /// The pixel at (`col`, `row`) lies in the rectangle.
    pub open spec fn covers(self, col: int, row: int) -> bool {
        &&& self.x <= col < self.x + self.width
        &&& self.y <= row < self.y + self.height
    }

    /// Origin and size are non-negative.
    pub open spec fn is_valid(self) -> bool {
        self.x >= 0 && self.y >= 0 && self.width >= 0 && self.height >= 0
    }

    /// The rectangle grown by `bx` on the left and right and by `by` above
    /// and below, with its origin moved no further than 0.
    pub open spec fn enlarged(self, bx: int, by: int) -> Rect_ {
        let x = max_int(self.x - bx, 0);
        let y = max_int(self.y - by, 0);
        Rect_ {
            x: x as i32,
            y: y as i32,
            width: (self.x + self.width + bx - x) as i32,
            height: (self.y + self.height + by - y) as i32,
        }
    }

    /// The enlarged rectangle's size fits in `i32`.
    pub open spec fn enlarge_fits(self, bx: int, by: int) -> bool {
        let x = max_int(self.x - bx, 0);
        let y = max_int(self.y - by, 0);
        &&& self.x - bx <= i32::MAX
        &&& self.y - by <= i32::MAX
        &&& i32::MIN <= self.x + self.width + bx - x <= i32::MAX
        &&& i32::MIN <= self.y + self.height + by - y <= i32::MAX
    }

    /// The rectangle cut at column `xm` and row `ym`: origin and far edge are
    /// each lowered to those bounds where they pass them.
    pub open spec fn fitted(self, xm: int, ym: int) -> Rect_ {
        let x = min_int(xm, self.x as int);
        let y = min_int(ym, self.y as int);
        Rect_ {
            x: x as i32,
            y: y as i32,
            width: (min_int(self.x + self.width, xm) - x) as i32,
            height: (min_int(self.y + self.height, ym) - y) as i32,
        }
    }

    /// The cut rectangle's size fits in `i32`.
    pub open spec fn fit_fits(self, xm: int, ym: int) -> bool {
        &&& i32::MIN <= min_int(self.x + self.width, xm) - min_int(xm, self.x as int) <= i32::MAX
        &&& i32::MIN <= min_int(self.y + self.height, ym) - min_int(ym, self.y as int) <= i32::MAX
    }

    pub fn new(x: i32, y: i32, width: i32, height: i32) -> (r: Self)
        ensures
            r == (Rect_ { x, y, width, height }),
    {
        Rect_ { x, y, width, height }
    }

    /// Truncates the rectangle to end at column `xm` and row `ym` at the
    /// latest. A negative origin is left as it is.
    pub fn fit_within(&self, xm: i32, ym: i32) -> (r: Self)
        requires
            self.fit_fits(xm as int, ym as int),
        ensures
            r == self.fitted(xm as int, ym as int),
    {
        let x: i32 = if xm <= self.x { xm } else { self.x };
        let y: i32 = if ym <= self.y { ym } else { self.y };
        let right: i64 = self.x as i64 + self.width as i64;
        let bottom: i64 = self.y as i64 + self.height as i64;
        let right_cut: i64 = if right <= xm as i64 { right } else { xm as i64 };
        let bottom_cut: i64 = if bottom <= ym as i64 { bottom } else { ym as i64 };
        Rect_ { x, y, width: (right_cut - x as i64) as i32, height: (bottom_cut - y as i64) as i32 }
    }

    /// Grows the rectangle by `by_x` on both sides and by `by_y` above and
    /// below; the origin stops at 0.
    pub fn enlarge(&self, by_x: i32, by_y: i32) -> (r: Self)
        requires
            self.enlarge_fits(by_x as int, by_y as int),
        ensures
            r == self.enlarged(by_x as int, by_y as int),
    {
        let left: i64 = self.x as i64 - by_x as i64;
        let top: i64 = self.y as i64 - by_y as i64;
        let x: i64 = if left >= 0 { left } else { 0 };
        let y: i64 = if top >= 0 { top } else { 0 };
        let rightmost: i64 = self.x as i64 + self.width as i64 + by_x as i64;
        let bottommost: i64 = self.y as i64 + self.height as i64 + by_y as i64;
        Rect_ { x: x as i32, y: y as i32, width: (rightmost - x) as i32, height: (bottommost - y) as i32 }
    }
}

/// Growing a rectangle by non-negative margins keeps every pixel that it
/// covered: the grown rectangle covers a superset of its pixels.
pub proof fn lemma_enlarge_is_superset(r: Rect_, mx: i32, my: i32)
    requires
        mx >= 0,
        my >= 0,
        r.enlarge_fits(mx as int, my as int),
    ensures
        forall|col: int, row: int| 0 <= col && 0 <= row && r.covers(col, row)
            ==> #[trigger] r.enlarged(mx as int, my as int).covers(col, row),
{
}

/// Cutting a rectangle of non-negative size whose origin lies inside a
/// `w` by `h` image never gives a negative width or height.
pub proof fn lemma_fit_within_nonnegative(r: Rect_, w: i32, h: i32)
    requires
        0 <= r.x < w,
        0 <= r.y < h,
        r.width >= 0,
        r.height >= 0,
    ensures
        r.fit_fits(w as int, h as int),
        r.fitted(w as int, h as int).width >= 0,
        r.fitted(w as int, h as int).height >= 0,
{
}

/// The pixel at (`col`, `row`) lies in region `r` grown by `bx` on the left
/// and right and by `by` above and below.
pub open spec fn region_covers(r: Rect_, bx: int, by: int, col: int, row: int) -> bool {
    &&& r.x - bx <= col < r.x + r.width + bx
    &&& r.y - by <= row < r.y + r.height + by
}

/// The value of a detection mask at (`col`, `row`): foreground where some
/// grown region covers the pixel, background elsewhere.
pub open spec fn mask_value(regions: Seq<Rect_>, bx: int, by: int, col: int, row: int) -> u8 {
    if exists|k: int| 0 <= k < regions.len() && #[trigger] region_covers(regions[k], bx, by, col, row) {
        WHITE
    } else {
        0
    }
}

/// Some rectangle among the first `n` covers (`col`, `row`).
pub open spec fn covered_by_any(rects: Seq<Rect_>, n: int, col: int, row: int) -> bool {
    exists|j: int| 0 <= j < n && #[trigger] rects[j].covers(col, row)
}

/// The first region, if any, that cannot be grown by (`bx`, `by`): one
/// with a negative origin or size, or whose grown extent leaves `i32`.
pub open spec fn first_invalid_region(regions: Seq<Rect_>, bx: int, by: int, i: int) -> bool {
    &&& 0 <= i < regions.len()
    &&& !(regions[i].is_valid() && regions[i].enlarge_fits(bx, by))
    &&& forall|j: int| 0 <= j < i ==> (#[trigger] regions[j]).is_valid() && regions[j].enlarge_fits(bx, by)
}

/// Within an image of `cols` by `rows`, a region grown and then cut to the
/// image covers exactly the pixels that the grown region covers.
proof fn lemma_clipped_covers(r: Rect_, bx: int, by: int, cols: int, rows: int, col: int, row: int)
    requires
        r.is_valid(),
        r.enlarge_fits(bx, by),
        0 <= col < cols <= i32::MAX,
        0 <= row < rows <= i32::MAX,
    ensures
        r.enlarged(bx, by).fitted(cols, rows).covers(col, row) == region_covers(r, bx, by, col, row),
{
}

/// A region grown and then cut to an image of `cols` by `rows` fits in
/// `i32` and lies within the image's columns.
proof fn lemma_clipped_fits(r: Rect_, bx: int, by: int, cols: int, rows: int)
    requires
        r.is_valid(),
        r.enlarge_fits(bx, by),
        0 <= cols <= i32::MAX,
        0 <= rows <= i32::MAX,
    ensures
        r.enlarged(bx, by).fit_fits(cols, rows),
        r.enlarged(bx, by).fitted(cols, rows).x >= 0,
        r.enlarged(bx, by).fitted(cols, rows).x + r.enlarged(bx, by).fitted(cols, rows).width <= cols,
{
}

/// The template of a sheet: its name, the path of its blank image, and the
/// regions where keypoints are searched for.
#[derive(Clone, Debug)]
pub struct SheetData {
    pub name: String,
    pub img_path: String,
    pub detect_rects: Vec<Rect_>,
}

impl SheetData {
    /// The mask of `img`'s dimensions that is foreground on the sheet's
    /// regions, unenlarged.
    pub fn gen_detect_mask(&self, img: &GrayImage) -> (res: Result<GrayImage, AlignError>)
        requires
            img.wf(),
        ensures
            mask_result(self.detect_rects@, 0, 0, img, res),
    {
        self.gen_enlarged_detect_mask(img, 0, 0)
    }

    /// The mask of `img`'s dimensions that is foreground on the sheet's
    /// regions, each grown by `by_x` on the left and right and by `by_y`
    /// above and below, and cut to the image.
    pub fn gen_enlarged_detect_mask(&self, img: &GrayImage, by_x: i32, by_y: i32) -> (res: Result<GrayImage, AlignError>)
        requires
            img.wf(),
        ensures
            mask_result(self.detect_rects@, by_x as int, by_y as int, img, res),
    {
        let regions = &self.detect_rects;
        if regions.len() == 0 {
            return Err(AlignError::ConfigError(ConfigIssue::NoRegions));
        }
        let cols: usize = img.width;
        let rows: usize = img.height();
        let mut clipped: Vec<Rect_> = Vec::new();
        let mut i: usize = 0;
        while i < regions.len()
            invariant
                i <= regions@.len(),
                regions@ == self.detect_rects@,
                cols == img.width,
                rows == img.height_spec(),
                img.wf(),
                clipped@.len() == i,
                forall|j: int| 0 <= j < i ==> (#[trigger] regions@[j]).is_valid() && regions@[j].enlarge_fits(by_x as int, by_y as int),
                forall|j: int| 0 <= j < i ==> #[trigger] clipped@[j] == regions@[j].enlarged(by_x as int, by_y as int).fitted(cols as int, rows as int),
            decreases regions@.len() - i,
        {
            let r = regions[i];
            if !region_fits(&r, by_x, by_y) {
                let e = AlignError::ConfigError(ConfigIssue::InvalidRegion { index: i });
                assert(first_invalid_region(regions@, by_x as int, by_y as int, i as int));
                return Err(e);
            }
            proof {
                lemma_clipped_fits(r, by_x as int, by_y as int, cols as int, rows as int);
            }
            clipped.push(r.enlarge(by_x, by_y).fit_within(cols as i32, rows as i32));
            i = i + 1;
        }
        let mut pixels: Vec<Vec<u8>> = Vec::new();
        let mut row: usize = 0;
        while row < rows
            invariant
                row <= rows,
                regions@ == self.detect_rects@,
                cols == img.width,
                rows == img.height_spec(),
                img.wf(),
                clipped@.len() == regions@.len(),
                forall|j: int| 0 <= j < regions@.len() ==> (#[trigger] regions@[j]).is_valid() && regions@[j].enlarge_fits(by_x as int, by_y as int),
                forall|j: int| 0 <= j < regions@.len() ==> #[trigger] clipped@[j] == regions@[j].enlarged(by_x as int, by_y as int).fitted(cols as int, rows as int),
                pixels@.len() == row,
                forall|r: int| 0 <= r < row ==> #[trigger] pixels@[r]@.len() == cols,
                forall|r: int, c: int| 0 <= r < row && 0 <= c < cols ==>
                    #[trigger] pixels@[r]@[c] == mask_value(regions@, by_x as int, by_y as int, c, r),
            decreases rows - row,
        {
            proof {
                assert forall|j: int| 0 <= j < clipped@.len() implies (#[trigger] clipped@[j]).x >= 0 && clipped@[j].x + clipped@[j].width <= cols by {
                    lemma_clipped_fits(regions@[j], by_x as int, by_y as int, cols as int, rows as int);
                }
            }
            let line = paint_row(&clipped, cols, row);
            proof {
                assert forall|c: int| 0 <= c < cols implies #[trigger] line@[c] == mask_value(regions@, by_x as int, by_y as int, c, row as int) by {
                    if covered_by_any(clipped@, clipped@.len() as int, c, row as int) {
                        let j = choose|j: int| 0 <= j < clipped@.len() && #[trigger] clipped@[j].covers(c, row as int);
                        lemma_clipped_covers(regions@[j], by_x as int, by_y as int, cols as int, rows as int, c, row as int);
                        assert(region_covers(regions@[j], by_x as int, by_y as int, c, row as int));
                    }
                    if exists|k: int| 0 <= k < regions@.len() && #[trigger] region_covers(regions@[k], by_x as int, by_y as int, c, row as int) {
                        let k = choose|k: int| 0 <= k < regions@.len() && #[trigger] region_covers(regions@[k], by_x as int, by_y as int, c, row as int);
                        lemma_clipped_covers(regions@[k], by_x as int, by_y as int, cols as int, rows as int, c, row as int);
                        assert(clipped@[k].covers(c, row as int));
                    }
                }
            }
            pixels.push(line);
            row = row + 1;
        }
        Ok(GrayImage { width: cols, pixels })
    }
}

/// Collects the fields of a sheet template one at a time.
pub struct SheetDataBuilder {
    name: Option<String>,
    img_path: Option<String>,
    detect_rects: Option<Vec<Rect_>>,
}

impl SheetDataBuilder {
    pub closed spec fn name_spec(&self) -> Option<Seq<char>> {
        match self.name {
            Some(n) => Some(n@),
            None => None,
        }
    }

    pub closed spec fn img_path_spec(&self) -> Option<Seq<char>> {
        match self.img_path {
            Some(p) => Some(p@),
            None => None,
        }
    }

    pub closed spec fn detect_rects_spec(&self) -> Option<Seq<Rect_>> {
        match self.detect_rects {
            Some(d) => Some(d@),
            None => None,
        }
    }

    /// A builder with no field set.
    pub fn new() -> (b: Self)
        ensures
            b.name_spec() is None,
            b.img_path_spec() is None,
            b.detect_rects_spec() is None,
    {
        SheetDataBuilder { name: None, img_path: None, detect_rects: None }
    }

    /// A builder with only the name set.
    pub fn new_with_name(n: &str) -> (b: Self)
        ensures
            b.name_spec() == Some(n@),
            b.img_path_spec() is None,
            b.detect_rects_spec() is None,
    {
        SheetDataBuilder::new().name(n.to_owned())
    }

    pub fn name(self, n: String) -> (b: Self)
        ensures
            b.name_spec() == Some(n@),
            b.img_path_spec() == self.img_path_spec(),
            b.detect_rects_spec() == self.detect_rects_spec(),
    {
        SheetDataBuilder { name: Some(n), ..self }
    }

    pub fn img_path(self, p: String) -> (b: Self)
        ensures
            b.name_spec() == self.name_spec(),
            b.img_path_spec() == Some(p@),
            b.detect_rects_spec() == self.detect_rects_spec(),
    {
        SheetDataBuilder { img_path: Some(p), ..self }
    }

    pub fn detect_rects(self, dr: Vec<Rect_>) -> (b: Self)
        ensures
            b.name_spec() == self.name_spec(),
            b.img_path_spec() == self.img_path_spec(),
            b.detect_rects_spec() == Some(dr@),
    {
        SheetDataBuilder { detect_rects: Some(dr), ..self }
    }

    /// The template, when every field was set; otherwise a configuration
    /// error that lists each missing field.
    pub fn build(self) -> (res: Result<SheetData, AlignError>)
        ensures
            match res {
                Ok(d) => {
                    &&& self.name_spec() == Some(d.name@)
                    &&& self.img_path_spec() == Some(d.img_path@)
                    &&& self.detect_rects_spec() == Some(d.detect_rects@)
                },
                Err(e) => {
                    &&& (self.name_spec() is None || self.img_path_spec() is None || self.detect_rects_spec() is None)
                    &&& e == AlignError::ConfigError(ConfigIssue::Missing(MissingFields {
                        name: self.name_spec() is None,
                        img_path: self.img_path_spec() is None,
                        detect_rects: self.detect_rects_spec() is None,
                    }))
                },
            },
    {
        match (self.name, self.img_path, self.detect_rects) {
            (Some(name), Some(img_path), Some(detect_rects)) => Ok(SheetData { name, img_path, detect_rects }),
            (name, img_path, detect_rects) => Err(AlignError::ConfigError(ConfigIssue::Missing(MissingFields {
                name: name.is_none(),
                img_path: img_path.is_none(),
                detect_rects: detect_rects.is_none(),
            }))),
        }
    }
}

/// What a mask request over `regions`, grown by (`bx`, `by`), gives for
/// `img`: no regions is a configuration error, so is the first region that
/// cannot be grown; otherwise the mask of `img`'s dimensions.
pub open spec fn mask_result(regions: Seq<Rect_>, bx: int, by: int, img: &GrayImage, res: Result<GrayImage, AlignError>) -> bool {
    match res {
        Ok(m) => {
            &&& regions.len() > 0
            &&& forall|j: int| 0 <= j < regions.len() ==> (#[trigger] regions[j]).is_valid() && regions[j].enlarge_fits(bx, by)
            &&& m.wf()
            &&& m.same_dims(img)
            &&& forall|r: int, c: int| 0 <= r < img.height_spec() && 0 <= c < img.width ==>
                    #[trigger] m.at(r, c) == mask_value(regions, bx, by, c, r)
        },
        Err(e) => {
            ||| regions.len() == 0 && e == AlignError::ConfigError(ConfigIssue::NoRegions)
            ||| regions.len() > 0 && exists|i: int| #[trigger] first_invalid_region(regions, bx, by, i)
                    && e == AlignError::ConfigError(ConfigIssue::InvalidRegion { index: i as usize })
        },
    }
}

/// Tells whether `r` has a non-negative origin and size and can be grown by
/// (`by_x`, `by_y`) within `i32`.
fn region_fits(r: &Rect_, by_x: i32, by_y: i32) -> (ok: bool)
    ensures
        ok == (r.is_valid() && r.enlarge_fits(by_x as int, by_y as int)),
{
    if r.x < 0 || r.y < 0 || r.width < 0 || r.height < 0 {
        return false;
    }
    let left: i64 = r.x as i64 - by_x as i64;
    let top: i64 = r.y as i64 - by_y as i64;
    let x: i64 = if left >= 0 { left } else { 0 };
    let y: i64 = if top >= 0 { top } else { 0 };
    let w: i64 = r.x as i64 + r.width as i64 + by_x as i64 - x;
    let h: i64 = r.y as i64 + r.height as i64 + by_y as i64 - y;
    left <= i32::MAX as i64 && top <= i32::MAX as i64
        && i32::MIN as i64 <= w && w <= i32::MAX as i64
        && i32::MIN as i64 <= h && h <= i32::MAX as i64
}

/// Row `row` of a mask `cols` wide: foreground where some rectangle of
/// `rects` covers the pixel.
fn paint_row(rects: &Vec<Rect_>, cols: usize, row: usize) -> (line: Vec<u8>)
    requires
        cols <= i32::MAX,
        row <= i32::MAX,
        forall|j: int| 0 <= j < rects@.len() ==> (#[trigger] rects@[j]).x >= 0 && rects@[j].x + rects@[j].width <= cols,
    ensures
        line@.len() == cols,
        forall|c: int| 0 <= c < cols ==> #[trigger] line@[c] == if covered_by_any(rects@, rects@.len() as int, c, row as int) { WHITE } else { 0u8 },
{
    let mut line = constant_row(cols, 0);
    let mut k: usize = 0;
    while k < rects.len()
        invariant
            k <= rects@.len(),
            cols <= i32::MAX,
            row <= i32::MAX,
            forall|j: int| 0 <= j < rects@.len() ==> (#[trigger] rects@[j]).x >= 0 && rects@[j].x + rects@[j].width <= cols,
            line@.len() == cols,
            forall|c: int| 0 <= c < cols ==> #[trigger] line@[c] == if covered_by_any(rects@, k as int, c, row as int) { WHITE } else { 0u8 },
        decreases rects@.len() - k,
    {
        let r = rects[k];
        if r.y as i64 <= row as i64 && (row as i64) < r.y as i64 + r.height as i64 {
            let end: i64 = r.x as i64 + r.width as i64;
            let mut c: usize = r.x as usize;
            while (c as i64) < end
                invariant
                    r == rects@[k as int],
                    r.y <= row < r.y + r.height,
                    end == r.x + r.width,
                    end <= cols,
                    r.x <= c,
                    c <= end || c == r.x,
                    line@.len() == cols,
                    forall|c2: int| 0 <= c2 < cols ==> #[trigger] line@[c2] == if covered_by_any(rects@, k as int, c2, row as int) || (r.x <= c2 < c) { WHITE } else { 0u8 },
                decreases end - c,
            {
                line.set(c, WHITE);
                c = c + 1;
            }
        }
        proof {
            assert forall|c2: int| 0 <= c2 < cols implies #[trigger] line@[c2] == if covered_by_any(rects@, k + 1, c2, row as int) { WHITE } else { 0u8 } by {
                if rects@[k as int].covers(c2, row as int) {
                    assert(covered_by_any(rects@, k + 1, c2, row as int));
                }
                if covered_by_any(rects@, k + 1, c2, row as int) && !covered_by_any(rects@, k as int, c2, row as int) {
                    let j = choose|j: int| 0 <= j < k + 1 && #[trigger] rects@[j].covers(c2, row as int);
                    assert(j == k);
                }
                if covered_by_any(rects@, k as int, c2, row as int) {
                    let j = choose|j: int| 0 <= j < k && #[trigger] rects@[j].covers(c2, row as int);
                    assert(0 <= j < k + 1);
                }
            }
        }
        k = k + 1;
    }
    line
}

} // verus!
