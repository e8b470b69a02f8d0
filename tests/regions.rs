use amaruensis::error::{AlignError, ConfigIssue, MissingFields};
use amaruensis::image::GrayImage;
use amaruensis::sheet::{Rect_, SheetData, SheetDataBuilder};

fn sheet(rects: Vec<Rect_>) -> SheetData {
    SheetData { name: "sheet".to_string(), img_path: "blank.png".to_string(), detect_rects: rects }
}

fn covered(m: &GrayImage) -> Vec<(usize, usize)> {
    let mut out = Vec::new();
    for (r, row) in m.pixels.iter().enumerate() {
        for (c, v) in row.iter().enumerate() {
            if *v == 255 {
                out.push((r, c));
            } else {
                assert_eq!(*v, 0);
            }
        }
    }
    out
}

#[test]
fn enlarge_then_fit_example() {
    let r = Rect_::new(10, 10, 50, 30);
    let e = r.enlarge(5, 5);
    assert_eq!(e, Rect_ { x: 5, y: 5, width: 60, height: 40 });
    assert_eq!(e.fit_within(100, 100), e);
}

#[test]
fn enlarge_stops_origin_at_zero() {
    let r = Rect_::new(3, 20, 10, 10);
    assert_eq!(r.enlarge(5, 5), Rect_ { x: 0, y: 15, width: 18, height: 20 });
}

#[test]
fn enlarge_covers_every_pixel_of_region() {
    let r = Rect_::new(7, 4, 6, 3);
    let e = r.enlarge(2, 1);
    for row in 0..20 {
        for col in 0..20 {
            let inside = r.x <= col && col < r.x + r.width && r.y <= row && row < r.y + r.height;
            let inside_e = e.x <= col && col < e.x + e.width && e.y <= row && row < e.y + e.height;
            assert!(!inside || inside_e);
        }
    }
}

#[test]
fn fit_within_truncates_far_edges() {
    let r = Rect_::new(80, 90, 50, 30);
    assert_eq!(r.fit_within(100, 100), Rect_ { x: 80, y: 90, width: 20, height: 10 });
}

#[test]
fn fit_within_origin_past_bounds() {
    let r = Rect_::new(120, 10, 5, 5);
    assert_eq!(r.fit_within(100, 100), Rect_ { x: 100, y: 10, width: 0, height: 5 });
}

#[test]
fn fit_within_origin_inside_gives_nonnegative_size() {
    for x in 0..10 {
        for w in 0..15 {
            let f = Rect_::new(x, x, w, w).fit_within(10, 10);
            assert!(f.width >= 0 && f.height >= 0);
        }
    }
}

#[test]
fn mask_paints_single_region() {
    let img = GrayImage::filled(6, 5, 7);
    let m = sheet(vec![Rect_::new(1, 2, 3, 2)]).gen_detect_mask(&img).unwrap();
    assert_eq!(m.width, 6);
    assert_eq!(m.height(), 5);
    assert_eq!(covered(&m), vec![(2, 1), (2, 2), (2, 3), (3, 1), (3, 2), (3, 3)]);
}

#[test]
fn mask_regions_overlap_without_double_count() {
    let img = GrayImage::filled(4, 1, 0);
    let m = sheet(vec![Rect_::new(0, 0, 2, 1), Rect_::new(1, 0, 2, 1)]).gen_detect_mask(&img).unwrap();
    assert_eq!(m.pixels, vec![vec![255, 255, 255, 0]]);
}

#[test]
fn mask_enlarged_and_clipped() {
    let img = GrayImage::filled(5, 4, 0);
    let m = sheet(vec![Rect_::new(3, 1, 1, 1)]).gen_enlarged_detect_mask(&img, 2, 1).unwrap();
    assert_eq!(
        m.pixels,
        vec![vec![0, 255, 255, 255, 255], vec![0, 255, 255, 255, 255], vec![0, 255, 255, 255, 255], vec![0, 0, 0, 0, 0]]
    );
}

#[test]
fn mask_region_outside_image_adds_nothing() {
    let img = GrayImage::filled(3, 3, 0);
    let m = sheet(vec![Rect_::new(10, 10, 4, 4)]).gen_detect_mask(&img).unwrap();
    assert!(covered(&m).is_empty());
}

#[test]
fn mask_without_regions_is_config_error() {
    let img = GrayImage::filled(3, 3, 0);
    assert_eq!(sheet(vec![]).gen_detect_mask(&img).unwrap_err(), AlignError::ConfigError(ConfigIssue::NoRegions));
}

#[test]
fn mask_negative_origin_is_config_error() {
    let img = GrayImage::filled(3, 3, 0);
    let res = sheet(vec![Rect_::new(0, 0, 1, 1), Rect_::new(-1, 0, 2, 2)]).gen_detect_mask(&img);
    assert_eq!(res.unwrap_err(), AlignError::ConfigError(ConfigIssue::InvalidRegion { index: 1 }));
}

#[test]
fn mask_overflowing_region_is_config_error() {
    let img = GrayImage::filled(3, 3, 0);
    let res = sheet(vec![Rect_::new(0, 0, i32::MAX, 1)]).gen_enlarged_detect_mask(&img, 1, 0);
    assert_eq!(res.unwrap_err(), AlignError::ConfigError(ConfigIssue::InvalidRegion { index: 0 }));
}

#[test]
fn builder_builds_complete_template() {
    let d = SheetDataBuilder::new_with_name("form")
        .img_path("form.png".to_string())
        .detect_rects(vec![Rect_::new(1, 2, 3, 4)])
        .build()
        .unwrap();
    assert_eq!(d.name, "form");
    assert_eq!(d.img_path, "form.png");
    assert_eq!(d.detect_rects, vec![Rect_::new(1, 2, 3, 4)]);
}

#[test]
fn builder_lists_every_missing_field() {
    let e = SheetDataBuilder::new().img_path("x.png".to_string()).build().unwrap_err();
    assert_eq!(
        e,
        AlignError::ConfigError(ConfigIssue::Missing(MissingFields { name: true, img_path: false, detect_rects: true }))
    );
}
