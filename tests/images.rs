use amaruensis::diff::{diff_images, DiffMethod, DiffMode, DiffThenMedianBlur, PlainAbsDiff, ThresholdAndAbsDiff};
use amaruensis::error::{AlignError, ConfigIssue};
use amaruensis::image::{to_bw, GrayImage};
use amaruensis::paper_pair::{preprocess, ImgPreProcess, PaperPair};
use amaruensis::sheet::SheetData;

fn img(rows: Vec<Vec<u8>>) -> GrayImage {
    GrayImage { width: rows[0].len(), pixels: rows }
}

#[test]
fn to_bw_thresholds_strictly_above() {
    let m = img(vec![vec![0, 128, 129, 255]]);
    assert_eq!(to_bw(&m, 128).pixels, vec![vec![0, 0, 255, 255]]);
}

#[test]
fn crop_keeps_top_left() {
    let m = img(vec![vec![1, 2, 3], vec![4, 5, 6]]);
    let c = m.crop(2, 1);
    assert_eq!(c.width, 2);
    assert_eq!(c.pixels, vec![vec![1, 2]]);
}

#[test]
fn well_formedness_check() {
    assert!(img(vec![vec![1, 2], vec![3, 4]]).is_well_formed());
    assert!(!GrayImage { width: 2, pixels: vec![vec![1, 2], vec![3]] }.is_well_formed());
}

#[test]
fn diff_modes_exact_values() {
    let a = img(vec![vec![200, 10, 130]]);
    let b = img(vec![vec![50, 60, 120]]);
    assert_eq!(diff_images(&a, &b, DiffMode::Absolute).unwrap().pixels, vec![vec![150, 50, 10]]);
    assert_eq!(diff_images(&a, &b, DiffMode::Signed).unwrap().pixels, vec![vec![150, 0, 10]]);
    assert_eq!(
        diff_images(&a, &b, DiffMode::Binarized { threshold: 128 }).unwrap().pixels,
        vec![vec![255, 0, 255]]
    );
}

#[test]
fn diff_methods_match_modes() {
    let a = img(vec![vec![200, 10]]);
    let b = img(vec![vec![50, 60]]);
    assert_eq!(PlainAbsDiff.diff(&a, &b).unwrap().pixels, vec![vec![150, 50]]);
    assert_eq!(ThresholdAndAbsDiff.diff(&a, &b).unwrap().pixels, vec![vec![255, 0]]);
    let m = DiffThenMedianBlur::use_ksizes(vec![5, 5, 5]).unwrap();
    assert_eq!(m.ksizes(), &vec![5, 5, 5]);
    assert_eq!(m.diff(&a, &b).unwrap().pixels, vec![vec![150, 0]]);
}

#[test]
fn even_kernel_is_config_error() {
    let e = DiffThenMedianBlur::use_ksizes(vec![3, 4]).err().unwrap();
    assert_eq!(e, AlignError::ConfigError(ConfigIssue::InvalidKernel { index: 1 }));
}

#[test]
fn diff_of_mismatched_dims_is_config_error() {
    let a = img(vec![vec![1, 2]]);
    let b = img(vec![vec![1, 2, 3]]);
    assert_eq!(diff_images(&a, &b, DiffMode::Absolute).unwrap_err(), AlignError::ConfigError(ConfigIssue::DimensionMismatch));
}

#[test]
fn identical_images_diff_to_background() {
    let a = img(vec![vec![3, 250, 128], vec![0, 77, 255]]);
    for mode in [DiffMode::Absolute, DiffMode::Signed, DiffMode::Binarized { threshold: 100 }] {
        let d = diff_images(&a, &a, mode).unwrap();
        assert!(d.pixels.iter().all(|r| r.iter().all(|v| *v == 0)));
    }
}

fn pair(source: GrayImage, scanned: GrayImage) -> PaperPair {
    let sheet_data = SheetData { name: "s".to_string(), img_path: "s.png".to_string(), detect_rects: vec![] };
    PaperPair { source, sheet_data, scanned }
}

#[test]
fn fit_sizes_crops_both_to_common_part() {
    let mut p = pair(img(vec![vec![1, 2, 3], vec![4, 5, 6]]), img(vec![vec![7, 8], vec![9, 10], vec![11, 12]]));
    p.fit_sizes();
    assert_eq!((p.source.height(), p.source.width), (2, 2));
    assert_eq!((p.scanned.height(), p.scanned.width), (2, 2));
    assert_eq!(p.source.pixels, vec![vec![1, 2], vec![4, 5]]);
    assert_eq!(p.scanned.pixels, vec![vec![7, 8], vec![9, 10]]);
}

#[test]
fn apply_binarizes_both_images() {
    let p = pair(img(vec![vec![100, 200]]), img(vec![vec![250, 5]]));
    let q = p.apply(ImgPreProcess::ToBW(128));
    assert_eq!(q.source.pixels, vec![vec![0, 255]]);
    assert_eq!(q.scanned.pixels, vec![vec![255, 0]]);
    let r = p.apply_into(ImgPreProcess::NoAction);
    assert_eq!(r.source.pixels, vec![vec![100, 200]]);
    let mut s = pair(img(vec![vec![100, 200]]), img(vec![vec![250, 5]]));
    s.apply_inplace(ImgPreProcess::ToBW(150));
    assert_eq!(s.source.pixels, vec![vec![0, 255]]);
    assert_eq!(preprocess(&img(vec![vec![9]]), ImgPreProcess::ToBW(8)).pixels, vec![vec![255]]);
}
