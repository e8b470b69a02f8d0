use amaruensis::diff::DiffMode;
use amaruensis::error::{AlignError, ConfigIssue, GeometryIssue, ImageSide, MatchIssue};
use amaruensis::image::GrayImage;
use amaruensis::matching::{Correspondence, Ratio};
use amaruensis::paper_pair::PaperPair;
use amaruensis::pipeline::{do_main, select_matches, Action, Config, Event, MatchStrategy, Session, Stage};
use amaruensis::sheet::{Rect_, SheetData};

fn c(source_index: usize, target_index: usize, distance: u32) -> Correspondence {
    Correspondence { source_index, target_index, distance }
}

fn pair() -> PaperPair {
    let sheet_data = SheetData {
        name: "s".to_string(),
        img_path: "s.png".to_string(),
        detect_rects: vec![Rect_::new(1, 1, 2, 2)],
    };
    PaperPair { source: GrayImage::filled(6, 4, 200), sheet_data, scanned: GrayImage::filled(6, 4, 200) }
}

fn config(strategy: MatchStrategy, ksizes: Vec<i32>) -> Config {
    Config { strategy, margin_x: 1, margin_y: 1, diff_mode: DiffMode::Signed, denoise_ksizes: ksizes }
}

fn started(strategy: MatchStrategy, ksizes: Vec<i32>) -> Session {
    let (s, a) = do_main(pair(), config(strategy, ksizes)).unwrap();
    match a {
        Action::DetectKeypoints { side, mask } => {
            assert_eq!(side, ImageSide::Source);
            assert_eq!(mask.pixels[1], vec![0, 255, 255, 0, 0, 0]);
            assert_eq!(mask.pixels[0], vec![0; 6]);
        }
        other => panic!("unexpected {:?}", other),
    }
    s
}

fn four_lists() -> Vec<Vec<Correspondence>> {
    (0..4).map(|i| vec![c(i, i, 10 + i as u32), c(i + 1, i, 100)]).collect()
}

#[test]
fn full_run_reaches_background_diff() {
    let mut s = started(MatchStrategy::RatioTest(Ratio { num: 7, den: 10 }), vec![5, 3]);
    match s.step(Event::Keypoints { count: 5 }) {
        Action::DetectKeypoints { side, mask } => {
            assert_eq!(side, ImageSide::Scanned);
            assert_eq!(mask.pixels[0], vec![255, 255, 255, 255, 0, 0]);
        }
        other => panic!("unexpected {:?}", other),
    }
    match s.step(Event::Keypoints { count: 5 }) {
        Action::FindNeighbours { neighbours } => assert_eq!(neighbours, 2),
        other => panic!("unexpected {:?}", other),
    }
    match s.step(Event::Neighbours(four_lists())) {
        Action::EstimateHomography { matches } => assert_eq!(matches.len(), 4),
        other => panic!("unexpected {:?}", other),
    }
    assert!(matches!(s.step(Event::Homography { found: true }), Action::WarpScanned));
    let d = match s.step(Event::Warped(GrayImage::filled(6, 4, 200))) {
        Action::MedianBlur { image, ksize } => {
            assert_eq!(ksize, 5);
            image
        }
        other => panic!("unexpected {:?}", other),
    };
    assert!(d.pixels.iter().all(|r| r.iter().all(|v| *v == 0)));
    let d = match s.step(Event::Blurred(d)) {
        Action::MedianBlur { image, ksize } => {
            assert_eq!(ksize, 3);
            image
        }
        other => panic!("unexpected {:?}", other),
    };
    match s.step(Event::Blurred(d)) {
        Action::Done { diff } => assert!(diff.pixels.iter().all(|r| r.iter().all(|v| *v == 0))),
        other => panic!("unexpected {:?}", other),
    }
    assert_eq!(s.stage, Stage::Finished);
}

#[test]
fn zero_keypoints_is_detection_error() {
    let mut s = started(MatchStrategy::TopN(30), vec![]);
    match s.step(Event::Keypoints { count: 0 }) {
        Action::Failed(e) => assert_eq!(e, AlignError::DetectionError(ImageSide::Source)),
        other => panic!("unexpected {:?}", other),
    }
}

#[test]
fn unexpected_event_changes_nothing() {
    let mut s = started(MatchStrategy::TopN(30), vec![]);
    assert!(matches!(s.step(Event::Homography { found: true }), Action::Unexpected));
    assert_eq!(s.stage, Stage::SourceKeypoints);
}

#[test]
fn degenerate_homography_is_geometry_error() {
    let mut s = started(MatchStrategy::TopN(30), vec![]);
    s.step(Event::Keypoints { count: 5 });
    assert!(matches!(s.step(Event::Keypoints { count: 5 }), Action::FindNeighbours { neighbours: 1 }));
    s.step(Event::Neighbours(four_lists()));
    match s.step(Event::Homography { found: false }) {
        Action::Failed(e) => assert_eq!(e, AlignError::GeometryError(GeometryIssue::DegenerateConfiguration)),
        other => panic!("unexpected {:?}", other),
    }
}

#[test]
fn warped_image_of_other_size_is_config_error() {
    let mut s = started(MatchStrategy::TopN(30), vec![]);
    s.step(Event::Keypoints { count: 5 });
    s.step(Event::Keypoints { count: 5 });
    s.step(Event::Neighbours(four_lists()));
    s.step(Event::Homography { found: true });
    match s.step(Event::Warped(GrayImage::filled(5, 4, 0))) {
        Action::Failed(e) => assert_eq!(e, AlignError::ConfigError(ConfigIssue::DimensionMismatch)),
        other => panic!("unexpected {:?}", other),
    }
}

#[test]
fn no_kernel_sizes_ends_with_diff() {
    let mut s = started(MatchStrategy::TopN(30), vec![]);
    s.step(Event::Keypoints { count: 5 });
    s.step(Event::Keypoints { count: 5 });
    s.step(Event::Neighbours(four_lists()));
    s.step(Event::Homography { found: true });
    match s.step(Event::Warped(GrayImage::filled(6, 4, 150))) {
        Action::Done { diff } => assert_eq!(diff.pixels[3], vec![50; 6]),
        other => panic!("unexpected {:?}", other),
    }
}

#[test]
fn do_main_rejects_bad_kernel_and_empty_sheet() {
    let e = do_main(pair(), config(MatchStrategy::TopN(3), vec![5, 0])).err().unwrap();
    assert_eq!(e, AlignError::ConfigError(ConfigIssue::InvalidKernel { index: 1 }));
    let mut p = pair();
    p.sheet_data.detect_rects.clear();
    let e = do_main(p, config(MatchStrategy::TopN(3), vec![])).err().unwrap();
    assert_eq!(e, AlignError::ConfigError(ConfigIssue::NoRegions));
}

#[test]
fn select_matches_errors() {
    let top = MatchStrategy::TopN(30);
    assert_eq!(
        select_matches(top, &four_lists(), 0, 5).unwrap_err(),
        AlignError::MatchError(MatchIssue::EmptyDescriptors(ImageSide::Source))
    );
    assert_eq!(
        select_matches(top, &four_lists(), 5, 0).unwrap_err(),
        AlignError::MatchError(MatchIssue::EmptyDescriptors(ImageSide::Scanned))
    );
    assert_eq!(
        select_matches(top, &four_lists(), 4, 5).unwrap_err(),
        AlignError::MatchError(MatchIssue::BadNeighbours { query: 3 })
    );
    let ratio = MatchStrategy::RatioTest(Ratio { num: 1, den: 20 });
    assert_eq!(
        select_matches(ratio, &four_lists(), 5, 5).unwrap_err(),
        AlignError::MatchError(MatchIssue::NoneSurvived { candidates: 4 })
    );
    assert_eq!(
        select_matches(MatchStrategy::TopN(3), &four_lists(), 5, 5).unwrap_err(),
        AlignError::GeometryError(GeometryIssue::InsufficientCorrespondences { found: 3 })
    );
    let short = vec![vec![c(0, 0, 1)]];
    assert_eq!(
        select_matches(MatchStrategy::RatioTest(Ratio { num: 7, den: 10 }), &short, 5, 5).unwrap_err(),
        AlignError::MatchError(MatchIssue::BadNeighbours { query: 0 })
    );
}

#[test]
fn select_matches_top_n_orders_by_distance() {
    let lists: Vec<Vec<Correspondence>> = vec![vec![c(0, 0, 9)], vec![c(1, 1, 2)], vec![c(2, 2, 5)], vec![c(3, 3, 1)], vec![c(4, 4, 7)]];
    let m = select_matches(MatchStrategy::TopN(4), &lists, 5, 5).unwrap();
    assert_eq!(m, vec![c(3, 3, 1), c(1, 1, 2), c(2, 2, 5), c(4, 4, 7)]);
}
