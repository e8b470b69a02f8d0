//! The decisions of an alignment run.
//!
//! A run is a `Session`: `do_main` starts it, and each call of `step` takes
//! the outcome of the work that the previous `Action` asked for (keypoint
//! detection, nearest-neighbour search, homography fitting, warping, median
//! filtering, all done by an image backend) and says what to do next.
use vstd::prelude::*;

use crate::diff::{diff_images, diff_result, valid_ksize, first_invalid_ksize, DiffMode};
use crate::error::{AlignError, ConfigIssue, GeometryIssue, ImageSide, MatchIssue};
use crate::image::GrayImage;
use crate::matching::{
    gather_good_matches_lowe, gather_good_matches_take_n, is_leading, is_top_n, lemma_ratio_test_keeps_iff, picks,
    lists_view, ratio_filter, Correspondence, Ratio,
};
use crate::paper_pair::PaperPair;
use crate::sheet::mask_result;

verus! {

/// The fewest point pairs that a homography can be fitted to.
pub const MIN_CORRESPONDENCES: usize = 4;

/// How candidate correspondences are accepted.
#[derive(Clone, Copy, Debug, PartialEq, Eq, Structural)]
pub enum MatchStrategy {
    /// The given number of nearest-neighbour matches with the least
    /// distances.
    TopN(usize),
    /// Each query's best neighbour, when Lowe's ratio test with this
    /// threshold accepts it.
    RatioTest(Ratio),
}

impl MatchStrategy {
    /// How many nearest neighbours each query needs.
    pub open spec fn neighbours(self) -> usize {
        match self {
            MatchStrategy::TopN(_) => 1,
            MatchStrategy::RatioTest(_) => 2,
        }
    }
}

/// The options of a run.
pub struct Config {
    pub strategy: MatchStrategy,
    /// How far the regions are grown, left and right, for the scanned
    /// image's mask.
    pub margin_x: i32,
    /// How far the regions are grown, above and below, for the scanned
    /// image's mask.
    pub margin_y: i32,
    pub diff_mode: DiffMode,
    /// Median kernel sizes, applied in order to the difference.
    pub denoise_ksizes: Vec<i32>,
}

/// A neighbour list of a query is usable: it has at least `k` entries, and
/// each names an existing keypoint in both images.
pub open spec fn list_ok(l: Seq<Correspondence>, k: int, n_source: int, n_scanned: int) -> bool {
    &&& l.len() >= k
    &&& forall|j: int| 0 <= j < l.len() ==> (#[trigger] l[j]).source_index < n_source && l[j].target_index < n_scanned
}

/// The first query, if any, whose neighbour list is not usable.
pub open spec fn first_bad_list(m: Seq<Seq<Correspondence>>, k: int, n_source: int, n_scanned: int, i: int) -> bool {
    &&& 0 <= i < m.len()
    &&& !list_ok(m[i], k, n_source, n_scanned)
    &&& forall|j: int| 0 <= j < i ==> list_ok(#[trigger] m[j], k, n_source, n_scanned)
}

/// The best neighbour of each query.
pub open spec fn first_neighbours(m: Seq<Seq<Correspondence>>) -> Seq<Correspondence> {
    m.map_values(|l: Seq<Correspondence>| l[0])
}

/// The correspondences that `strategy` accepts among usable neighbour lists.
pub open spec fn accepted(strategy: MatchStrategy, m: Seq<Seq<Correspondence>>, out: Seq<Correspondence>) -> bool {
    match strategy {
        MatchStrategy::TopN(n) => is_top_n(first_neighbours(m), n as int, out),
        MatchStrategy::RatioTest(t) => out == ratio_filter(m, t),
    }
}

/// What `select_matches` gives for the nearest-neighbour lists `m` (one per
/// query from the scanned image) over `n_source` source and `n_scanned`
/// scanned keypoints.
pub open spec fn selection_result(
    strategy: MatchStrategy,
    m: Seq<Seq<Correspondence>>,
    n_source: int,
    n_scanned: int,
    res: Result<Vec<Correspondence>, AlignError>,
) -> bool {
    let k = strategy.neighbours() as int;
    let all_ok = forall|i: int| 0 <= i < m.len() ==> list_ok(#[trigger] m[i], k, n_source, n_scanned);
    match res {
        Ok(v) => {
            &&& n_source > 0 && n_scanned > 0
            &&& all_ok
            &&& accepted(strategy, m, v@)
            &&& v@.len() >= MIN_CORRESPONDENCES
            &&& forall|j: int| 0 <= j < v@.len() ==> (#[trigger] v@[j]).source_index < n_source && v@[j].target_index < n_scanned
        },
        Err(e) => {
            ||| n_source == 0 && e == AlignError::MatchError(MatchIssue::EmptyDescriptors(ImageSide::Source))
            ||| n_source > 0 && n_scanned == 0 && e == AlignError::MatchError(MatchIssue::EmptyDescriptors(ImageSide::Scanned))
            ||| n_source > 0 && n_scanned > 0 && exists|i: int| #[trigger] first_bad_list(m, k, n_source, n_scanned, i)
                    && e == AlignError::MatchError(MatchIssue::BadNeighbours { query: i as usize })
            ||| n_source > 0 && n_scanned > 0 && all_ok && exists|out: Seq<Correspondence>| {
                    &&& accepted(strategy, m, out)
                    &&& out.len() == 0
                    &&& e == AlignError::MatchError(MatchIssue::NoneSurvived { candidates: m.len() as usize })
                }
            ||| n_source > 0 && n_scanned > 0 && all_ok && exists|out: Seq<Correspondence>| {
                    &&& accepted(strategy, m, out)
                    &&& 0 < out.len() < MIN_CORRESPONDENCES
                    &&& e == AlignError::GeometryError(GeometryIssue::InsufficientCorrespondences { found: out.len() as usize })
                }
        },
    }
}

/// The correspondences to fit a homography to: the nearest-neighbour lists
/// `neighbours` (one per query from the scanned image, into the source
/// image's descriptors) filtered by `strategy`.
pub fn select_matches(
    strategy: MatchStrategy,
    neighbours: &Vec<Vec<Correspondence>>,
    n_source: usize,
    n_scanned: usize,
) -> (res: Result<Vec<Correspondence>, AlignError>)
    ensures
        selection_result(strategy, lists_view(neighbours@), n_source as int, n_scanned as int, res),
{
    let ghost m = lists_view(neighbours@);
    if n_source == 0 {
        return Err(AlignError::MatchError(MatchIssue::EmptyDescriptors(ImageSide::Source)));
    }
    if n_scanned == 0 {
        return Err(AlignError::MatchError(MatchIssue::EmptyDescriptors(ImageSide::Scanned)));
    }
    let k: usize = match strategy {
        MatchStrategy::TopN(_) => 1,
        MatchStrategy::RatioTest(_) => 2,
    };
    let mut i: usize = 0;
    while i < neighbours.len()
        invariant
            m == lists_view(neighbours@),
            n_source > 0,
            n_scanned > 0,
            k == strategy.neighbours(),
            i <= neighbours@.len(),
            forall|j: int| 0 <= j < i ==> list_ok(#[trigger] m[j], k as int, n_source as int, n_scanned as int),
        decreases neighbours@.len() - i,
    {
        let l = &neighbours[i];
        assert(m[i as int] == l@);
        if l.len() < k {
            assert(first_bad_list(m, k as int, n_source as int, n_scanned as int, i as int));
            return Err(AlignError::MatchError(MatchIssue::BadNeighbours { query: i }));
        }
        let mut j: usize = 0;
        while j < l.len()
            invariant
                m == lists_view(neighbours@),
                n_source > 0,
                n_scanned > 0,
                k == strategy.neighbours(),
                i < neighbours@.len(),
                l@ == m[i as int],
                l@.len() >= k,
                forall|q: int| 0 <= q < i ==> list_ok(#[trigger] m[q], k as int, n_source as int, n_scanned as int),
                j <= l@.len(),
                forall|q: int| 0 <= q < j ==> (#[trigger] l@[q]).source_index < n_source && l@[q].target_index < n_scanned,
            decreases l@.len() - j,
        {
            if l[j].source_index >= n_source || l[j].target_index >= n_scanned {
                assert(!list_ok(l@, k as int, n_source as int, n_scanned as int));
                assert(first_bad_list(m, k as int, n_source as int, n_scanned as int, i as int));
                return Err(AlignError::MatchError(MatchIssue::BadNeighbours { query: i }));
            }
            j = j + 1;
        }
        i = i + 1;
    }
    let good = match strategy {
        MatchStrategy::TopN(n) => {
            let mut best: Vec<Correspondence> = Vec::new();
            let mut q: usize = 0;
            while q < neighbours.len()
                invariant
                    m == lists_view(neighbours@),
                    n_source > 0,
                    n_scanned > 0,
                    k == 1,
                    q <= neighbours@.len(),
                    forall|j: int| 0 <= j < m.len() ==> list_ok(#[trigger] m[j], k as int, n_source as int, n_scanned as int),
                    best@ == first_neighbours(m).subrange(0, q as int),
                decreases neighbours@.len() - q,
            {
                assert(list_ok(m[q as int], 1, n_source as int, n_scanned as int));
                best.push(neighbours[q][0]);
                q = q + 1;
            }
            assert(best@ =~= first_neighbours(m));
            let good = gather_good_matches_take_n(&best, n);
            proof {
                let idx = choose|idx: Seq<int>| is_leading(best@, idx) && picks(best@, idx, good@);
                assert forall|j: int| 0 <= j < good@.len() implies (#[trigger] good@[j]).source_index < n_source && good@[j].target_index < n_scanned by {
                    assert(list_ok(m[idx[j]], 1, n_source as int, n_scanned as int));
                }
            }
            good
        },
        MatchStrategy::RatioTest(t) => {
            assert forall|q: int| 0 <= q < neighbours@.len() implies (#[trigger] neighbours@[q])@.len() >= 2 by {
                assert(list_ok(m[q], 2, n_source as int, n_scanned as int));
            }
            let good = gather_good_matches_lowe(neighbours, t);
            proof {
                let kept = lemma_ratio_test_keeps_iff(m, t);
                assert forall|j: int| 0 <= j < good@.len() implies (#[trigger] good@[j]).source_index < n_source && good@[j].target_index < n_scanned by {
                    assert(good@[j] == m[kept[j]][0]);
                    assert(list_ok(m[kept[j]], 2, n_source as int, n_scanned as int));
                }
            }
            good
        },
    };
    assert(accepted(strategy, m, good@));
    if good.len() == 0 {
        return Err(AlignError::MatchError(MatchIssue::NoneSurvived { candidates: neighbours.len() }));
    }
    if good.len() < MIN_CORRESPONDENCES {
        return Err(AlignError::GeometryError(GeometryIssue::InsufficientCorrespondences { found: good.len() }));
    }
    Ok(good)
}

/// Where a run stands: what outcome it waits for.
#[derive(Clone, Copy, Debug, PartialEq, Eq, Structural)]
pub enum Stage {
    /// The number of keypoints found in the source image.
    SourceKeypoints,
    /// The number of keypoints found in the scanned image.
    ScannedKeypoints,
    /// The nearest neighbours of the scanned image's descriptors.
    Matches,
    /// Whether a homography was found.
    Homography,
    /// The scanned image warped into the source image's frame.
    Warp,
    /// The result of the median pass before kernel `next`.
    Denoise { next: usize },
    /// Nothing: the run is over.
    Finished,
}

/// The work that a run asks for next, or its end.
#[derive(Debug)]
pub enum Action {
    /// Detect keypoints and compute their descriptors in one image, only
    /// where `mask` is nonzero; answer with `Event::Keypoints`.
    DetectKeypoints { side: ImageSide, mask: GrayImage },
    /// Build a nearest-neighbour index over the source image's descriptors,
    /// and look up the `neighbours` nearest ones for each descriptor of the
    /// scanned image; answer with `Event::Neighbours`.
    FindNeighbours { neighbours: usize },
    /// Fit a homography from the source keypoints to the scanned keypoints
    /// of these correspondences with random sample consensus; answer with
    /// `Event::Homography`.
    EstimateHomography { matches: Vec<Correspondence> },
    /// Warp the scanned image into the source image's frame through the
    /// inverse of the homography; answer with `Event::Warped`.
    WarpScanned,
    /// Apply a median filter with this kernel size; answer with
    /// `Event::Blurred`.
    MedianBlur { image: GrayImage, ksize: i32 },
    /// The run is over with this difference image.
    Done { diff: GrayImage },
    /// The run is over with this error.
    Failed(AlignError),
    /// The event does not answer what the run waits for; nothing changed.
    Unexpected,
}

/// The outcome of the work that an `Action` asked for.
pub enum Event {
    Keypoints { count: usize },
    Neighbours(Vec<Vec<Correspondence>>),
    Homography { found: bool },
    Warped(GrayImage),
    Blurred(GrayImage),
}

/// One alignment run.
pub struct Session {
    pub stage: Stage,
    pub config: Config,
    pub pair: PaperPair,
    pub source_keypoints: usize,
    pub scanned_keypoints: usize,
}

impl Session {
    pub open spec fn wf(&self) -> bool {
        &&& self.pair.wf()
        &&& forall|j: int| 0 <= j < self.config.denoise_ksizes@.len() ==> valid_ksize(#[trigger] self.config.denoise_ksizes@[j])
        &&& match self.stage {
            Stage::Denoise { next } => 1 <= next <= self.config.denoise_ksizes@.len(),
            _ => true,
        }
    }
}

/// What ends a run that failed with `e`: the error, and the stage
/// `Finished`.
pub open spec fn fails(new: Session, a: Action, e: AlignError) -> bool {
    a == Action::Failed(e) && new.stage == Stage::Finished
}

/// What follows a difference image `d`: the first median pass, or the end
/// of the run when there is none.
pub open spec fn after_diff(new: Session, a: Action, ksizes: Seq<i32>, d: GrayImage, next: int) -> bool {
    if next >= ksizes.len() {
        a == (Action::Done { diff: d }) && new.stage == Stage::Finished
    } else {
        a == (Action::MedianBlur { image: d, ksize: ksizes[next] }) && new.stage == (Stage::Denoise { next: (next + 1) as usize })
    }
}

/// The step of a run from `old` to `new` on `event`, asking for `a`.
pub open spec fn stepped(old: Session, event: Event, new: Session, a: Action) -> bool {
    let c = old.config;
    let rects = old.pair.sheet_data.detect_rects@;
    match (old.stage, event) {
        (Stage::SourceKeypoints, Event::Keypoints { count }) => if count == 0 {
            fails(new, a, AlignError::DetectionError(ImageSide::Source))
        } else {
            &&& new.source_keypoints == count
            &&& match a {
                Action::DetectKeypoints { side, mask } => side == ImageSide::Scanned
                    && new.stage == Stage::ScannedKeypoints
                    && mask_result(rects, c.margin_x as int, c.margin_y as int, &old.pair.scanned, Ok(mask)),
                Action::Failed(e) => new.stage == Stage::Finished
                    && mask_result(rects, c.margin_x as int, c.margin_y as int, &old.pair.scanned, Err(e)),
                _ => false,
            }
        },
        (Stage::ScannedKeypoints, Event::Keypoints { count }) => if count == 0 {
            fails(new, a, AlignError::DetectionError(ImageSide::Scanned))
        } else {
            &&& new.scanned_keypoints == count
            &&& a == (Action::FindNeighbours { neighbours: c.strategy.neighbours() })
            &&& new.stage == Stage::Matches
        },
        (Stage::Matches, Event::Neighbours(lists)) => {
            let m = lists_view(lists@);
            match a {
                Action::EstimateHomography { matches } => new.stage == Stage::Homography
                    && selection_result(c.strategy, m, old.source_keypoints as int, old.scanned_keypoints as int, Ok(matches)),
                Action::Failed(e) => new.stage == Stage::Finished
                    && selection_result(c.strategy, m, old.source_keypoints as int, old.scanned_keypoints as int, Err(e)),
                _ => false,
            }
        },
        (Stage::Homography, Event::Homography { found }) => if found {
            a == Action::WarpScanned && new.stage == Stage::Warp
        } else {
            fails(new, a, AlignError::GeometryError(GeometryIssue::DegenerateConfiguration))
        },
        (Stage::Warp, Event::Warped(img)) => if !img.wf() {
            fails(new, a, AlignError::ConfigError(ConfigIssue::MalformedImage))
        } else if !old.pair.source.same_dims(&img) {
            fails(new, a, AlignError::ConfigError(ConfigIssue::DimensionMismatch))
        } else {
            exists|d: GrayImage| diff_result(&old.pair.source, &img, c.diff_mode, Ok(d))
                && after_diff(new, a, c.denoise_ksizes@, d, 0)
        },
        (Stage::Denoise { next }, Event::Blurred(img)) => after_diff(new, a, c.denoise_ksizes@, img, next as int),
        _ => a == Action::Unexpected && new.stage == old.stage,
    }
}

/// Starts a run on `pair`: checks the kernel sizes, then asks for the
/// keypoints of the source image within the sheet's regions.
pub fn do_main(pair: PaperPair, config: Config) -> (res: Result<(Session, Action), AlignError>)
    requires
        pair.wf(),
    ensures
        match res {
            Ok((s, a)) => {
                &&& s.wf()
                &&& s.stage == Stage::SourceKeypoints
                &&& s.pair == pair
                &&& s.config == config
                &&& forall|j: int| 0 <= j < config.denoise_ksizes@.len() ==> valid_ksize(#[trigger] config.denoise_ksizes@[j])
                &&& match a {
                    Action::DetectKeypoints { side, mask } => side == ImageSide::Source
                        && mask_result(pair.sheet_data.detect_rects@, 0, 0, &pair.source, Ok(mask)),
                    _ => false,
                }
            },
            Err(e) => {
                ||| exists|i: int| #[trigger] first_invalid_ksize(config.denoise_ksizes@, i)
                        && e == AlignError::ConfigError(ConfigIssue::InvalidKernel { index: i as usize })
                ||| (forall|j: int| 0 <= j < config.denoise_ksizes@.len() ==> valid_ksize(#[trigger] config.denoise_ksizes@[j]))
                        && mask_result(pair.sheet_data.detect_rects@, 0, 0, &pair.source, Err(e))
            },
        },
{
    let mut i: usize = 0;
    while i < config.denoise_ksizes.len()
        invariant
            i <= config.denoise_ksizes@.len(),
            forall|j: int| 0 <= j < i ==> valid_ksize(#[trigger] config.denoise_ksizes@[j]),
        decreases config.denoise_ksizes@.len() - i,
    {
        let k = config.denoise_ksizes[i];
        if k < 1 || k % 2 != 1 {
            assert(first_invalid_ksize(config.denoise_ksizes@, i as int));
            return Err(AlignError::ConfigError(ConfigIssue::InvalidKernel { index: i }));
        }
        i = i + 1;
    }
    let mask = match pair.sheet_data.gen_detect_mask(&pair.source) {
        Ok(mask) => mask,
        Err(e) => return Err(e),
    };
    let s = Session { stage: Stage::SourceKeypoints, config, pair, source_keypoints: 0, scanned_keypoints: 0 };
    Ok((s, Action::DetectKeypoints { side: ImageSide::Source, mask }))
}

impl Session {
    /// Takes the outcome of the work last asked for and says what to do
    /// next.
    pub fn step(&mut self, event: Event) -> (a: Action)
        requires
            old(self).wf(),
        ensures
            final(self).wf(),
            final(self).config == old(self).config,
            final(self).pair == old(self).pair,
            stepped(*old(self), event, *final(self), a),
    {
        match (self.stage, event) {
            (Stage::SourceKeypoints, Event::Keypoints { count }) => {
                if count == 0 {
                    self.stage = Stage::Finished;
                    return Action::Failed(AlignError::DetectionError(ImageSide::Source));
                }
                self.source_keypoints = count;
                match self.pair.sheet_data.gen_enlarged_detect_mask(&self.pair.scanned, self.config.margin_x, self.config.margin_y) {
                    Ok(mask) => {
                        self.stage = Stage::ScannedKeypoints;
                        Action::DetectKeypoints { side: ImageSide::Scanned, mask }
                    },
                    Err(e) => {
                        self.stage = Stage::Finished;
                        Action::Failed(e)
                    },
                }
            },
            (Stage::ScannedKeypoints, Event::Keypoints { count }) => {
                if count == 0 {
                    self.stage = Stage::Finished;
                    return Action::Failed(AlignError::DetectionError(ImageSide::Scanned));
                }
                self.scanned_keypoints = count;
                self.stage = Stage::Matches;
                let neighbours: usize = match self.config.strategy {
                    MatchStrategy::TopN(_) => 1,
                    MatchStrategy::RatioTest(_) => 2,
                };
                Action::FindNeighbours { neighbours }
            },
            (Stage::Matches, Event::Neighbours(lists)) => {
                match select_matches(self.config.strategy, &lists, self.source_keypoints, self.scanned_keypoints) {
                    Ok(matches) => {
                        self.stage = Stage::Homography;
                        Action::EstimateHomography { matches }
                    },
                    Err(e) => {
                        self.stage = Stage::Finished;
                        Action::Failed(e)
                    },
                }
            },
            (Stage::Homography, Event::Homography { found }) => {
                if found {
                    self.stage = Stage::Warp;
                    Action::WarpScanned
                } else {
                    self.stage = Stage::Finished;
                    Action::Failed(AlignError::GeometryError(GeometryIssue::DegenerateConfiguration))
                }
            },
            (Stage::Warp, Event::Warped(img)) => {
                if !img.is_well_formed() {
                    self.stage = Stage::Finished;
                    return Action::Failed(AlignError::ConfigError(ConfigIssue::MalformedImage));
                }
                match diff_images(&self.pair.source, &img, self.config.diff_mode) {
                    Ok(d) => self.after_diff(d, 0),
                    Err(e) => {
                        self.stage = Stage::Finished;
                        Action::Failed(e)
                    },
                }
            },
            (Stage::Denoise { next }, Event::Blurred(img)) => self.after_diff(img, next),
            _ => Action::Unexpected,
        }
    }

    /// Asks for the median pass with kernel `next`, or ends the run with `d`
    /// when no pass is left.
    fn after_diff(&mut self, d: GrayImage, next: usize) -> (a: Action)
        requires
            old(self).wf(),
            next <= old(self).config.denoise_ksizes@.len(),
        ensures
            final(self).wf(),
            final(self).config == old(self).config,
            final(self).pair == old(self).pair,
            final(self).source_keypoints == old(self).source_keypoints,
            final(self).scanned_keypoints == old(self).scanned_keypoints,
            after_diff(*final(self), a, old(self).config.denoise_ksizes@, d, next as int),
    {
        if next >= self.config.denoise_ksizes.len() {
            self.stage = Stage::Finished;
            Action::Done { diff: d }
        } else {
            let ksize = self.config.denoise_ksizes[next];
            self.stage = Stage::Denoise { next: next + 1 };
            Action::MedianBlur { image: d, ksize }
        }
    }
}

} // verus!
