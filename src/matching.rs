//! Acceptance of candidate correspondences between the source image's
//! descriptors (which the nearest-neighbour index is built from) and the
//! scanned image's descriptors (which query it).
use vstd::prelude::*;

verus! {

/// A candidate pairing of one keypoint in each image.
///
/// `source_index` is the position of the keypoint in the source image's
/// keypoint list, `target_index` its position in the scanned image's list.
/// `distance` is the distance between the two descriptors (for binary
/// descriptors, their Hamming distance): lower is better.
#[derive(Clone, Copy, Debug, PartialEq, Eq, Structural)]
pub struct Correspondence {
    pub source_index: usize,
    pub target_index: usize,
    pub distance: u32,
}

/// The rational number `num / den`.
#[derive(Clone, Copy, Debug, PartialEq, Eq, Structural)]
pub struct Ratio {
    pub num: u32,
    pub den: u32,
}

/// The entry at `i` comes before the entry at `j`: its distance is smaller,
/// or the distances are equal and it stands earlier.
pub open spec fn precedes(s: Seq<Correspondence>, i: int, j: int) -> bool {
    s[i].distance < s[j].distance || (s[i].distance == s[j].distance && i < j)
}

/// `idx` lists the positions of the first `idx.len()` entries of `s` in the
/// order of `precedes`: its positions are in range and in that order, and
/// every other position of `s` comes after all of them.
pub open spec fn is_leading(s: Seq<Correspondence>, idx: Seq<int>) -> bool {
    &&& forall|k: int| 0 <= k < idx.len() ==> 0 <= #[trigger] idx[k] < s.len()
    &&& forall|k1: int, k2: int| 0 <= k1 < k2 < idx.len() ==> precedes(s, #[trigger] idx[k1], #[trigger] idx[k2])
    &&& forall|j: int| 0 <= j < s.len() ==> #[trigger] listed(idx, j) || after_all(s, idx, j)
}

/// Position `j` occurs in `idx`.
pub open spec fn listed(idx: Seq<int>, j: int) -> bool {
    exists|k: int| 0 <= k < idx.len() && #[trigger] idx[k] == j
}

/// Position `j` comes after every position in `idx`.
pub open spec fn after_all(s: Seq<Correspondence>, idx: Seq<int>, j: int) -> bool {
    forall|k: int| 0 <= k < idx.len() ==> precedes(s, #[trigger] idx[k], j)
}

/// Position `j` occurs in `ord`.
pub open spec fn holds_position(ord: Seq<usize>, j: int) -> bool {
    exists|k: int| 0 <= k < ord.len() && #[trigger] ord[k] == j
}

/// `out` holds the entries of `s` at the positions `idx`, in that order.
pub open spec fn picks(s: Seq<Correspondence>, idx: Seq<int>, out: Seq<Correspondence>) -> bool {
    &&& out.len() == idx.len()
    &&& forall|k: int| 0 <= k < idx.len() ==> #[trigger] out[k] == s[idx[k]]
}

/// `out` is the first `n` entries of `s` (all of them when `s` is shorter)
/// after a stable sort by distance.
pub open spec fn is_top_n(s: Seq<Correspondence>, n: int, out: Seq<Correspondence>) -> bool {
    &&& out.len() == if n <= s.len() { n } else { s.len() as int }
    &&& exists|idx: Seq<int>| is_leading(s, idx) && picks(s, idx, out)
}

/// The best of two neighbours passes the ratio test: its distance is below
/// `t` times the second's, that is `best * t.den < t.num * second`.
pub open spec fn passes_ratio(best: Correspondence, second: Correspondence, t: Ratio) -> bool {
    best.distance * t.den < t.num * second.distance
}

/// The best neighbour of each query whose two nearest neighbours pass the
/// ratio test, in the order of the queries.
pub open spec fn ratio_filter(m: Seq<Seq<Correspondence>>, t: Ratio) -> Seq<Correspondence>
    decreases m.len(),
{
    if m.len() == 0 {
        Seq::empty()
    } else {
        let prev = ratio_filter(m.drop_last(), t);
        let last = m.last();
        if passes_ratio(last[0], last[1], t) {
            prev.push(last[0])
        } else {
            prev
        }
    }
}

/// The views of a list of neighbour lists.
pub open spec fn lists_view(m: Seq<Vec<Correspondence>>) -> Seq<Seq<Correspondence>> {
    m.map_values(|v: Vec<Correspondence>| v@)
}

/// The top-`n` selection of a list with at least `n` entries has exactly `n`
/// entries, in non-decreasing order of distance, and it is the true top `n`:
/// it is made of distinct entries of the list, and no entry left out is
/// closer than any entry kept.
pub proof fn lemma_top_n_is_best(s: Seq<Correspondence>, n: int, out: Seq<Correspondence>)
    requires
        0 <= n <= s.len(),
        is_top_n(s, n, out),
    ensures
        out.len() == n,
        forall|a: int, b: int| 0 <= a < b < n ==> (#[trigger] out[a]).distance <= (#[trigger] out[b]).distance,
        exists|idx: Seq<int>| {
            &&& picks(s, idx, out)
            &&& forall|a: int, b: int| 0 <= a < b < idx.len() ==> #[trigger] idx[a] != #[trigger] idx[b]
            &&& forall|j: int, k: int| 0 <= j < s.len() && !listed(idx, j) && 0 <= k < n
                    ==> (#[trigger] out[k]).distance <= (#[trigger] s[j]).distance
        },
{
    let idx = choose|idx: Seq<int>| is_leading(s, idx) && picks(s, idx, out);
    assert forall|a: int, b: int| 0 <= a < b < n implies (#[trigger] out[a]).distance <= (#[trigger] out[b]).distance by {
        assert(precedes(s, idx[a], idx[b]));
    }
    assert forall|a: int, b: int| 0 <= a < b < idx.len() implies #[trigger] idx[a] != #[trigger] idx[b] by {
        assert(precedes(s, idx[a], idx[b]));
    }
    assert forall|j: int, k: int| 0 <= j < s.len() && !listed(idx, j) && 0 <= k < n
        implies (#[trigger] out[k]).distance <= (#[trigger] s[j]).distance by {
        assert(listed(idx, j) || after_all(s, idx, j));
        assert(precedes(s, idx[k], j));
    }
}

/// Lowe's ratio test keeps the best neighbour of a query if and only if its
/// distance `d1` and the second neighbour's distance `d2` satisfy
/// `d1 < t * d2`, that is `d1 * t.den < t.num * d2`; at `d1 == t * d2` it is
/// dropped. The result lists the kept queries' best neighbours in query
/// order: `kept` gives their positions.
pub proof fn lemma_ratio_test_keeps_iff(m: Seq<Seq<Correspondence>>, t: Ratio) -> (kept: Seq<int>)
    requires
        forall|i: int| 0 <= i < m.len() ==> (#[trigger] m[i]).len() >= 2,
    ensures
        ratio_filter(m, t).len() == kept.len(),
        forall|k: int| 0 <= k < kept.len() ==> 0 <= #[trigger] kept[k] < m.len(),
        forall|a: int, b: int| 0 <= a < b < kept.len() ==> #[trigger] kept[a] < #[trigger] kept[b],
        forall|k: int| 0 <= k < kept.len() ==> #[trigger] ratio_filter(m, t)[k] == m[kept[k]][0],
        forall|i: int| 0 <= i < m.len() ==>
            (#[trigger] listed(kept, i) <==> m[i][0].distance * t.den < t.num * m[i][1].distance),
        forall|i: int| 0 <= i < m.len() && m[i][0].distance * t.den == t.num * m[i][1].distance
            ==> !(#[trigger] listed(kept, i)),
    decreases m.len(),
{
    if m.len() == 0 {
        Seq::empty()
    } else {
        let init = m.drop_last();
        let prev = lemma_ratio_test_keeps_iff(init, t);
        let last = m.len() - 1;
        let kept = if passes_ratio(m[last][0], m[last][1], t) { prev.push(last) } else { prev };
        assert forall|i: int| 0 <= i < m.len() implies
            (#[trigger] listed(kept, i) <==> m[i][0].distance * t.den < t.num * m[i][1].distance) by {
            if i < last {
                assert(init[i] == m[i]);
                if listed(prev, i) {
                    let k = choose|k: int| 0 <= k < prev.len() && #[trigger] prev[k] == i;
                    assert(kept[k] == i);
                }
                if listed(kept, i) {
                    let k = choose|k: int| 0 <= k < kept.len() && #[trigger] kept[k] == i;
                    assert(k < prev.len());
                    assert(prev[k] == i);
                }
            } else {
                if passes_ratio(m[last][0], m[last][1], t) {
                    assert(kept[prev.len() as int] == i);
                } else if listed(kept, i) {
                    let k = choose|k: int| 0 <= k < kept.len() && #[trigger] kept[k] == i;
                    assert(prev[k] < init.len());
                }
            }
        }
        kept
    }
}

proof fn lemma_u32_product_fits(a: u32, b: u32)
    ensures
        (a as int) * (b as int) <= u64::MAX,
{
    assert((a as int) * (b as int) <= (u32::MAX as int) * (u32::MAX as int)) by (nonlinear_arith)
        requires
            a <= u32::MAX,
            b <= u32::MAX,
    ;
}

/// Takes the `n` best matches, those with the least distances; among equal
/// distances the earlier match goes first.
pub fn gather_good_matches_take_n(matches: &Vec<Correspondence>, n: usize) -> (good: Vec<Correspondence>)
    ensures
        is_top_n(matches@, n as int, good@),
{
    let s = matches;
    let len = s.len();
    // positions of s, kept in the order of `precedes`
    let mut ord: Vec<usize> = Vec::new();
    let mut i: usize = 0;
    while i < len
        invariant
            len == s@.len(),
            i <= len,
            ord@.len() == i,
            forall|k: int| 0 <= k < ord@.len() ==> #[trigger] ord@[k] < i,
            forall|j: int| 0 <= j < i ==> #[trigger] holds_position(ord@, j),
            forall|k1: int, k2: int| 0 <= k1 < k2 < ord@.len() ==> precedes(s@, #[trigger] ord@[k1] as int, #[trigger] ord@[k2] as int),
        decreases len - i,
    {
        let d = s[i].distance;
        let mut p: usize = ord.len();
        while p > 0 && s[ord[p - 1]].distance > d
            invariant
                len == s@.len(),
                i < len,
                d == s@[i as int].distance,
                p <= ord@.len(),
                forall|k: int| 0 <= k < ord@.len() ==> #[trigger] ord@[k] < i,
                forall|k: int| p <= k < ord@.len() ==> s@[#[trigger] ord@[k] as int].distance > d,
            decreases p,
        {
            p = p - 1;
        }
        let ghost old_ord = ord@;
        proof {
            assert forall|k: int| 0 <= k < p implies precedes(s@, #[trigger] old_ord[k] as int, i as int) by {
                assert(precedes(s@, old_ord[p - 1] as int, i as int));
                if k < p - 1 {
                    assert(precedes(s@, old_ord[k] as int, old_ord[p - 1] as int));
                }
            }
        }
        ord.insert(p, i);
        proof {
            assert(ord@ == old_ord.insert(p as int, i));
            assert forall|k1: int, k2: int| 0 <= k1 < k2 < ord@.len() implies precedes(s@, #[trigger] ord@[k1] as int, #[trigger] ord@[k2] as int) by {
                if k2 < p {
                } else if k2 == p {
                    assert(ord@[k1] == old_ord[k1]);
                } else if k1 < p {
                    assert(ord@[k2] == old_ord[k2 - 1]);
                } else if k1 == p {
                    assert(ord@[k2] == old_ord[k2 - 1]);
                } else {
                    assert(ord@[k1] == old_ord[k1 - 1]);
                    assert(ord@[k2] == old_ord[k2 - 1]);
                }
            }
            assert forall|j: int| 0 <= j < i + 1 implies #[trigger] holds_position(ord@, j) by {
                if j == i {
                    assert(ord@[p as int] == j);
                } else {
                    assert(holds_position(old_ord, j));
                    let k = choose|k: int| 0 <= k < old_ord.len() && #[trigger] old_ord[k] == j;
                    if k < p {
                        assert(ord@[k] == j);
                    } else {
                        assert(ord@[k + 1] == j);
                    }
                }
            }
        }
        i = i + 1;
    }
    let m: usize = if n <= len { n } else { len };
    let mut good: Vec<Correspondence> = Vec::new();
    let mut k: usize = 0;
    while k < m
        invariant
            m <= len,
            len == s@.len(),
            ord@.len() == len,
            forall|q: int| 0 <= q < ord@.len() ==> #[trigger] ord@[q] < len,
            forall|j: int| 0 <= j < len ==> #[trigger] holds_position(ord@, j),
            forall|k1: int, k2: int| 0 <= k1 < k2 < ord@.len() ==> precedes(s@, #[trigger] ord@[k1] as int, #[trigger] ord@[k2] as int),
            k <= m,
            good@.len() == k,
            forall|q: int| 0 <= q < k ==> #[trigger] good@[q] == s@[ord@[q] as int],
        decreases m - k,
    {
        good.push(s[ord[k]]);
        k = k + 1;
    }
    proof {
        let idx = ord@.subrange(0, m as int).map_values(|v: usize| v as int);
        assert forall|j: int| 0 <= j < s@.len() implies #[trigger] listed(idx, j) || after_all(s@, idx, j) by {
            assert(holds_position(ord@, j));
            let p = choose|p: int| 0 <= p < ord@.len() && #[trigger] ord@[p] == j;
            if p < m {
                assert(idx[p] == j);
            } else {
                assert forall|q: int| 0 <= q < idx.len() implies precedes(s@, #[trigger] idx[q], j) by {
                    assert(precedes(s@, ord@[q] as int, ord@[p] as int));
                }
            }
        }
        assert(is_leading(s@, idx));
        assert(picks(s@, idx, good@));
    }
    good
}

/// Keeps, for each query, its best neighbour when Lowe's ratio test accepts
/// it: when its distance is below `ratio_threshold` times the distance of the
/// second neighbour. The order of the queries is kept.
pub fn gather_good_matches_lowe(matches: &Vec<Vec<Correspondence>>, ratio_threshold: Ratio) -> (good: Vec<Correspondence>)
    requires
        forall|i: int| 0 <= i < matches@.len() ==> (#[trigger] matches@[i])@.len() >= 2,
    ensures
        good@ == ratio_filter(lists_view(matches@), ratio_threshold),
{
    let mut good: Vec<Correspondence> = Vec::new();
    let mut i: usize = 0;
    while i < matches.len()
        invariant
            i <= matches@.len(),
            forall|q: int| 0 <= q < matches@.len() ==> (#[trigger] matches@[q])@.len() >= 2,
            good@ == ratio_filter(lists_view(matches@.subrange(0, i as int)), ratio_threshold),
        decreases matches@.len() - i,
    {
        let better = matches[i][0];
        let second = matches[i][1];
        proof {
            let next = lists_view(matches@.subrange(0, i + 1));
            assert(next.drop_last() =~= lists_view(matches@.subrange(0, i as int)));
            assert(next.last() == matches@[i as int]@);
        }
        proof {
            lemma_u32_product_fits(better.distance, ratio_threshold.den);
            lemma_u32_product_fits(ratio_threshold.num, second.distance);
        }
        let lhs: u64 = better.distance as u64 * ratio_threshold.den as u64;
        let rhs: u64 = ratio_threshold.num as u64 * second.distance as u64;
        if lhs < rhs {
            good.push(better);
        }
        i = i + 1;
    }
    proof {
        assert(matches@.subrange(0, matches@.len() as int) =~= matches@);
    }
    good
}

} // verus!
