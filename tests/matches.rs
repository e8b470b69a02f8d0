use amaruensis::matching::{gather_good_matches_lowe, gather_good_matches_take_n, Correspondence, Ratio};

fn c(source_index: usize, target_index: usize, distance: u32) -> Correspondence {
    Correspondence { source_index, target_index, distance }
}

#[test]
fn take_n_sorts_by_distance() {
    let v = vec![c(0, 0, 30), c(1, 1, 10), c(2, 2, 20), c(3, 3, 5)];
    assert_eq!(gather_good_matches_take_n(&v, 3), vec![c(3, 3, 5), c(1, 1, 10), c(2, 2, 20)]);
}

#[test]
fn take_n_breaks_ties_by_order() {
    let v = vec![c(0, 0, 7), c(1, 1, 3), c(2, 2, 7), c(3, 3, 3), c(4, 4, 7)];
    assert_eq!(gather_good_matches_take_n(&v, 4), vec![c(1, 1, 3), c(3, 3, 3), c(0, 0, 7), c(2, 2, 7)]);
}

#[test]
fn take_n_larger_than_input_keeps_all() {
    let v = vec![c(0, 0, 2), c(1, 1, 1)];
    assert_eq!(gather_good_matches_take_n(&v, 30), vec![c(1, 1, 1), c(0, 0, 2)]);
    assert!(gather_good_matches_take_n(&vec![], 3).is_empty());
    assert!(gather_good_matches_take_n(&v, 0).is_empty());
}

#[test]
fn take_n_is_true_top_n() {
    let v: Vec<Correspondence> = (0..40).map(|i| c(i, i, ((i * 37) % 23) as u32)).collect();
    let n = 12;
    let out = gather_good_matches_take_n(&v, n);
    assert_eq!(out.len(), n);
    for w in out.windows(2) {
        assert!(w[0].distance <= w[1].distance);
    }
    let worst_kept = out.last().unwrap().distance;
    for m in &v {
        if !out.contains(m) {
            assert!(m.distance >= worst_kept);
        }
    }
}

#[test]
fn ratio_test_keeps_iff_strictly_below() {
    let t = Ratio { num: 3, den: 4 };
    let lists = vec![
        vec![c(0, 0, 10), c(1, 0, 20)],
        vec![c(2, 1, 15), c(3, 1, 20)],
        vec![c(4, 2, 16), c(5, 2, 20)],
        vec![c(6, 3, 0), c(7, 3, 1)],
    ];
    assert_eq!(gather_good_matches_lowe(&lists, t), vec![c(0, 0, 10), c(6, 3, 0)]);
}

#[test]
fn ratio_test_empty_input() {
    assert!(gather_good_matches_lowe(&vec![], Ratio { num: 7, den: 10 }).is_empty());
}
