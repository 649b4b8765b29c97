use ccm_reproduction::alignment::{align_discovered_roots, score_is_better, AlignmentScore};

/// Matching digits in the library's fixed-point unit (millionths of a digit).
fn scaled(rows: Vec<Vec<Option<f64>>>) -> Vec<Vec<Option<u64>>> {
    rows.into_iter()
        .map(|row| {
            row.into_iter()
                .map(|digits| digits.map(|d| (d * 1_000_000.0).round() as u64))
                .collect()
        })
        .collect()
}

const TEN_DIGITS: u64 = 10_000_000;

#[test]
fn discovery_alignment_preserves_root_order_and_spurious_entries() {
    let digits = scaled(vec![
        vec![Some(1.0), Some(0.5), Some(0.1)],
        vec![Some(80.0), Some(2.0), Some(1.0)],
        vec![Some(3.0), Some(75.0), Some(2.0)],
        vec![Some(1.0), Some(4.0), Some(70.0)],
    ]);
    assert_eq!(
        align_discovered_roots(&digits, TEN_DIGITS),
        vec![None, Some(0), Some(1), Some(2)]
    );
}

#[test]
fn discovery_alignment_handles_a_missing_reference_zero() {
    let digits = scaled(vec![
        vec![Some(60.0), Some(1.0), Some(0.5)],
        vec![Some(0.5), Some(2.0), Some(55.0)],
    ]);
    assert_eq!(
        align_discovered_roots(&digits, TEN_DIGITS),
        vec![Some(0), Some(2)]
    );
}

#[test]
fn alignment_prefers_more_matches_then_more_digits() {
    // A greedy choice of the best first match (root 0 with zero 1) would
    // leave root 1 unmatched; the optimum matches both roots.
    let digits = scaled(vec![
        vec![Some(20.0), Some(90.0)],
        vec![Some(5.0), Some(30.0)],
    ]);
    assert_eq!(align_discovered_roots(&digits, TEN_DIGITS), vec![Some(0), Some(1)]);
    // With equally many matches, the larger total quality wins.
    let digits = scaled(vec![vec![Some(20.0), Some(90.0)]]);
    assert_eq!(align_discovered_roots(&digits, TEN_DIGITS), vec![Some(1)]);
    // Unavailable comparisons and sub-threshold digits never match.
    let digits = scaled(vec![vec![None, Some(9.0)]]);
    assert_eq!(align_discovered_roots(&digits, TEN_DIGITS), vec![None]);
    assert_eq!(align_discovered_roots(&vec![], TEN_DIGITS), Vec::<Option<usize>>::new());
    assert_eq!(align_discovered_roots(&vec![vec![], vec![]], TEN_DIGITS), vec![None, None]);
}

#[test]
fn score_comparison_is_lexicographic() {
    let a = AlignmentScore { matches: 2, quality: 1 };
    let b = AlignmentScore { matches: 1, quality: 100 };
    assert!(score_is_better(a, b));
    assert!(!score_is_better(b, a));
    let c = AlignmentScore { matches: 2, quality: 5 };
    assert!(score_is_better(c, a));
    assert!(!score_is_better(a, a));
}
