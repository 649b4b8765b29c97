use ccm_reproduction::discovery::{
    best_reference, check_discovery_root_count, classify_discovered_roots, count_root_statuses,
    displacement_range, seeded_root_offset, DiscoveredRoot, DiscoveryError, RootStatus,
    SeededWindowError,
};

fn root(negative: bool) -> DiscoveredRoot {
    DiscoveredRoot { has_value: true, negative }
}

#[test]
fn discovery_root_counts_are_checked() {
    assert_eq!(
        check_discovery_root_count(5, 4, false),
        Err(DiscoveryError::RootCountMismatch {
            requested: 5,
            returned: 4
        })
    );
    assert_eq!(check_discovery_root_count(5, 4, true), Ok(()));
    assert_eq!(check_discovery_root_count(0, 0, false), Err(DiscoveryError::NoRoots));
    assert_eq!(check_discovery_root_count(3, 3, false), Ok(()));
}

#[test]
fn classification_counts_matches_positions_and_displacements() {
    let roots = vec![root(false), root(false), root(false), root(false)];
    let assignments = vec![None, Some(0), Some(1), Some(3)];
    let digits = vec![
        vec![Some(1), Some(5), Some(5), Some(0)],
        vec![Some(80), Some(2), Some(1), Some(0)],
        vec![Some(3), Some(75), Some(2), Some(0)],
        vec![Some(1), Some(4), Some(2), Some(70)],
    ];
    let c = classify_discovered_roots(&roots, &assignments, &digits, false, 1).unwrap();
    assert_eq!(c.rows.len(), 4);
    assert_eq!(c.rows[0].root_index, 1);
    assert!(!c.rows[0].accepted);
    assert_eq!(c.rows[0].reference_offset, Some(2));
    assert_eq!(c.matched, 3);
    assert_eq!(c.correct_position, 1);
    assert_eq!(c.first_zero_root, Some(2));
    assert_eq!(c.displacements, vec![1, 1, 0]);
    assert_eq!(displacement_range(&c.displacements), Some((0, 1, 1)));
    assert_eq!(displacement_range(&vec![]), None);
    assert_eq!(displacement_range(&vec![-3, 2]), Some((-3, 2, 3)));
}

#[test]
fn signed_windows_count_negative_roots_down() {
    let roots = vec![
        root(true),
        root(true),
        DiscoveredRoot { has_value: false, negative: false },
        root(false),
    ];
    let assignments = vec![None, None, None, Some(0)];
    let digits = vec![vec![Some(0)], vec![Some(0)], vec![None], vec![Some(50)]];
    let c = classify_discovered_roots(&roots, &assignments, &digits, true, 1).unwrap();
    let indices: Vec<isize> = c.rows.iter().map(|row| row.root_index).collect();
    assert_eq!(indices, vec![-2, -1, 1, 2]);
    assert_eq!(c.rows[2].reference_offset, None);
    assert_eq!(c.first_zero_root, Some(2));
    assert_eq!(c.displacements, vec![1]);
    let empty_row = vec![vec![None]];
    assert_eq!(
        classify_discovered_roots(&vec![root(false)], &vec![None], &empty_row, false, 1).unwrap_err(),
        DiscoveryError::NoReferenceZeros
    );
}

#[test]
fn best_reference_prefers_the_last_of_equals_and_statuses_are_counted() {
    assert_eq!(best_reference(&vec![Some(3), None, Some(7), Some(7), Some(2)]), Some(3));
    assert_eq!(best_reference(&vec![None, None]), None);
    let statuses = vec![
        RootStatus::Converged,
        RootStatus::Failed,
        RootStatus::Converged,
        RootStatus::Approximate,
    ];
    assert_eq!(count_root_statuses(&statuses), (2, 0, 1, 1));
    assert_eq!(RootStatus::Stagnated.label(), "stagnated");
    assert!(!RootStatus::Failed.has_value());
}

#[test]
fn seeded_windows_keep_their_reference_ordinals() {
    assert_eq!(seeded_root_offset(25, 25, 10), Ok(0));
    assert_eq!(seeded_root_offset(34, 25, 10), Ok(9));
    assert_eq!(
        seeded_root_offset(35, 25, 10),
        Err(SeededWindowError::EndsBefore { reference_index: 35 })
    );
    assert_eq!(
        seeded_root_offset(24, 25, 10),
        Err(SeededWindowError::BeginsAfter { reference_index: 24 })
    );
    assert_eq!(
        seeded_root_offset(1, 1, 0),
        Err(SeededWindowError::EndsBefore { reference_index: 1 })
    );
}
