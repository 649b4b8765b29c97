//! Classification of independently discovered roots against reference zeros
//! for the discovery-ordering report, and the status census of root windows.

use vstd::prelude::*;
use crate::alignment::{valid_alignment, zero_count};

verus! {

/// How the refinement of one root ended.
#[derive(Clone, Copy, Debug, PartialEq, Eq, Structural)]
pub enum RootStatus {
    Converged,
    Stagnated,
    Approximate,
    Failed,
}

pub open spec fn spec_status_label(s: RootStatus) -> Seq<char> {
    match s {
        RootStatus::Converged => "converged"@,
        RootStatus::Stagnated => "stagnated"@,
        RootStatus::Approximate => "approximate"@,
        RootStatus::Failed => "failed"@,
    }
}

impl RootStatus {
    /// The label printed for the status.
    pub fn label(self) -> (s: String)
        ensures
            s@ == spec_status_label(self),
    {
        match self {
            RootStatus::Converged => String::from_str("converged"),
            RootStatus::Stagnated => String::from_str("stagnated"),
            RootStatus::Approximate => String::from_str("approximate"),
            RootStatus::Failed => String::from_str("failed"),
        }
    }

    /// Whether the root carries a value (every status but failure does).
    pub fn has_value(self) -> (r: bool)
        ensures
            r == (self != RootStatus::Failed),
    {
        !matches!(self, RootStatus::Failed)
    }
}

/// Number of roots of `s` with status `status`.
pub open spec fn status_count(s: Seq<RootStatus>, status: RootStatus) -> nat
    decreases s.len(),
{
    if s.len() == 0 {
        0
    } else {
        status_count(s.drop_last(), status) + if s.last() == status {
            1nat
        } else {
            0nat
        }
    }
}

/// Counts the converged, stagnated, approximate and failed roots of a window.
pub fn count_root_statuses(statuses: &Vec<RootStatus>) -> (r: (usize, usize, usize, usize))
    ensures
        r.0 == status_count(statuses@, RootStatus::Converged),
        r.1 == status_count(statuses@, RootStatus::Stagnated),
        r.2 == status_count(statuses@, RootStatus::Approximate),
        r.3 == status_count(statuses@, RootStatus::Failed),
{
    let mut counts: (usize, usize, usize, usize) = (0, 0, 0, 0);
    let mut k: usize = 0;
    while k < statuses.len()
        invariant
            k <= statuses@.len(),
            counts.0 == status_count(statuses@.take(k as int), RootStatus::Converged),
            counts.1 == status_count(statuses@.take(k as int), RootStatus::Stagnated),
            counts.2 == status_count(statuses@.take(k as int), RootStatus::Approximate),
            counts.3 == status_count(statuses@.take(k as int), RootStatus::Failed),
            counts.0 + counts.1 + counts.2 + counts.3 == k,
        decreases statuses@.len() - k,
    {
        proof {
            assert(statuses@.take(k + 1).drop_last() =~= statuses@.take(k as int));
            assert(statuses@.take(k + 1).last() == statuses@[k as int]);
        }
        match statuses[k] {
            RootStatus::Converged => counts.0 = counts.0 + 1,
            RootStatus::Stagnated => counts.1 = counts.1 + 1,
            RootStatus::Approximate => counts.2 = counts.2 + 1,
            RootStatus::Failed => counts.3 = counts.3 + 1,
        }
        k = k + 1;
    }
    proof {
        assert(statuses@.take(statuses@.len() as int) =~= statuses@);
    }
    counts
}

/// Why a discovery-ordering report cannot be produced.
#[derive(Clone, Copy, Debug, PartialEq, Eq, Structural)]
pub enum DiscoveryError {
    /// The run returned another number of roots than requested.
    RootCountMismatch { requested: usize, returned: usize },
    /// The run returned no roots.
    NoRoots,
    /// A root index does not fit in `isize`.
    IndexOverflow,
    /// A discovered root has no reference zero to be compared with.
    NoReferenceZeros,
}

/// Checks the number of returned roots: an incomplete window is an error
/// unless the request allowed it.
pub fn check_discovery_root_count(requested: usize, returned: usize, allow_incomplete: bool) -> (r:
    Result<(), DiscoveryError>)
    ensures
        returned != requested && !allow_incomplete ==> r == Err::<(), DiscoveryError>(
            DiscoveryError::RootCountMismatch { requested, returned },
        ),
        returned == requested && returned == 0 && !allow_incomplete ==> r == Err::<
            (),
            DiscoveryError,
        >(DiscoveryError::NoRoots),
        allow_incomplete || (returned == requested && returned > 0) ==> r == Ok::<
            (),
            DiscoveryError,
        >(()),
{
    if returned != requested && !allow_incomplete {
        return Err(DiscoveryError::RootCountMismatch { requested, returned });
    }
    if returned == 0 && !allow_incomplete {
        return Err(DiscoveryError::NoRoots);
    }
    Ok(())
}

/// A discovered root as the report sees it.
#[derive(Clone, Copy, Debug, PartialEq, Eq, Structural)]
pub struct DiscoveredRoot {
    /// The refinement produced a value.
    pub has_value: bool,
    /// The value is negative.
    pub negative: bool,
}

/// Number of roots with a negative value.
pub open spec fn negative_count(roots: Seq<DiscoveredRoot>) -> nat
    decreases roots.len(),
{
    if roots.len() == 0 {
        0
    } else {
        negative_count(roots.drop_last()) + if roots.last().has_value && roots.last().negative {
            1nat
        } else {
            0nat
        }
    }
}

/// The printed index of the root at `offset`: in a signed window the
/// negative roots count down from -1 and the others up from 1; otherwise
/// indices continue from the window's first positive ordinal.
pub open spec fn spec_root_index(
    offset: int,
    negatives: int,
    signed_domain: bool,
    first_positive_root_index: int,
) -> int {
    if signed_domain {
        if offset < negatives {
            offset - negatives
        } else {
            offset - negatives + 1
        }
    } else {
        first_positive_root_index + offset
    }
}

/// The reference zero shown next to a root: its accepted match, otherwise
/// the best-matching zero (the last among equals).
pub open spec fn spec_best_reference(row: Seq<Option<u64>>) -> Option<int>
    decreases row.len(),
{
    if row.len() == 0 {
        None
    } else {
        let rest = spec_best_reference(row.drop_last());
        match row.last() {
            None => rest,
            Some(x) => match rest {
                None => Some(row.len() - 1),
                Some(j) => if row[j] matches Some(y) && x < y {
                    rest
                } else {
                    Some(row.len() - 1)
                },
            },
        }
    }
}

/// Index of the best-matching reference zero of a root (the last among
/// equals), if any comparison is available.
pub fn best_reference(row: &Vec<Option<u64>>) -> (r: Option<usize>)
    ensures
        r matches Some(j) ==> spec_best_reference(row@) == Some(j as int),
        r is None ==> spec_best_reference(row@) is None,
{
    let mut best: Option<usize> = None;
    let mut k: usize = 0;
    while k < row.len()
        invariant
            k <= row@.len(),
            best matches Some(j) ==> j < k && row@[j as int] is Some && spec_best_reference(
                row@.take(k as int),
            ) == Some(j as int),
            best is None ==> spec_best_reference(row@.take(k as int)) is None,
        decreases row@.len() - k,
    {
        let ghost prefix = row@.take(k as int);
        let ghost next = row@.take(k + 1);
        proof {
            assert(next.drop_last() =~= prefix);
            assert(next.last() == row@[k as int]);
        }
        match row[k] {
            None => {},
            Some(x) => {
                match best {
                    None => {
                        best = Some(k);
                    },
                    Some(j) => {
                        proof {
                            assert(next[j as int] == row@[j as int]);
                        }
                        let current = row[j];
                        match current {
                            Some(y) => {
                                if !(x < y) {
                                    best = Some(k);
                                }
                            },
                            None => {
                                best = Some(k);
                            },
                        }
                    },
                }
            },
        }
        k = k + 1;
    }
    proof {
        assert(row@.take(row@.len() as int) =~= row@);
    }
    best
}

/// One line of the discovery-ordering report.
#[derive(Clone, Copy, Debug, PartialEq, Eq, Structural)]
pub struct DiscoveryRow {
    /// The printed index of the root.
    pub root_index: isize,
    /// The zero-based index of the reference zero shown next to it, if the
    /// root has a value.
    pub reference_offset: Option<usize>,
    /// The alignment accepted the match.
    pub accepted: bool,
    /// Root index minus one-based reference index, for accepted matches.
    pub displacement: Option<isize>,
}

/// The per-root lines and the totals of a discovery-ordering report.
#[derive(Clone, Debug)]
pub struct DiscoveryClassification {
    pub rows: Vec<DiscoveryRow>,
    /// Roots whose match the alignment accepted.
    pub matched: usize,
    /// Accepted matches at their own ordinal position.
    pub correct_position: usize,
    /// The root matched with the first reference zero.
    pub first_zero_root: Option<isize>,
    /// The displacements of the accepted matches, in root order.
    pub displacements: Vec<isize>,
}

/// The report line of the root at `offset`, given its printed index.
pub open spec fn spec_row(
    root: DiscoveredRoot,
    assignment: Option<usize>,
    digit_row: Seq<Option<u64>>,
    root_index: int,
) -> DiscoveryRow {
    if !root.has_value {
        DiscoveryRow {
            root_index: root_index as isize,
            reference_offset: None,
            accepted: false,
            displacement: None,
        }
    } else {
        match assignment {
            Some(j) => DiscoveryRow {
                root_index: root_index as isize,
                reference_offset: Some(j),
                accepted: true,
                displacement: Some((root_index - (j + 1)) as isize),
            },
            None => DiscoveryRow {
                root_index: root_index as isize,
                reference_offset: Some(spec_best_reference(digit_row)->0 as usize),
                accepted: false,
                displacement: None,
            },
        }
    }
}

/// The rows are the report lines of the roots, in root order.
pub open spec fn rows_describe(
    rows: Seq<DiscoveryRow>,
    roots: Seq<DiscoveredRoot>,
    assignments: Seq<Option<usize>>,
    digits: Seq<Vec<Option<u64>>>,
    signed_domain: bool,
    first_positive_root_index: usize,
) -> bool {
    &&& rows.len() == roots.len()
    &&& forall|k: int|
        0 <= k < rows.len() ==> #[trigger] rows[k] == spec_row(
            roots[k],
            assignments[k],
            digits[k]@,
            spec_root_index(
                k,
                negative_count(roots) as int,
                signed_domain,
                first_positive_root_index as int,
            ),
        )
}

/// Number of accepted rows.
pub open spec fn accepted_count(rows: Seq<DiscoveryRow>) -> nat
    decreases rows.len(),
{
    if rows.len() == 0 {
        0
    } else {
        accepted_count(rows.drop_last()) + if rows.last().accepted {
            1nat
        } else {
            0nat
        }
    }
}

/// Number of accepted rows at their own ordinal position.
pub open spec fn in_position_count(rows: Seq<DiscoveryRow>) -> nat
    decreases rows.len(),
{
    if rows.len() == 0 {
        0
    } else {
        in_position_count(rows.drop_last()) + if rows.last().accepted && rows.last().displacement
            == Some(0isize) {
            1nat
        } else {
            0nat
        }
    }
}

/// The displacements of the accepted rows, in order.
pub open spec fn accepted_displacements(rows: Seq<DiscoveryRow>) -> Seq<isize>
    decreases rows.len(),
{
    if rows.len() == 0 {
        Seq::empty()
    } else {
        let rest = accepted_displacements(rows.drop_last());
        if rows.last().accepted {
            rest.push(rows.last().displacement->0)
        } else {
            rest
        }
    }
}

/// The root index of the last accepted row matched with the first zero.
pub open spec fn first_zero_index(rows: Seq<DiscoveryRow>) -> Option<isize>
    decreases rows.len(),
{
    if rows.len() == 0 {
        None
    } else if rows.last().accepted && rows.last().reference_offset == Some(0usize) {
        Some(rows.last().root_index)
    } else {
        first_zero_index(rows.drop_last())
    }
}

proof fn lemma_first_zero_prefix(rows: Seq<DiscoveryRow>)
    ensures
        first_zero_index(rows) matches Some(i) ==> exists|k: int|
            0 <= k < rows.len() && (#[trigger] rows[k]).accepted && rows[k].reference_offset
                == Some(0usize) && rows[k].root_index == i,
        (exists|k: int|
            0 <= k < rows.len() && (#[trigger] rows[k]).accepted && rows[k].reference_offset
                == Some(0usize)) ==> first_zero_index(rows) is Some,
    decreases rows.len(),
{
    if rows.len() > 0 {
        let rest = rows.drop_last();
        lemma_first_zero_prefix(rest);
        if first_zero_index(rows) is Some && !(rows.last().accepted
            && rows.last().reference_offset == Some(0usize)) {
            let i = first_zero_index(rows)->0;
            let k = choose|k: int|
                0 <= k < rest.len() && (#[trigger] rest[k]).accepted && rest[k].reference_offset
                    == Some(0usize) && rest[k].root_index == i;
            assert(rows[k] == rest[k]);
        }
        if exists|k: int|
            0 <= k < rows.len() && (#[trigger] rows[k]).accepted && rows[k].reference_offset
                == Some(0usize) {
            let k = choose|k: int|
                0 <= k < rows.len() && (#[trigger] rows[k]).accepted && rows[k].reference_offset
                    == Some(0usize);
            if k < rows.len() - 1 {
                assert(rest[k] == rows[k]);
            }
        }
    }
}

/// The root reported as matched with the first reference zero is one whose
/// match with that zero the alignment accepted: a root with a value that is
/// assigned reference offset 0. Such a root exists exactly when one is
/// reported. Rows the alignment did not accept never decide it.
pub proof fn lemma_first_zero_root_is_accepted(
    rows: Seq<DiscoveryRow>,
    roots: Seq<DiscoveredRoot>,
    assignments: Seq<Option<usize>>,
    digits: Seq<Vec<Option<u64>>>,
    signed_domain: bool,
    first_positive_root_index: usize,
)
    requires
        rows_describe(rows, roots, assignments, digits, signed_domain, first_positive_root_index),
    ensures
        first_zero_index(rows) matches Some(i) ==> exists|k: int|
            0 <= k < rows.len() && (#[trigger] roots[k]).has_value && assignments[k] == Some(
                0usize,
            ) && rows[k].root_index == i,
        (exists|k: int|
            0 <= k < rows.len() && (#[trigger] roots[k]).has_value && assignments[k] == Some(
                0usize,
            )) ==> first_zero_index(rows) is Some,
{
    lemma_first_zero_prefix(rows);
    assert forall|k: int| 0 <= k < rows.len() implies ((#[trigger] rows[k]).accepted
        && rows[k].reference_offset == Some(0usize)) == (roots[k].has_value && assignments[k]
        == Some(0usize)) by {
        assert(rows[k] == spec_row(
            roots[k],
            assignments[k],
            digits[k]@,
            spec_root_index(
                k,
                negative_count(roots) as int,
                signed_domain,
                first_positive_root_index as int,
            ),
        ));
    }
    if first_zero_index(rows) is Some {
        let i = first_zero_index(rows)->0;
        let k = choose|k: int|
            0 <= k < rows.len() && (#[trigger] rows[k]).accepted && rows[k].reference_offset
                == Some(0usize) && rows[k].root_index == i;
        assert(roots[k].has_value && assignments[k] == Some(0usize));
    }
    if exists|k: int|
        0 <= k < rows.len() && (#[trigger] roots[k]).has_value && assignments[k] == Some(0usize) {
        let k = choose|k: int|
            0 <= k < rows.len() && (#[trigger] roots[k]).has_value && assignments[k] == Some(
                0usize,
            );
        assert(rows[k].accepted && rows[k].reference_offset == Some(0usize));
    }
}

proof fn lemma_first_zero_same_prefix(a: Seq<DiscoveryRow>, b: Seq<DiscoveryRow>)
    requires
        a.len() == b.len(),
        forall|k: int|
            0 <= k < a.len() ==> (#[trigger] a[k]).accepted == b[k].accepted && (a[k].accepted
                ==> a[k].reference_offset == b[k].reference_offset && a[k].root_index
                == b[k].root_index),
    ensures
        first_zero_index(a) == first_zero_index(b),
    decreases a.len(),
{
    if a.len() > 0 {
        let ra = a.drop_last();
        let rb = b.drop_last();
        assert forall|k: int| 0 <= k < ra.len() implies (#[trigger] ra[k]).accepted
            == rb[k].accepted && (ra[k].accepted ==> ra[k].reference_offset
            == rb[k].reference_offset && ra[k].root_index == rb[k].root_index) by {
            assert(ra[k] == a[k] && rb[k] == b[k]);
        }
        lemma_first_zero_same_prefix(ra, rb);
        assert(a.last() == a[a.len() - 1] && b.last() == b[b.len() - 1]);
    }
}

/// The first-zero root depends on the alignment alone: two reports of the
/// same roots and assignments agree on it whatever the digit rows, which
/// only pick the zero shown next to roots the alignment left unmatched.
pub proof fn lemma_first_zero_root_ignores_digits(
    rows1: Seq<DiscoveryRow>,
    rows2: Seq<DiscoveryRow>,
    roots: Seq<DiscoveredRoot>,
    assignments: Seq<Option<usize>>,
    digits1: Seq<Vec<Option<u64>>>,
    digits2: Seq<Vec<Option<u64>>>,
    signed_domain: bool,
    first_positive_root_index: usize,
)
    requires
        rows_describe(rows1, roots, assignments, digits1, signed_domain, first_positive_root_index),
        rows_describe(rows2, roots, assignments, digits2, signed_domain, first_positive_root_index),
    ensures
        first_zero_index(rows1) == first_zero_index(rows2),
{
    assert forall|k: int| 0 <= k < rows1.len() implies (#[trigger] rows1[k]).accepted
        == rows2[k].accepted && (rows1[k].accepted ==> rows1[k].reference_offset
        == rows2[k].reference_offset && rows1[k].root_index == rows2[k].root_index) by {
        let i = spec_root_index(
            k,
            negative_count(roots) as int,
            signed_domain,
            first_positive_root_index as int,
        );
        assert(rows1[k] == spec_row(roots[k], assignments[k], digits1[k]@, i));
        assert(rows2[k] == spec_row(roots[k], assignments[k], digits2[k]@, i));
    }
    lemma_first_zero_same_prefix(rows1, rows2);
}

/// What stops the report at the root at `offset`, if anything.
pub open spec fn row_problem(
    roots: Seq<DiscoveredRoot>,
    assignments: Seq<Option<usize>>,
    digits: Seq<Vec<Option<u64>>>,
    signed_domain: bool,
    first_positive_root_index: usize,
    k: int,
) -> Option<DiscoveryError> {
    let i = spec_root_index(
        k,
        negative_count(roots) as int,
        signed_domain,
        first_positive_root_index as int,
    );
    if !(isize::MIN <= i <= isize::MAX) {
        Some(DiscoveryError::IndexOverflow)
    } else if !roots[k].has_value {
        None
    } else {
        match assignments[k] {
            Some(j) => if !(isize::MIN <= i - (j + 1) <= isize::MAX) {
                Some(DiscoveryError::IndexOverflow)
            } else {
                None
            },
            None => if spec_best_reference(digits[k]@) is None {
                Some(DiscoveryError::NoReferenceZeros)
            } else {
                None
            },
        }
    }
}

/// Number of roots among the first `n` with a negative value.
fn count_negative(roots: &Vec<DiscoveredRoot>) -> (r: usize)
    ensures
        r == negative_count(roots@),
        r <= roots@.len(),
{
    let mut count: usize = 0;
    let mut k: usize = 0;
    while k < roots.len()
        invariant
            k <= roots@.len(),
            count == negative_count(roots@.take(k as int)),
            count <= k,
        decreases roots@.len() - k,
    {
        proof {
            assert(roots@.take(k + 1).drop_last() =~= roots@.take(k as int));
            assert(roots@.take(k + 1).last() == roots@[k as int]);
        }
        if roots[k].has_value && roots[k].negative {
            count = count + 1;
        }
        k = k + 1;
    }
    proof {
        assert(roots@.take(roots@.len() as int) =~= roots@);
    }
    count
}

/// Classifies each discovered root for the discovery-ordering report: its
/// printed index, the reference zero shown next to it, whether the alignment
/// accepted the match and its displacement; and totals the accepted matches,
/// those in their own ordinal position, the root matched with the first zero
/// and the displacements. The report stops at the first root whose index or
/// displacement does not fit in `isize`, or that has a value but nothing to
/// be compared with.
pub fn classify_discovered_roots(
    roots: &Vec<DiscoveredRoot>,
    assignments: &Vec<Option<usize>>,
    digits: &Vec<Vec<Option<u64>>>,
    signed_domain: bool,
    first_positive_root_index: usize,
) -> (r: Result<DiscoveryClassification, DiscoveryError>)
    requires
        assignments@.len() == roots@.len(),
        digits@.len() == roots@.len(),
        roots@.len() <= isize::MAX,
        !signed_domain ==> first_positive_root_index + roots@.len() <= usize::MAX,
    ensures
        (forall|k: int|
            0 <= k < roots@.len() ==> #[trigger] row_problem(
                roots@,
                assignments@,
                digits@,
                signed_domain,
                first_positive_root_index,
                k,
            ) is None) ==> (r matches Ok(c) && rows_describe(
            c.rows@,
            roots@,
            assignments@,
            digits@,
            signed_domain,
            first_positive_root_index,
        ) && c.matched == accepted_count(c.rows@) && c.correct_position == in_position_count(
            c.rows@,
        ) && c.first_zero_root == first_zero_index(c.rows@) && c.displacements@
            == accepted_displacements(c.rows@)),
        r matches Ok(c) ==> (c.first_zero_root matches Some(i) ==> exists|k: int|
            0 <= k < roots@.len() && (#[trigger] roots@[k]).has_value && assignments@[k] == Some(
                0usize,
            ) && c.rows@[k].root_index == i),
        r matches Ok(c) ==> ((exists|k: int|
            0 <= k < roots@.len() && (#[trigger] roots@[k]).has_value && assignments@[k] == Some(
                0usize,
            )) ==> c.first_zero_root is Some),
        r is Ok ==> forall|k: int|
            0 <= k < roots@.len() ==> #[trigger] row_problem(
                roots@,
                assignments@,
                digits@,
                signed_domain,
                first_positive_root_index,
                k,
            ) is None,
        r matches Err(e) ==> exists|k0: int|
            0 <= k0 < roots@.len() && row_problem(
                roots@,
                assignments@,
                digits@,
                signed_domain,
                first_positive_root_index,
                k0,
            ) == Some(e) && forall|k: int|
                0 <= k < k0 ==> #[trigger] row_problem(
                    roots@,
                    assignments@,
                    digits@,
                    signed_domain,
                    first_positive_root_index,
                    k,
                ) is None,
{
    let negatives = count_negative(roots);
    let mut rows: Vec<DiscoveryRow> = Vec::new();
    let mut matched: usize = 0;
    let mut correct_position: usize = 0;
    let mut first_zero_root: Option<isize> = None;
    let mut displacements: Vec<isize> = Vec::new();
    let mut k: usize = 0;
    while k < roots.len()
        invariant
            k <= roots@.len(),
            assignments@.len() == roots@.len(),
            digits@.len() == roots@.len(),
            roots@.len() <= isize::MAX,
            !signed_domain ==> first_positive_root_index + roots@.len() <= usize::MAX,
            negatives == negative_count(roots@),
            negatives <= roots@.len(),
            forall|j: int|
                0 <= j < k ==> #[trigger] row_problem(
                    roots@,
                    assignments@,
                    digits@,
                    signed_domain,
                    first_positive_root_index,
                    j,
                ) is None,
            rows@.len() == k,
            forall|j: int|
                0 <= j < k ==> #[trigger] rows@[j] == spec_row(
                    roots@[j],
                    assignments@[j],
                    digits@[j]@,
                    spec_root_index(
                        j,
                        negative_count(roots@) as int,
                        signed_domain,
                        first_positive_root_index as int,
                    ),
                ),
            matched == accepted_count(rows@),
            matched <= k,
            correct_position == in_position_count(rows@),
            correct_position <= k,
            first_zero_root == first_zero_index(rows@),
            displacements@ == accepted_displacements(rows@),
        decreases roots@.len() - k,
    {
        let ghost index = spec_root_index(
            k as int,
            negatives as int,
            signed_domain,
            first_positive_root_index as int,
        );
        let root_index: isize = if signed_domain {
            if k < negatives {
                (k as isize) - (negatives as isize)
            } else {
                ((k - negatives) as isize) + 1
            }
        } else {
            let i = first_positive_root_index + k;
            if i > isize::MAX as usize {
                assert(row_problem(roots@, assignments@, digits@, signed_domain, first_positive_root_index, k as int)
                    == Some(DiscoveryError::IndexOverflow));
                return Err(DiscoveryError::IndexOverflow);
            }
            i as isize
        };
        assert(root_index == index);
        let root = roots[k];
        let row = if !root.has_value {
            DiscoveryRow { root_index, reference_offset: None, accepted: false, displacement: None }
        } else {
            match assignments[k] {
                Some(j) => {
                    let reference_index = j as i128 + 1;
                    let displacement = root_index as i128 - reference_index;
                    if displacement < isize::MIN as i128 || displacement > isize::MAX as i128 {
                        assert(row_problem(roots@, assignments@, digits@, signed_domain, first_positive_root_index, k as int)
                            == Some(DiscoveryError::IndexOverflow));
                        return Err(DiscoveryError::IndexOverflow);
                    }
                    let displacement = displacement as isize;
                    DiscoveryRow {
                        root_index,
                        reference_offset: Some(j),
                        accepted: true,
                        displacement: Some(displacement),
                    }
                },
                None => {
                    match best_reference(&digits[k]) {
                        None => {
                            assert(row_problem(roots@, assignments@, digits@, signed_domain, first_positive_root_index, k as int)
                                == Some(DiscoveryError::NoReferenceZeros));
                            return Err(DiscoveryError::NoReferenceZeros);
                        },
                        Some(j) => DiscoveryRow {
                            root_index,
                            reference_offset: Some(j),
                            accepted: false,
                            displacement: None,
                        },
                    }
                },
            }
        };
        let ghost before = rows@;
        rows.push(row);
        proof {
            assert(rows@.drop_last() =~= before);
        }
        if row.accepted {
            matched = matched + 1;
            if row.displacement == Some(0isize) {
                correct_position = correct_position + 1;
            }
            if row.reference_offset == Some(0usize) {
                first_zero_root = Some(root_index);
            }
            match row.displacement {
                Some(d) => displacements.push(d),
                None => {},
            }
        }
        k = k + 1;
    }
    proof {
        lemma_first_zero_root_is_accepted(
            rows@,
            roots@,
            assignments@,
            digits@,
            signed_domain,
            first_positive_root_index,
        );
    }
    Ok(DiscoveryClassification { rows, matched, correct_position, first_zero_root, displacements })
}

/// The smallest and largest displacement and the largest absolute
/// displacement, when there is any.
pub fn displacement_range(displacements: &Vec<isize>) -> (r: Option<(isize, isize, usize)>)
    ensures
        displacements@.len() == 0 ==> r is None,
        displacements@.len() > 0 ==> (r matches Some((lo, hi, abs)) && displacements@.contains(lo)
            && displacements@.contains(hi) && (forall|i: int|
            0 <= i < displacements@.len() ==> lo <= #[trigger] displacements@[i] <= hi) && (
        abs == if -lo > hi {
            -lo
        } else {
            hi as int
        })),
{
    if displacements.len() == 0 {
        return None;
    }
    let mut lo = displacements[0];
    let mut hi = displacements[0];
    let mut k: usize = 1;
    while k < displacements.len()
        invariant
            1 <= k <= displacements@.len(),
            displacements@.contains(lo),
            displacements@.contains(hi),
            forall|i: int| 0 <= i < k ==> lo <= #[trigger] displacements@[i] <= hi,
        decreases displacements@.len() - k,
    {
        let d = displacements[k];
        if d < lo {
            lo = d;
        }
        if d > hi {
            hi = d;
        }
        k = k + 1;
    }
    let abs_lo: usize = if lo < 0 {
        (-(lo as i128)) as usize
    } else {
        lo as usize
    };
    let abs_hi: usize = if hi < 0 {
        (-(hi as i128)) as usize
    } else {
        hi as usize
    };
    let abs = if abs_lo > abs_hi {
        abs_lo
    } else {
        abs_hi
    };
    Some((lo, hi, abs))
}

/// Why a seeded root window cannot be compared with a reference ordinal.
#[derive(Clone, Copy, Debug, PartialEq, Eq, Structural)]
pub enum SeededWindowError {
    /// The window begins after the reference ordinal.
    BeginsAfter { reference_index: usize },
    /// The window ends before the reference ordinal.
    EndsBefore { reference_index: usize },
}

/// The position, within a seeded root window, of the root refined from the
/// reference zero with one-based ordinal `reference_index`: seeded
/// refinement keeps the ordinals it was assigned.
pub fn seeded_root_offset(
    reference_index: usize,
    first_positive_root_index: usize,
    window_len: usize,
) -> (r: Result<usize, SeededWindowError>)
    ensures
        reference_index < first_positive_root_index ==> r == Err::<usize, SeededWindowError>(
            SeededWindowError::BeginsAfter { reference_index },
        ),
        reference_index >= first_positive_root_index && reference_index - first_positive_root_index
            >= window_len ==> r == Err::<usize, SeededWindowError>(
            SeededWindowError::EndsBefore { reference_index },
        ),
        reference_index >= first_positive_root_index && reference_index - first_positive_root_index
            < window_len ==> r == Ok::<usize, SeededWindowError>(
            (reference_index - first_positive_root_index) as usize,
        ),
{
    if reference_index < first_positive_root_index {
        return Err(SeededWindowError::BeginsAfter { reference_index });
    }
    let offset = reference_index - first_positive_root_index;
    if offset >= window_len {
        return Err(SeededWindowError::EndsBefore { reference_index });
    }
    Ok(offset)
}

} // verus!
