//! Monotone one-to-one alignment of discovered roots with reference zeros.
//!
//! Entry `d[i][j]` of a digit matrix is the number of matching decimal digits
//! between discovered root `i` and reference zero `j`, in a fixed-point unit
//! chosen by the caller (or `None` when the comparison is unavailable). A root
//! may be matched with a zero only when the entry reaches the threshold. The
//! alignment maximises first the number of identified zeros and then the total
//! matching quality.

use vstd::prelude::*;

verus! {

/// Lexicographic comparison of scores `(matches, quality)`.
pub open spec fn lex_better(a: (nat, nat), b: (nat, nat)) -> bool {
    a.0 > b.0 || (a.0 == b.0 && a.1 > b.1)
}

/// Number of reference zeros (the width of the matrix).
pub open spec fn zero_count(d: Seq<Seq<Option<u64>>>) -> nat {
    if d.len() == 0 {
        0
    } else {
        d[0].len()
    }
}

/// Every row of the matrix has the same width.
pub open spec fn rectangular(d: Seq<Seq<Option<u64>>>) -> bool {
    forall|i: int| 0 <= i < d.len() ==> #[trigger] d[i].len() == zero_count(d)
}

/// Root `i` may be matched with reference zero `j`.
pub open spec fn is_edge(d: Seq<Seq<Option<u64>>>, threshold: u64, i: int, j: int) -> bool {
    match d[i][j] {
        Some(x) => x >= threshold,
        None => false,
    }
}

/// Quality contributed by matching root `i` with reference zero `j`.
pub open spec fn edge_quality(d: Seq<Seq<Option<u64>>>, i: int, j: int) -> nat {
    match d[i][j] {
        Some(x) => x as nat,
        None => 0,
    }
}

/// Score contributed by one assignment entry of root `k`.
pub open spec fn entry_score(d: Seq<Seq<Option<u64>>>, k: int, entry: Option<usize>) -> (nat, nat) {
    match entry {
        Some(j) => (1, edge_quality(d, k, j as int)),
        None => (0, 0),
    }
}

/// Score of an assignment of the first `a.len()` roots: the number of matched
/// roots and the total quality of their matches.
pub open spec fn alignment_score(d: Seq<Seq<Option<u64>>>, a: Seq<Option<usize>>) -> (nat, nat)
    decreases a.len(),
{
    if a.len() == 0 {
        (0, 0)
    } else {
        let rest = alignment_score(d, a.drop_last());
        let last = entry_score(d, a.len() - 1, a.last());
        (rest.0 + last.0, rest.1 + last.1)
    }
}

/// `a` assigns each of its roots at most one reference zero below `width`,
/// only along edges, and strictly increasing in root order.
pub open spec fn valid_prefix(
    d: Seq<Seq<Option<u64>>>,
    threshold: u64,
    a: Seq<Option<usize>>,
    width: int,
) -> bool {
    &&& a.len() <= d.len()
    &&& forall|k: int|
        0 <= k < a.len() && a[k] is Some ==> {
            &&& (a[k]->0 as int) < width
            &&& is_edge(d, threshold, k, a[k]->0 as int)
        }
    &&& forall|k1: int, k2: int|
        0 <= k1 < k2 < a.len() && a[k1] is Some && a[k2] is Some ==> (a[k1]->0 as int) < (
        a[k2]->0 as int)
}

/// A complete monotone one-to-one alignment of all roots.
pub open spec fn valid_alignment(d: Seq<Seq<Option<u64>>>, threshold: u64, a: Seq<Option<usize>>) -> bool {
    &&& a.len() == d.len()
    &&& valid_prefix(d, threshold, a, zero_count(d) as int)
}

/// The step chosen by the dynamic program at a table cell.
#[derive(Clone, Copy, Debug, PartialEq, Eq, Structural)]
pub enum AlignmentStep {
    Start,
    SkipRoot,
    SkipReference,
    Match,
}

/// The dynamic-programming table: for the first `i` roots and the first `j`
/// reference zeros, the chosen step and the best score. Ties keep skipping a
/// root, then skipping a reference zero, before a match.
pub open spec fn cell(d: Seq<Seq<Option<u64>>>, threshold: u64, i: nat, j: nat) -> (
    AlignmentStep,
    (nat, nat),
)
    decreases i + j,
{
    if i == 0 && j == 0 {
        (AlignmentStep::Start, (0, 0))
    } else if j == 0 {
        (AlignmentStep::SkipRoot, (0, 0))
    } else if i == 0 {
        (AlignmentStep::SkipReference, (0, 0))
    } else {
        let skip_root = cell(d, threshold, (i - 1) as nat, j).1;
        let skip_reference = cell(d, threshold, i, (j - 1) as nat).1;
        let first = if lex_better(skip_reference, skip_root) {
            (AlignmentStep::SkipReference, skip_reference)
        } else {
            (AlignmentStep::SkipRoot, skip_root)
        };
        if is_edge(d, threshold, i - 1, j - 1) {
            let previous = cell(d, threshold, (i - 1) as nat, (j - 1) as nat).1;
            let candidate = (previous.0 + 1, previous.1 + edge_quality(d, i - 1, j - 1));
            if lex_better(candidate, first.1) {
                (AlignmentStep::Match, candidate)
            } else {
                first
            }
        } else {
            first
        }
    }
}

/// The assignment recovered by walking the chosen steps back from cell `(i, j)`.
pub open spec fn traceback(d: Seq<Seq<Option<u64>>>, threshold: u64, i: nat, j: nat) -> Seq<
    Option<usize>,
>
    decreases i + j,
{
    match cell(d, threshold, i, j).0 {
        AlignmentStep::Match => if i > 0 && j > 0 {
            traceback(d, threshold, (i - 1) as nat, (j - 1) as nat).push(Some((j - 1) as usize))
        } else {
            Seq::empty()
        },
        AlignmentStep::SkipRoot => if i > 0 {
            traceback(d, threshold, (i - 1) as nat, j).push(None)
        } else {
            Seq::empty()
        },
        AlignmentStep::SkipReference => if j > 0 {
            traceback(d, threshold, i, (j - 1) as nat)
        } else {
            Seq::empty()
        },
        AlignmentStep::Start => Seq::empty(),
    }
}

/// The alignment of all roots against all reference zeros.
pub open spec fn spec_alignment(d: Seq<Seq<Option<u64>>>, threshold: u64) -> Seq<Option<usize>> {
    traceback(d, threshold, d.len(), zero_count(d))
}


/// `a` scores no better than `b`.
pub open spec fn lex_le(a: (nat, nat), b: (nat, nat)) -> bool {
    !lex_better(a, b)
}

/// Each option of a cell scores no better than the cell itself.
proof fn lemma_cell_dominates(d: Seq<Seq<Option<u64>>>, threshold: u64, i: nat, j: nat)
    requires
        i > 0 || j > 0,
    ensures
        i > 0 ==> lex_le(cell(d, threshold, (i - 1) as nat, j).1, cell(d, threshold, i, j).1),
        j > 0 ==> lex_le(cell(d, threshold, i, (j - 1) as nat).1, cell(d, threshold, i, j).1),
        i > 0 && j > 0 && is_edge(d, threshold, i - 1, j - 1) ==> lex_le(
            (
                cell(d, threshold, (i - 1) as nat, (j - 1) as nat).1.0 + 1,
                cell(d, threshold, (i - 1) as nat, (j - 1) as nat).1.1 + edge_quality(
                    d,
                    i - 1,
                    j - 1,
                ),
            ),
            cell(d, threshold, i, j).1,
        ),
{
    if i > 0 && j == 0 {
        assert(cell(d, threshold, (i - 1) as nat, 0).1 == (0nat, 0nat));
    }
    if i == 0 && j > 0 {
        assert(cell(d, threshold, 0, (j - 1) as nat).1 == (0nat, 0nat));
    }
}

/// Appending one entry adds its score.
proof fn lemma_score_push(d: Seq<Seq<Option<u64>>>, a: Seq<Option<usize>>, e: Option<usize>)
    ensures
        alignment_score(d, a.push(e)) == (
            alignment_score(d, a).0 + entry_score(d, a.len() as int, e).0,
            alignment_score(d, a).1 + entry_score(d, a.len() as int, e).1,
        ),
{
    assert(a.push(e).drop_last() =~= a);
}

/// No valid assignment of the first `i` roots into the first `j` reference
/// zeros scores better than the table cell `(i, j)`.
proof fn lemma_cell_is_optimal(
    d: Seq<Seq<Option<u64>>>,
    threshold: u64,
    a: Seq<Option<usize>>,
    i: nat,
    j: nat,
)
    requires
        a.len() == i,
        valid_prefix(d, threshold, a, j as int),
    ensures
        lex_le(alignment_score(d, a), cell(d, threshold, i, j).1),
    decreases i + j,
{
    if i == 0 {
        return;
    }
    let rest = a.drop_last();
    assert(a =~= rest.push(a.last()));
    lemma_score_push(d, rest, a.last());
    lemma_cell_dominates(d, threshold, i, j);
    match a.last() {
        None => {
            lemma_cell_is_optimal(d, threshold, rest, (i - 1) as nat, j);
        },
        Some(r) => {
            assert(a[i - 1] is Some);
            if (r as int) < j - 1 {
                assert(valid_prefix(d, threshold, a, j - 1));
                lemma_cell_is_optimal(d, threshold, a, i, (j - 1) as nat);
            } else {
                assert(r as int == j - 1);
                assert forall|k: int| 0 <= k < rest.len() && rest[k] is Some implies (rest[k]->0 as int)
                    < j - 1 by {
                    assert(a[k] == rest[k]);
                }
                assert(valid_prefix(d, threshold, rest, j - 1));
                lemma_cell_is_optimal(d, threshold, rest, (i - 1) as nat, (j - 1) as nat);
            }
        },
    }
}

/// The traceback from a cell is a valid assignment that achieves the cell's score.
proof fn lemma_traceback_achieves_cell(d: Seq<Seq<Option<u64>>>, threshold: u64, i: nat, j: nat)
    requires
        i <= d.len(),
        j <= usize::MAX,
    ensures
        traceback(d, threshold, i, j).len() == i,
        valid_prefix(d, threshold, traceback(d, threshold, i, j), j as int),
        alignment_score(d, traceback(d, threshold, i, j)) == cell(d, threshold, i, j).1,
    decreases i + j,
{
    let t = traceback(d, threshold, i, j);
    match cell(d, threshold, i, j).0 {
        AlignmentStep::Start => {
            assert(i == 0 && j == 0);
        },
        AlignmentStep::Match => {
            assert(i > 0 && j > 0);
            let i1 = (i - 1) as nat;
            let j1 = (j - 1) as nat;
            lemma_traceback_achieves_cell(d, threshold, i1, j1);
            let prev = traceback(d, threshold, i1, j1);
            lemma_score_push(d, prev, Some(j1 as usize));
            assert(t == prev.push(Some(j1 as usize)));
            assert forall|k: int| 0 <= k < t.len() && t[k] is Some implies {
                &&& (t[k]->0 as int) < j
                &&& is_edge(d, threshold, k, t[k]->0 as int)
            } by {
                if k < prev.len() {
                    assert(t[k] == prev[k]);
                }
            }
            assert forall|k1: int, k2: int|
                0 <= k1 < k2 < t.len() && t[k1] is Some && t[k2] is Some implies (t[k1]->0 as int) < (
            t[k2]->0 as int) by {
                assert(t[k1] == prev[k1]);
                if k2 < prev.len() {
                    assert(t[k2] == prev[k2]);
                }
            }
        },
        AlignmentStep::SkipRoot => {
            assert(i > 0);
            let i1 = (i - 1) as nat;
            lemma_traceback_achieves_cell(d, threshold, i1, j);
            let prev = traceback(d, threshold, i1, j);
            lemma_score_push(d, prev, None);
            assert(t == prev.push(None));
            if j > 0 {
                assert(cell(d, threshold, i, j).1 == cell(d, threshold, i1, j).1);
            } else {
                assert(cell(d, threshold, i1, j).1 == (0nat, 0nat));
            }
            assert forall|k: int| 0 <= k < t.len() && t[k] is Some implies {
                &&& (t[k]->0 as int) < j
                &&& is_edge(d, threshold, k, t[k]->0 as int)
            } by {
                assert(t[k] == prev[k]);
            }
            assert forall|k1: int, k2: int|
                0 <= k1 < k2 < t.len() && t[k1] is Some && t[k2] is Some implies (t[k1]->0 as int) < (
            t[k2]->0 as int) by {
                assert(t[k1] == prev[k1]);
                assert(t[k2] == prev[k2]);
            }
        },
        AlignmentStep::SkipReference => {
            assert(j > 0);
            let j1 = (j - 1) as nat;
            lemma_traceback_achieves_cell(d, threshold, i, j1);
            if i == 0 {
                assert(cell(d, threshold, i, j1).1 == (0nat, 0nat));
            }
        },
    }
}

/// The table's scores never exceed one match per root and the largest
/// quality per match.
proof fn lemma_cell_bounds(d: Seq<Seq<Option<u64>>>, threshold: u64, i: nat, j: nat)
    ensures
        cell(d, threshold, i, j).1.0 <= i,
        cell(d, threshold, i, j).1.1 <= cell(d, threshold, i, j).1.0 * 0xffff_ffff_ffff_ffffnat,
    decreases i + j,
{
    if i > 0 && j > 0 {
        let i1 = (i - 1) as nat;
        let j1 = (j - 1) as nat;
        lemma_cell_bounds(d, threshold, i1, j);
        lemma_cell_bounds(d, threshold, i, j1);
        lemma_cell_bounds(d, threshold, i1, j1);
        let previous = cell(d, threshold, i1, j1).1;
        let q = edge_quality(d, i - 1, j - 1);
        assert(q <= 0xffff_ffff_ffff_ffffnat);
        assert(previous.1 + q <= (previous.0 + 1) * 0xffff_ffff_ffff_ffffnat) by (nonlinear_arith)
            requires
                previous.1 <= previous.0 * 0xffff_ffff_ffff_ffffnat,
                q <= 0xffff_ffff_ffff_ffffnat,
        ;
    }
}

/// The alignment of all roots is a valid monotone one-to-one alignment.
pub proof fn lemma_alignment_is_valid(d: Seq<Seq<Option<u64>>>, threshold: u64)
    requires
        zero_count(d) <= usize::MAX,
    ensures
        valid_alignment(d, threshold, spec_alignment(d, threshold)),
{
    lemma_traceback_achieves_cell(d, threshold, d.len(), zero_count(d));
}

/// No valid monotone one-to-one alignment identifies more reference zeros
/// than the computed alignment, nor, with as many, a larger total quality.
pub proof fn lemma_alignment_is_optimal(
    d: Seq<Seq<Option<u64>>>,
    threshold: u64,
    other: Seq<Option<usize>>,
)
    requires
        zero_count(d) <= usize::MAX,
        valid_alignment(d, threshold, other),
    ensures
        lex_le(alignment_score(d, other), alignment_score(d, spec_alignment(d, threshold))),
{
    lemma_traceback_achieves_cell(d, threshold, d.len(), zero_count(d));
    lemma_cell_is_optimal(d, threshold, other, d.len(), zero_count(d));
}

/// Running score of a partial alignment.
#[derive(Clone, Copy, Debug, PartialEq, Eq)]
pub struct AlignmentScore {
    pub matches: usize,
    pub quality: u128,
}

impl View for AlignmentScore {
    type V = (nat, nat);

    open spec fn view(&self) -> (nat, nat) {
        (self.matches as nat, self.quality as nat)
    }
}

/// Whether `candidate` identifies more zeros than `current`, or as many with
/// a larger total quality.
pub fn score_is_better(candidate: AlignmentScore, current: AlignmentScore) -> (r: bool)
    ensures
        r == lex_better(candidate@, current@),
{
    candidate.matches > current.matches || (candidate.matches == current.matches
        && candidate.quality > current.quality)
}

/// Entry `(i, j)` of the matrix as the verified code reads it.
proof fn lemma_digit_at(m: &Vec<Vec<Option<u64>>>, i: int, j: int)
    requires
        0 <= i < m@.len(),
        0 <= j < m@[i]@.len(),
    ensures
        m.deep_view()[i].len() == m@[i]@.len(),
        m.deep_view()[i][j] == m@[i]@[j],
{
    let row = m@[i];
    assert(m.deep_view()[i] == row.deep_view());
    match row@[j] {
        Some(x) => {},
        None => {},
    }
}

/// Finds a monotone one-to-one alignment between discovered roots (rows) and
/// reference zeros (columns). Root `i` can be matched with zero `j` only when
/// `matching_digits[i][j]` reaches `minimum_match_digits`. The result assigns
/// each root its matched zero, or `None`; it identifies as many zeros as any
/// valid alignment can, and among those alignments has the largest total
/// matching quality.
pub fn align_discovered_roots(
    matching_digits: &Vec<Vec<Option<u64>>>,
    minimum_match_digits: u64,
) -> (assignments: Vec<Option<usize>>)
    requires
        rectangular(matching_digits.deep_view()),
    ensures
        assignments@ == spec_alignment(matching_digits.deep_view(), minimum_match_digits),
        valid_alignment(matching_digits.deep_view(), minimum_match_digits, assignments@),
        forall|other: Seq<Option<usize>>|
            valid_alignment(matching_digits.deep_view(), minimum_match_digits, other) ==> lex_le(
                #[trigger] alignment_score(matching_digits.deep_view(), other),
                alignment_score(matching_digits.deep_view(), assignments@),
            ),
{
    let ghost d = matching_digits.deep_view();
    let ghost t = minimum_match_digits;
    let root_count = matching_digits.len();
    let reference_count = if root_count == 0 {
        0
    } else {
        matching_digits[0].len()
    };
    proof {
        if root_count > 0 {
            assert(d[0] == matching_digits@[0].deep_view());
        }
        assert(reference_count == zero_count(d));
        assert(d.len() == root_count);
    }
    let zero = AlignmentScore { matches: 0, quality: 0 };
    let mut scores: Vec<Vec<AlignmentScore>> = Vec::new();
    let mut steps: Vec<Vec<AlignmentStep>> = Vec::new();

    let mut first_scores: Vec<AlignmentScore> = Vec::new();
    let mut first_steps: Vec<AlignmentStep> = Vec::new();
    first_scores.push(zero);
    first_steps.push(AlignmentStep::Start);
    let mut reference: usize = 0;
    while reference < reference_count
        invariant
            reference <= reference_count,
            zero@ == (0nat, 0nat),
            first_scores@.len() == reference + 1,
            first_steps@.len() == reference + 1,
            forall|j: int| 0 <= j <= reference ==> #[trigger] first_scores@[j]@ == cell(d, t, 0, j as nat).1,
            forall|j: int| 0 <= j <= reference ==> #[trigger] first_steps@[j] == cell(d, t, 0, j as nat).0,
        decreases reference_count - reference,
    {
        first_scores.push(zero);
        first_steps.push(AlignmentStep::SkipReference);
        reference = reference + 1;
        assert(cell(d, t, 0, reference as nat) == (AlignmentStep::SkipReference, (0nat, 0nat)));
        assert(first_scores@[reference as int]@ == cell(d, t, 0, reference as nat).1);
        assert(first_steps@[reference as int] == cell(d, t, 0, reference as nat).0);
    }
    scores.push(first_scores);
    steps.push(first_steps);
    assert(scores@[0] == first_scores);
    assert(steps@[0] == first_steps);

    let mut root: usize = 0;
    while root < root_count
        invariant
            root <= root_count,
            zero@ == (0nat, 0nat),
            root_count == matching_digits@.len(),
            d.len() == root_count,
            reference_count == zero_count(d),
            d == matching_digits.deep_view(),
            t == minimum_match_digits,
            rectangular(d),
            scores@.len() == root + 1,
            steps@.len() == root + 1,
            forall|i: int| 0 <= i <= root ==> #[trigger] scores@[i]@.len() == reference_count + 1,
            forall|i: int| 0 <= i <= root ==> #[trigger] steps@[i]@.len() == reference_count + 1,
            forall|i: int, j: int|
                0 <= i <= root && 0 <= j <= reference_count ==> #[trigger] scores@[i]@[j]@ == cell(
                    d,
                    t,
                    i as nat,
                    j as nat,
                ).1,
            forall|i: int, j: int|
                0 <= i <= root && 0 <= j <= reference_count ==> #[trigger] steps@[i]@[j] == cell(
                    d,
                    t,
                    i as nat,
                    j as nat,
                ).0,
        decreases root_count - root,
    {
        let row = &matching_digits[root];
        proof {
            assert(d[root as int].len() == zero_count(d));
            assert(d[root as int] == row.deep_view());
        }
        let mut row_scores: Vec<AlignmentScore> = Vec::new();
        let mut row_steps: Vec<AlignmentStep> = Vec::new();
        row_scores.push(zero);
        row_steps.push(AlignmentStep::SkipRoot);
        let mut j: usize = 0;
        while j < reference_count
            invariant
                root < root_count,
                zero@ == (0nat, 0nat),
                root_count == matching_digits@.len(),
                reference_count == zero_count(d),
                d == matching_digits.deep_view(),
                t == minimum_match_digits,
                rectangular(d),
                row == matching_digits@[root as int],
                row@.len() == reference_count,
                j <= reference_count,
                scores@.len() == root + 1,
                forall|i: int| 0 <= i <= root ==> #[trigger] scores@[i]@.len() == reference_count + 1,
                forall|i: int, k: int|
                    0 <= i <= root && 0 <= k <= reference_count ==> #[trigger] scores@[i]@[k]@
                        == cell(d, t, i as nat, k as nat).1,
                row_scores@.len() == j + 1,
                row_steps@.len() == j + 1,
                forall|k: int|
                    0 <= k <= j ==> #[trigger] row_scores@[k]@ == cell(d, t, (root + 1) as nat, k as nat).1,
                forall|k: int|
                    0 <= k <= j ==> #[trigger] row_steps@[k] == cell(d, t, (root + 1) as nat, k as nat).0,
            decreases reference_count - j,
        {
            let skip_root = scores[root][j + 1];
            assert(skip_root@ == cell(d, t, root as nat, (j + 1) as nat).1);
            let skip_reference = row_scores[j];
            let mut best = skip_root;
            let mut step = AlignmentStep::SkipRoot;
            if score_is_better(skip_reference, best) {
                best = skip_reference;
                step = AlignmentStep::SkipReference;
            }
            let entry = row[j];
            proof {
                lemma_digit_at(matching_digits, root as int, j as int);
                lemma_cell_bounds(d, t, root as nat, j as nat);
            }
            if let Some(digits) = entry {
                if digits >= minimum_match_digits {
                    let previous = scores[root][j];
                    proof {
                        assert(previous@ == cell(d, t, root as nat, j as nat).1);
                        assert(previous.quality + digits <= (previous.matches + 1) * 0xffff_ffff_ffff_ffffnat)
                            by (nonlinear_arith)
                            requires
                                previous.quality <= previous.matches * 0xffff_ffff_ffff_ffffnat,
                                digits <= 0xffff_ffff_ffff_ffffnat,
                        ;
                        assert((previous.matches + 1) * 0xffff_ffff_ffff_ffffnat <= 0xffff_ffff_ffff_ffff_ffff_ffff_ffff_ffffnat)
                            by (nonlinear_arith)
                            requires
                                previous.matches < 0xffff_ffff_ffff_ffffnat,
                        ;
                    }
                    let candidate = AlignmentScore {
                        matches: previous.matches + 1,
                        quality: previous.quality + digits as u128,
                    };
                    if score_is_better(candidate, best) {
                        best = candidate;
                        step = AlignmentStep::Match;
                    }
                }
            }
            row_scores.push(best);
            row_steps.push(step);
            j = j + 1;
            assert(row_scores@[j as int]@ == cell(d, t, (root + 1) as nat, j as nat).1);
            assert(row_steps@[j as int] == cell(d, t, (root + 1) as nat, j as nat).0);
        }
        scores.push(row_scores);
        steps.push(row_steps);
        root = root + 1;
        assert(scores@[root as int] == row_scores);
        assert(steps@[root as int] == row_steps);
    }

    let mut assignments: Vec<Option<usize>> = Vec::new();
    let mut k: usize = 0;
    while k < root_count
        invariant
            k <= root_count,
            assignments@.len() == k,
            forall|x: int| 0 <= x < k ==> #[trigger] assignments@[x] == None::<usize>,
        decreases root_count - k,
    {
        assignments.push(None);
        k = k + 1;
    }

    let mut root: usize = root_count;
    let mut reference: usize = reference_count;
    proof {
        lemma_traceback_achieves_cell(d, t, root_count as nat, reference_count as nat);
        lemma_traceback_achieves_cell(d, t, root as nat, reference as nat);
        assert(assignments@.skip(root as int) =~= Seq::<Option<usize>>::empty());
        assert(traceback(d, t, root as nat, reference as nat) + assignments@.skip(root as int)
            =~= traceback(d, t, root as nat, reference as nat));
    }
    while root > 0 || reference > 0
        invariant
            root <= root_count,
            reference <= reference_count,
            root_count == matching_digits@.len(),
            reference_count == zero_count(d),
            reference_count <= usize::MAX,
            d.len() == root_count,
            scores@.len() == root_count + 1,
            steps@.len() == root_count + 1,
            forall|i: int| 0 <= i <= root_count ==> #[trigger] steps@[i]@.len() == reference_count + 1,
            forall|i: int, j: int|
                0 <= i <= root_count && 0 <= j <= reference_count ==> #[trigger] steps@[i]@[j]
                    == cell(d, t, i as nat, j as nat).0,
            assignments@.len() == root_count,
            forall|x: int| 0 <= x < root ==> #[trigger] assignments@[x] == None::<usize>,
            traceback(d, t, root as nat, reference as nat).len() == root,
            traceback(d, t, root as nat, reference as nat) + assignments@.skip(root as int)
                == traceback(d, t, root_count as nat, reference_count as nat),
        decreases root + reference,
    {
        let ghost before = assignments@;
        let ghost root0 = root;
        let ghost reference0 = reference;
        let step = steps[root][reference];
        match step {
            AlignmentStep::Match => {
                proof {
                    assert(root > 0 && reference > 0) by {
                        if root == 0 || reference == 0 {
                            assert(cell(d, t, root as nat, reference as nat).0 != AlignmentStep::Match);
                        }
                    }
                }
                assignments.set(root - 1, Some(reference - 1));
                root = root - 1;
                reference = reference - 1;
            },
            AlignmentStep::SkipRoot => {
                proof {
                    assert(root > 0) by {
                        if root == 0 {
                            assert(cell(d, t, root as nat, reference as nat).0 != AlignmentStep::SkipRoot);
                        }
                    }
                }
                root = root - 1;
            },
            AlignmentStep::SkipReference => {
                proof {
                    assert(reference > 0) by {
                        if reference == 0 {
                            assert(cell(d, t, root as nat, reference as nat).0 != AlignmentStep::SkipReference);
                        }
                    }
                }
                reference = reference - 1;
            },
            AlignmentStep::Start => {
                proof {
                    assert(root == 0 && reference == 0) by {
                        if root > 0 || reference > 0 {
                            assert(cell(d, t, root as nat, reference as nat).0 != AlignmentStep::Start);
                        }
                    }
                }
            },
        }
        proof {
            lemma_traceback_achieves_cell(d, t, root as nat, reference as nat);
            let tb0 = traceback(d, t, root0 as nat, reference0 as nat);
            let tb1 = traceback(d, t, root as nat, reference as nat);
            if root < root0 {
                assert(tb0 == tb1.push(assignments@[root as int]));
                assert(assignments@.skip(root as int) =~= seq![assignments@[root as int]] + before.skip(
                    root0 as int,
                ));
                assert(tb1 + assignments@.skip(root as int) =~= tb0 + before.skip(root0 as int));
            } else {
                assert(tb0 == tb1);
            }
        }
    }
    proof {
        assert(traceback(d, t, 0, 0) =~= Seq::<Option<usize>>::empty());
        assert(assignments@.skip(0) =~= assignments@);
        lemma_alignment_is_valid(d, t);
        assert forall|other: Seq<Option<usize>>|
            valid_alignment(d, t, other) implies lex_le(
            #[trigger] alignment_score(d, other),
            alignment_score(d, assignments@),
        ) by {
            lemma_alignment_is_optimal(d, t, other);
        }
    }
    assignments
}

} // verus!
