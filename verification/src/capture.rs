//! Durable claim journals: applicability policies decided before any
//! computation, the diagnostics a capture requests, and the recipe details
//! that the shared capture plan is built from.

use vstd::prelude::*;
use crate::research::ResearchCapture;
use crate::text::{decimal, decimal_string, decimal_string_u128, join, sort_strings, texts, texts_sorted};

verus! {

/// Named applicability policy; exclusions are recorded before computation.
#[derive(Clone, Copy, Debug, PartialEq, Eq, Structural)]
pub enum CapturePolicy {
    Full,
    Claim1cHp1000,
    Claim8Natural,
}

/// The command-line name of a policy.
pub open spec fn spec_policy_name(policy: CapturePolicy) -> Seq<char> {
    match policy {
        CapturePolicy::Full => "full"@,
        CapturePolicy::Claim1cHp1000 => "claim1c-hp1000"@,
        CapturePolicy::Claim8Natural => "claim8-natural"@,
    }
}

impl CapturePolicy {
    /// The command-line (and journal) name of the policy.
    pub fn name(self) -> (s: String)
        ensures
            s@ == spec_policy_name(self),
    {
        match self {
            CapturePolicy::Full => String::from_str("full"),
            CapturePolicy::Claim1cHp1000 => String::from_str("claim1c-hp1000"),
            CapturePolicy::Claim8Natural => String::from_str("claim8-natural"),
        }
    }
}

/// Options shared by every claim command that control the private journal.
#[derive(Clone, Debug)]
pub struct CaptureJournalArgs {
    /// Named applicability policy.
    pub capture_policy: CapturePolicy,
    /// Parent directory for unique private claim journals.
    pub capture_output: String,
    /// Additional retained prefix dimensions k=N+1.
    pub capture_prefix_checkpoints: Vec<usize>,
    /// Arithmetic precision for retained diagnostics.
    pub capture_working_precision_bits: Option<u32>,
    /// Override of the default distance convention grid.
    pub capture_grid_resolution: Option<usize>,
    /// Override of the retained eigenfunction sampling.
    pub capture_profile_steps: Option<usize>,
    /// Cubic reduction budget for Ultra.
    pub capture_reduction_max_dimension: usize,
    /// Fail after saving the journal if any requested capture is incomplete.
    pub require_complete_capture: bool,
}

/// The parity policy that the primary computation effectively used.
#[derive(Clone, Copy, Debug, PartialEq, Eq, Structural)]
pub enum ParityPolicy {
    Natural,
    EvenSector,
}

/// The configuration of the primary computation that policies inspect.
#[derive(Clone, Copy, Debug, PartialEq, Eq, Structural)]
pub struct PrimaryConfiguration {
    pub lambda_sq: u64,
    pub n_modes: usize,
    pub precision_bits: u32,
    pub parity: ParityPolicy,
}

/// Why a capture request was refused.
#[derive(Clone, Debug)]
pub enum CaptureError {
    /// The Claim 8 policy was selected for another configuration.
    Claim8Configuration,
    /// The Claim 8 policy was combined with prefix or precision overrides.
    Claim8Overrides,
    /// The Claim 1c policy was selected for another configuration.
    Claim1cConfiguration,
    /// The Claim 1c policy was combined with prefix or precision overrides.
    Claim1cOverrides,
    /// A policy excludes a diagnostic the plan does not request.
    UnknownExclusion,
    /// Some requested capture is incomplete and completeness was required.
    IncompleteCapture { directory: String },
}

pub open spec fn spec_capture_error_message(e: CaptureError) -> Seq<char> {
    match e {
        CaptureError::Claim8Configuration => "claim8-natural capture policy requires Ultra, (lambda-squared,N)=(13,120) or (100,500), HP-1000 (3386 bits), and natural parity"@,
        CaptureError::Claim8Overrides => "claim8-natural uses the frozen prefix recipe; use a separate full-policy research run for checkpoint or precision overrides"@,
        CaptureError::Claim1cConfiguration => "claim1c-hp1000 capture policy requires Ultra, lambda-squared=1000, N=800, HP-1000 (3386 bits), and even-sector parity"@,
        CaptureError::Claim1cOverrides => "claim1c-hp1000 excludes prefix diagnostics; use a separate full-policy research run for prefix or precision overrides"@,
        CaptureError::UnknownExclusion => "capture policy excludes an unknown diagnostic"@,
        CaptureError::IncompleteCapture { directory } => "capture incomplete; primary and receipts preserved in "@
            + directory@,
    }
}

impl CaptureError {
    /// The human-readable description of the error.
    pub fn message(&self) -> (s: String)
        ensures
            s@ == spec_capture_error_message(*self),
    {
        match self {
            CaptureError::Claim8Configuration => String::from_str(
                "claim8-natural capture policy requires Ultra, (lambda-squared,N)=(13,120) or (100,500), HP-1000 (3386 bits), and natural parity",
            ),
            CaptureError::Claim8Overrides => String::from_str(
                "claim8-natural uses the frozen prefix recipe; use a separate full-policy research run for checkpoint or precision overrides",
            ),
            CaptureError::Claim1cConfiguration => String::from_str(
                "claim1c-hp1000 capture policy requires Ultra, lambda-squared=1000, N=800, HP-1000 (3386 bits), and even-sector parity",
            ),
            CaptureError::Claim1cOverrides => String::from_str(
                "claim1c-hp1000 excludes prefix diagnostics; use a separate full-policy research run for prefix or precision overrides",
            ),
            CaptureError::UnknownExclusion => String::from_str(
                "capture policy excludes an unknown diagnostic",
            ),
            CaptureError::IncompleteCapture { directory } => join(
                String::from_str("capture incomplete; primary and receipts preserved in "),
                directory.as_str(),
            ),
        }
    }
}

/// Reason recorded for the two responses that Claim 8 leaves to its even route.
pub open spec fn claim8_response_reason() -> Seq<char> {
    "this response requires an isolated even-sector primary eigenstate; Claim 8 preserves the unrestricted natural primary and captures this response on the paired even route"@
}

/// Reason recorded for the eigenstate checkpoint that Claim 8 leaves to its even route.
pub open spec fn claim8_checkpoint_reason() -> Seq<char> {
    "the eigenstate checkpoint requires an exact even-sector source; the natural route retains the prefix ladder and innovation export without substituting or projecting its primary state"@
}

/// Reason recorded for the responses that Claim 1c cannot isolate.
pub open spec fn claim1c_response_reason() -> Seq<char> {
    "HP-1000 cannot isolate the lowest sector eigenvalues for this configuration; response derivatives require an isolated eigenstate"@
}

/// Reason recorded for the prefix diagnostics of Claim 1c.
pub open spec fn claim1c_prefix_reason() -> Seq<char> {
    "the HP-1000 retained prefix ladder reaches a nonpositive computed pivot at dimension 593; the dimension-801 export is unresolved, not a definiteness result"@
}

/// Reason recorded for the target comparisons of Claim 1c.
pub open spec fn claim1c_target_reason() -> Seq<char> {
    "the HP-1000 ground state is under-resolved and uniform-u target-distance refinement failed its tolerance through Q=16000; target comparisons are excluded, while the raw retained profile is preserved"@
}

/// The identifier of the eigenstate checkpoint export at prefix dimension `k`.
pub open spec fn checkpoint_id(k: nat) -> Seq<char> {
    "prefix_checkpoint_"@ + decimal(k)
}

/// The Claim 8 exclusions for a run with `n_modes` modes, in identifier order.
pub open spec fn claim8_exclusions(n_modes: nat) -> Seq<(Seq<char>, Seq<char>)> {
    seq![
        (checkpoint_id(n_modes + 1), claim8_checkpoint_reason()),
        ("prime_power_response"@, claim8_response_reason()),
        ("u_flow_response"@, claim8_response_reason()),
    ]
}

/// The Claim 1c exclusions, in identifier order.
pub open spec fn claim1c_exclusions() -> Seq<(Seq<char>, Seq<char>)> {
    seq![
        ("deviation_decomposition"@, claim1c_target_reason()),
        ("distance_resolution"@, claim1c_target_reason()),
        ("prefix_checkpoint_801"@, claim1c_prefix_reason()),
        ("prefix_ladder"@, claim1c_prefix_reason()),
        ("prime_power_response"@, claim1c_response_reason()),
        ("target_distance"@, claim1c_target_reason()),
        ("target_residual_analysis"@, claim1c_target_reason()),
        ("u_flow_response"@, claim1c_response_reason()),
    ]
}

/// The character views of identifier/reason pairs.
pub open spec fn pair_texts(v: Seq<(String, String)>) -> Seq<(Seq<char>, Seq<char>)> {
    Seq::new(v.len(), |i: int| (v[i].0@, v[i].1@))
}

/// The diagnostics a policy excludes for a run, or why the policy does not
/// apply to it.
pub open spec fn spec_exclusions(
    policy: CapturePolicy,
    level: ResearchCapture,
    run: PrimaryConfiguration,
    args: CaptureJournalArgs,
) -> Result<Seq<(Seq<char>, Seq<char>)>, CaptureError> {
    let no_overrides = args.capture_prefix_checkpoints@.len() == 0
        && args.capture_working_precision_bits is None;
    match policy {
        CapturePolicy::Full => Ok(Seq::empty()),
        CapturePolicy::Claim8Natural => if !(level == ResearchCapture::Ultra && ((run.lambda_sq == 13
            && run.n_modes == 120) || (run.lambda_sq == 100 && run.n_modes == 500))
            && run.precision_bits == 3386 && run.parity == ParityPolicy::Natural) {
            Err(CaptureError::Claim8Configuration)
        } else if !no_overrides {
            Err(CaptureError::Claim8Overrides)
        } else {
            Ok(claim8_exclusions(run.n_modes as nat))
        },
        CapturePolicy::Claim1cHp1000 => if !(level == ResearchCapture::Ultra && run.lambda_sq == 1000
            && run.n_modes == 800 && run.precision_bits == 3386 && run.parity
            == ParityPolicy::EvenSector) {
            Err(CaptureError::Claim1cConfiguration)
        } else if !no_overrides {
            Err(CaptureError::Claim1cOverrides)
        } else {
            Ok(claim1c_exclusions())
        },
    }
}

fn pair(id: &str, reason: String) -> (p: (String, String))
    ensures
        p.0@ == id@,
        p.1@ == reason@,
{
    (String::from_str(id), reason)
}

fn claim8_response_text() -> (s: String)
    ensures
        s@ == claim8_response_reason(),
{
    String::from_str(
        "this response requires an isolated even-sector primary eigenstate; Claim 8 preserves the unrestricted natural primary and captures this response on the paired even route",
    )
}

fn claim1c_response_text() -> (s: String)
    ensures
        s@ == claim1c_response_reason(),
{
    String::from_str(
        "HP-1000 cannot isolate the lowest sector eigenvalues for this configuration; response derivatives require an isolated eigenstate",
    )
}

fn claim1c_prefix_text() -> (s: String)
    ensures
        s@ == claim1c_prefix_reason(),
{
    String::from_str(
        "the HP-1000 retained prefix ladder reaches a nonpositive computed pivot at dimension 593; the dimension-801 export is unresolved, not a definiteness result",
    )
}

fn claim1c_target_text() -> (s: String)
    ensures
        s@ == claim1c_target_reason(),
{
    String::from_str(
        "the HP-1000 ground state is under-resolved and uniform-u target-distance refinement failed its tolerance through Q=16000; target comparisons are excluded, while the raw retained profile is preserved",
    )
}

/// The diagnostics that `policy` excludes, with their reasons, in identifier
/// order. These exclusions belong to frozen reproductions: the full policy
/// excludes nothing, and a named policy applies only to its exact Ultra
/// configuration without prefix or precision overrides.
pub fn exclusions(
    policy: CapturePolicy,
    level: ResearchCapture,
    run: PrimaryConfiguration,
    args: &CaptureJournalArgs,
) -> (r: Result<Vec<(String, String)>, CaptureError>)
    ensures
        match spec_exclusions(policy, level, run, *args) {
            Ok(expected) => r matches Ok(v) && pair_texts(v@) == expected,
            Err(e) => r matches Err(f) && f == e,
        },
{
    let mut result: Vec<(String, String)> = Vec::new();
    let no_overrides = args.capture_prefix_checkpoints.len() == 0
        && args.capture_working_precision_bits.is_none();
    match policy {
        CapturePolicy::Full => {
            proof {
                assert(pair_texts(result@) =~= Seq::<(Seq<char>, Seq<char>)>::empty());
            }
            Ok(result)
        },
        CapturePolicy::Claim8Natural => {
            if !(level == ResearchCapture::Ultra && ((run.lambda_sq == 13 && run.n_modes == 120)
                || (run.lambda_sq == 100 && run.n_modes == 500)) && run.precision_bits == 3386
                && run.parity == ParityPolicy::Natural) {
                return Err(CaptureError::Claim8Configuration);
            }
            if !no_overrides {
                return Err(CaptureError::Claim8Overrides);
            }
            let checkpoint = join(
                String::from_str("prefix_checkpoint_"),
                decimal_string((run.n_modes + 1) as u64).as_str(),
            );
            result.push(
                (
                    checkpoint,
                    String::from_str(
                        "the eigenstate checkpoint requires an exact even-sector source; the natural route retains the prefix ladder and innovation export without substituting or projecting its primary state",
                    ),
                ),
            );
            result.push(pair("prime_power_response", claim8_response_text()));
            result.push(pair("u_flow_response", claim8_response_text()));
            proof {
                assert(pair_texts(result@) =~= claim8_exclusions(run.n_modes as nat));
            }
            Ok(result)
        },
        CapturePolicy::Claim1cHp1000 => {
            if !(level == ResearchCapture::Ultra && run.lambda_sq == 1000 && run.n_modes == 800
                && run.precision_bits == 3386 && run.parity == ParityPolicy::EvenSector) {
                return Err(CaptureError::Claim1cConfiguration);
            }
            if !no_overrides {
                return Err(CaptureError::Claim1cOverrides);
            }
            result.push(pair("deviation_decomposition", claim1c_target_text()));
            result.push(pair("distance_resolution", claim1c_target_text()));
            result.push(pair("prefix_checkpoint_801", claim1c_prefix_text()));
            result.push(pair("prefix_ladder", claim1c_prefix_text()));
            result.push(pair("prime_power_response", claim1c_response_text()));
            result.push(pair("target_distance", claim1c_target_text()));
            result.push(pair("target_residual_analysis", claim1c_target_text()));
            result.push(pair("u_flow_response", claim1c_response_text()));
            proof {
                assert(pair_texts(result@) =~= claim1c_exclusions());
            }
            Ok(result)
        },
    }
}

/// The identifiers of identifier/reason pairs.
pub open spec fn pair_ids(v: Seq<(String, String)>) -> Seq<Seq<char>> {
    Seq::new(v.len(), |i: int| v[i].0@)
}

/// The entries of `s` that `excluded` does not name, in order.
pub open spec fn kept(s: Seq<Seq<char>>, excluded: Seq<Seq<char>>) -> Seq<Seq<char>>
    decreases s.len(),
{
    if s.len() == 0 {
        Seq::empty()
    } else {
        let rest = kept(s.drop_last(), excluded);
        if excluded.contains(s.last()) {
            rest
        } else {
            rest.push(s.last())
        }
    }
}

/// Everything a plan requests, with the retained reduction when it has a budget.
pub open spec fn planned(plan: Seq<Seq<char>>, reduction: bool) -> Seq<Seq<char>> {
    if reduction {
        plan.push("retained_reduction"@)
    } else {
        plan
    }
}

/// Whether `s` contains a string whose characters are `x@`.
fn contains_text(s: &Vec<String>, x: &String) -> (r: bool)
    ensures
        r == texts(s@).contains(x@),
{
    let mut k: usize = 0;
    while k < s.len()
        invariant
            k <= s@.len(),
            forall|j: int| 0 <= j < k ==> s@[j]@ != x@,
        decreases s@.len() - k,
    {
        if s[k] == *x {
            assert(texts(s@)[k as int] == x@);
            return true;
        }
        k = k + 1;
    }
    proof {
        if texts(s@).contains(x@) {
            let j = choose|j: int| 0 <= j < texts(s@).len() && texts(s@)[j] == x@;
            assert(s@[j]@ == x@);
        }
    }
    false
}

/// The identifiers of `v`.
fn ids_of(v: &Vec<(String, String)>) -> (r: Vec<String>)
    ensures
        texts(r@) == pair_ids(v@),
{
    let mut r: Vec<String> = Vec::new();
    let mut k: usize = 0;
    while k < v.len()
        invariant
            k <= v@.len(),
            r@.len() == k,
            forall|j: int| 0 <= j < k ==> #[trigger] r@[j]@ == v@[j].0@,
        decreases v@.len() - k,
    {
        r.push(v[k].0.clone());
        k = k + 1;
    }
    assert(texts(r@) =~= pair_ids(v@));
    r
}

/// The diagnostics a capture executes: everything the plan requests, plus
/// the retained reduction when it has a budget, minus the policy's
/// exclusions, in string order. Excluding a diagnostic the plan does not
/// request is an error.
pub fn requested_diagnostics(
    plan: &Vec<String>,
    reduction: bool,
    excluded: &Vec<(String, String)>,
) -> (r: Result<Vec<String>, CaptureError>)
    ensures
        (forall|i: int|
            0 <= i < excluded@.len() ==> planned(texts(plan@), reduction).contains(
                #[trigger] excluded@[i].0@,
            )) ==> (r matches Ok(v) && texts_sorted(texts(v@)) && texts(v@).to_multiset() == kept(
            planned(texts(plan@), reduction),
            pair_ids(excluded@),
        ).to_multiset()),
        !(forall|i: int|
            0 <= i < excluded@.len() ==> planned(texts(plan@), reduction).contains(
                #[trigger] excluded@[i].0@,
            )) ==> (r matches Err(CaptureError::UnknownExclusion)),
{
    let mut requested: Vec<String> = plan.clone();
    if reduction {
        requested.push(String::from_str("retained_reduction"));
    }
    proof {
        assert(texts(requested@) =~= planned(texts(plan@), reduction));
    }
    let mut k: usize = 0;
    while k < excluded.len()
        invariant
            k <= excluded@.len(),
            texts(requested@) == planned(texts(plan@), reduction),
            forall|i: int| 0 <= i < k ==> texts(requested@).contains(#[trigger] excluded@[i].0@),
        decreases excluded@.len() - k,
    {
        if !contains_text(&requested, &excluded[k].0) {
            return Err(CaptureError::UnknownExclusion);
        }
        k = k + 1;
    }
    let excluded_ids = ids_of(excluded);
    let mut retained: Vec<String> = Vec::new();
    let mut j: usize = 0;
    while j < requested.len()
        invariant
            j <= requested@.len(),
            texts(excluded_ids@) == pair_ids(excluded@),
            texts(retained@) == kept(texts(requested@).take(j as int), pair_ids(excluded@)),
        decreases requested@.len() - j,
    {
        let ghost prefix = texts(requested@).take(j as int);
        let ghost next = texts(requested@).take(j + 1);
        proof {
            assert(next.drop_last() =~= prefix);
            assert(next.last() == requested@[j as int]@);
        }
        if !contains_text(&excluded_ids, &requested[j]) {
            retained.push(requested[j].clone());
            proof {
                assert(texts(retained@) =~= kept(prefix, pair_ids(excluded@)).push(requested@[j as int]@));
            }
        }
        j = j + 1;
    }
    proof {
        assert(texts(requested@).take(requested@.len() as int) =~= texts(requested@));
    }
    Ok(sort_strings(retained))
}

/// The sequence is strictly increasing.
pub open spec fn strictly_increasing(s: Seq<usize>) -> bool {
    forall|i: int, j: int| 0 <= i < j < s.len() ==> s[i] < s[j]
}

/// Inserts `x` into a strictly increasing vector unless it is already there.
fn insert_unique(sorted: &mut Vec<usize>, x: usize)
    requires
        strictly_increasing(old(sorted)@),
    ensures
        strictly_increasing(final(sorted)@),
        forall|y: usize| final(sorted)@.contains(y) <==> (old(sorted)@.contains(y) || y == x),
{
    let ghost before = sorted@;
    let mut p: usize = 0;
    while p < sorted.len() && sorted[p] < x
        invariant
            p <= sorted@.len(),
            sorted@ == before,
            forall|k: int| 0 <= k < p ==> sorted@[k] < x,
        decreases sorted@.len() - p,
    {
        p = p + 1;
    }
    if p == sorted.len() || sorted[p] != x {
        sorted.insert(p, x);
        proof {
            before.insert_ensures(p as int, x);
            assert(sorted@ =~= before.insert(p as int, x));
            assert forall|y: usize| sorted@.contains(y) <==> (before.contains(y) || y == x) by {
                if sorted@.contains(y) {
                    let k = choose|k: int| 0 <= k < sorted@.len() && sorted@[k] == y;
                    if k < p {
                        assert(before[k] == y);
                    } else if k > p {
                        assert(before[k - 1] == y);
                    }
                }
                if before.contains(y) {
                    let k = choose|k: int| 0 <= k < before.len() && before[k] == y;
                    if k < p {
                        assert(sorted@[k] == y);
                    } else {
                        assert(sorted@[k + 1] == y);
                    }
                }
                if y == x {
                    assert(sorted@[p as int] == y);
                }
            }
        }
    } else {
        proof {
            assert(before[p as int] == x);
        }
    }
}

/// The retained prefix dimensions of a plan: when extra checkpoints are
/// requested, those and the full dimension, ascending and without repeats;
/// otherwise none beyond the plan's default.
pub fn prefix_checkpoints(requested: &Vec<usize>, dimension: usize) -> (r: Option<Vec<usize>>)
    ensures
        requested@.len() == 0 ==> r is None,
        requested@.len() > 0 ==> (r matches Some(v) && strictly_increasing(v@) && (forall|x: usize|
            v@.contains(x) <==> (requested@.contains(x) || x == dimension))),
{
    if requested.len() == 0 {
        return None;
    }
    let mut sorted: Vec<usize> = Vec::new();
    let mut i: usize = 0;
    while i < requested.len()
        invariant
            i <= requested@.len(),
            strictly_increasing(sorted@),
            forall|x: usize| sorted@.contains(x) <==> requested@.take(i as int).contains(x),
        decreases requested@.len() - i,
    {
        let x = requested[i];
        insert_unique(&mut sorted, x);
        proof {
            let prev = requested@.take(i as int);
            let next = requested@.take(i + 1);
            assert(next =~= prev.push(x));
            assert forall|y: usize| next.contains(y) <==> (prev.contains(y) || y == x) by {
                if next.contains(y) {
                    let k = choose|k: int| 0 <= k < next.len() && #[trigger] next[k] == y;
                    if k < i {
                        assert(prev[k] == y);
                    }
                }
                if prev.contains(y) {
                    let k = choose|k: int| 0 <= k < prev.len() && #[trigger] prev[k] == y;
                    assert(next[k] == y);
                }
                if y == x {
                    assert(next[i as int] == y);
                }
            }
        }
        i = i + 1;
    }
    proof {
        assert(requested@.take(requested@.len() as int) =~= requested@);
    }
    insert_unique(&mut sorted, dimension);
    Some(sorted)
}

/// Selected eigenvectors a plan retains: the requested count, bounded by one
/// less than the sector dimension.
pub fn plan_vector_count(count: usize, dimension: usize) -> (r: usize)
    ensures
        r == if dimension == 0 {
            0
        } else if count < dimension - 1 {
            count as int
        } else {
            dimension - 1
        },
{
    let bound = if dimension == 0 {
        0
    } else {
        dimension - 1
    };
    if count < bound {
        count
    } else {
        bound
    }
}

/// Decimal exponent of the relative tolerance for retained-reduction checks:
/// three tenths of the precision beyond 48 bits, and at least one.
pub open spec fn spec_reduction_tolerance_exponent(precision_bits: u32) -> nat {
    let extra: nat = if precision_bits > 48 {
        (precision_bits - 48) as nat
    } else {
        0
    };
    let e = extra * 3 / 10;
    if e < 1 {
        1
    } else {
        e
    }
}

/// The budget of the retained-reduction check that Ultra adds.
#[derive(Clone, Debug)]
pub struct RetainedReductionRequest {
    pub working_precision_bits: u32,
    pub maximum_dimension: usize,
    pub relative_tolerance: String,
}

/// The retained-reduction budget: only Ultra requests one. It works at the
/// explicit diagnostic precision when given, otherwise at the source
/// precision, with a relative tolerance of `1e-E`.
pub fn retained_reduction_request(
    level: ResearchCapture,
    args: &CaptureJournalArgs,
    source_precision_bits: u32,
) -> (r: Option<RetainedReductionRequest>)
    ensures
        level != ResearchCapture::Ultra ==> r is None,
        level == ResearchCapture::Ultra ==> (r matches Some(q) && q.working_precision_bits == (
        match args.capture_working_precision_bits {
            Some(bits) => bits,
            None => source_precision_bits,
        }) && q.maximum_dimension == args.capture_reduction_max_dimension
            && q.relative_tolerance@ == "1e-"@ + decimal(
            spec_reduction_tolerance_exponent(source_precision_bits),
        )),
{
    if level != ResearchCapture::Ultra {
        return None;
    }
    let working = match args.capture_working_precision_bits {
        Some(bits) => bits,
        None => source_precision_bits,
    };
    let extra: u64 = if source_precision_bits > 48 {
        (source_precision_bits - 48) as u64
    } else {
        0
    };
    let e: u64 = extra * 3 / 10;
    let exponent: u64 = if e < 1 {
        1
    } else {
        e
    };
    Some(
        RetainedReductionRequest {
            working_precision_bits: working,
            maximum_dimension: args.capture_reduction_max_dimension,
            relative_tolerance: join(String::from_str("1e-"), decimal_string(exponent).as_str()),
        },
    )
}

/// The distance convention a run uses when the journal overrides it: the
/// override grid and profile steps where given, the configured ones
/// otherwise. Without any override the configured convention stands.
pub fn distance_capture_override(
    grid_resolution: Option<usize>,
    profile_steps: Option<usize>,
    configured_resolution: usize,
    configured_steps: usize,
) -> (r: Option<(usize, usize)>)
    ensures
        grid_resolution is None && profile_steps is None ==> r is None,
        !(grid_resolution is None && profile_steps is None) ==> r == Some((
            match grid_resolution {
                Some(g) => g,
                None => configured_resolution,
            },
            match profile_steps {
                Some(p) => p,
                None => configured_steps,
            },
        )),
{
    if grid_resolution.is_none() && profile_steps.is_none() {
        return None;
    }
    let grid = match grid_resolution {
        Some(g) => g,
        None => configured_resolution,
    };
    let steps = match profile_steps {
        Some(p) => p,
        None => configured_steps,
    };
    Some((grid, steps))
}

/// Diagnostics that a run asks for explicitly, beyond its capture level.
#[derive(Clone, Copy, Debug)]
pub struct ExplicitRequests {
    pub prime_power_response: bool,
    pub u_flow_response: bool,
    pub root_certificate: bool,
    pub sector_gap_certificate: bool,
    pub distance_capture: bool,
    pub distance_resolution: bool,
    pub target_residual_analysis: bool,
    pub deviation_decomposition: bool,
}

/// Every explicit request, in the order in which the journal records them.
pub open spec fn explicit_candidates(e: ExplicitRequests) -> Seq<(Seq<char>, bool)> {
    seq![
        ("prime_power_response"@, e.prime_power_response),
        ("u_flow_response"@, e.u_flow_response),
        ("root_certificate"@, e.root_certificate),
        ("sector_gap_certificate"@, e.sector_gap_certificate),
        ("distance_profile"@, e.distance_capture),
        ("target_distance"@, e.distance_capture),
        ("distance_resolution"@, e.distance_capture && e.distance_resolution),
        ("target_residual_analysis"@, e.distance_capture && e.target_residual_analysis),
        ("deviation_decomposition"@, e.distance_capture && e.deviation_decomposition),
    ]
}

/// The wanted candidates that are neither present nor excluded, in order.
pub open spec fn missing_requests(
    candidates: Seq<(Seq<char>, bool)>,
    present: Seq<Seq<char>>,
    excluded: Seq<Seq<char>>,
) -> Seq<Seq<char>>
    decreases candidates.len(),
{
    if candidates.len() == 0 {
        Seq::empty()
    } else {
        let rest = missing_requests(candidates.drop_last(), present, excluded);
        let (id, wanted) = candidates.last();
        if wanted && !present.contains(id) && !excluded.contains(id) {
            rest.push(id)
        } else {
            rest
        }
    }
}

/// The explicitly requested diagnostics that the receipt of the recipe does
/// not already hold and that the policy does not exclude; they receive a
/// receipt of their own.
pub fn explicit_diagnostics(
    requests: ExplicitRequests,
    present: &Vec<String>,
    excluded: &Vec<(String, String)>,
) -> (r: Vec<String>)
    ensures
        texts(r@) == missing_requests(
            explicit_candidates(requests),
            texts(present@),
            pair_ids(excluded@),
        ),
{
    let excluded_ids = ids_of(excluded);
    let mut candidates: Vec<(String, bool)> = Vec::new();
    candidates.push((String::from_str("prime_power_response"), requests.prime_power_response));
    candidates.push((String::from_str("u_flow_response"), requests.u_flow_response));
    candidates.push((String::from_str("root_certificate"), requests.root_certificate));
    candidates.push((String::from_str("sector_gap_certificate"), requests.sector_gap_certificate));
    candidates.push((String::from_str("distance_profile"), requests.distance_capture));
    candidates.push((String::from_str("target_distance"), requests.distance_capture));
    candidates.push(
        (
            String::from_str("distance_resolution"),
            requests.distance_capture && requests.distance_resolution,
        ),
    );
    candidates.push(
        (
            String::from_str("target_residual_analysis"),
            requests.distance_capture && requests.target_residual_analysis,
        ),
    );
    candidates.push(
        (
            String::from_str("deviation_decomposition"),
            requests.distance_capture && requests.deviation_decomposition,
        ),
    );
    let ghost expected = explicit_candidates(requests);
    proof {
        assert(Seq::new(candidates@.len(), |i: int| (candidates@[i].0@, candidates@[i].1))
            =~= expected);
    }
    let mut result: Vec<String> = Vec::new();
    let mut k: usize = 0;
    while k < candidates.len()
        invariant
            k <= candidates@.len(),
            candidates@.len() == expected.len(),
            forall|i: int|
                0 <= i < candidates@.len() ==> (#[trigger] candidates@[i]).0@ == expected[i].0
                    && candidates@[i].1 == expected[i].1,
            texts(excluded_ids@) == pair_ids(excluded@),
            texts(result@) == missing_requests(
                expected.take(k as int),
                texts(present@),
                pair_ids(excluded@),
            ),
        decreases candidates@.len() - k,
    {
        let ghost prefix = expected.take(k as int);
        let ghost next = expected.take(k + 1);
        proof {
            assert(next.drop_last() =~= prefix);
            assert(next.last() == expected[k as int]);
            assert(candidates@[k as int].0@ == expected[k as int].0);
        }
        let wanted = candidates[k].1;
        if wanted && !contains_text(present, &candidates[k].0) && !contains_text(
            &excluded_ids,
            &candidates[k].0,
        ) {
            result.push(candidates[k].0.clone());
            proof {
                assert(texts(result@) =~= missing_requests(
                    prefix,
                    texts(present@),
                    pair_ids(excluded@),
                ).push(expected[k as int].0));
            }
        }
        k = k + 1;
    }
    proof {
        assert(expected.take(candidates@.len() as int) =~= expected);
    }
    result
}

/// Name of the private journal directory of one claim run.
pub open spec fn spec_journal_name(
    lambda_sq: u64,
    n_modes: u64,
    precision_bits: u32,
    timestamp_nanoseconds: u128,
    process_id: u32,
) -> Seq<char> {
    "c"@ + decimal(lambda_sq as nat) + "-n"@ + decimal(n_modes as nat) + "-p"@ + decimal(
        precision_bits as nat,
    ) + "-"@ + decimal(timestamp_nanoseconds as nat) + "-"@ + decimal(process_id as nat)
}

/// The directory name `c{λ²}-n{N}-p{bits}-{timestamp}-{pid}` of a claim journal.
pub fn journal_directory_name(
    lambda_sq: u64,
    n_modes: u64,
    precision_bits: u32,
    timestamp_nanoseconds: u128,
    process_id: u32,
) -> (s: String)
    ensures
        s@ == spec_journal_name(lambda_sq, n_modes, precision_bits, timestamp_nanoseconds, process_id),
{
    let s = join(String::from_str("c"), decimal_string(lambda_sq).as_str());
    let s = join(s, "-n");
    let s = join(s, decimal_string(n_modes).as_str());
    let s = join(s, "-p");
    let s = join(s, decimal_string(precision_bits as u64).as_str());
    let s = join(s, "-");
    let s = join(s, decimal_string_u128(timestamp_nanoseconds).as_str());
    let s = join(s, "-");
    join(s, decimal_string(process_id as u64).as_str())
}

/// The directory name `evenness-{timestamp}-{pid}` of a direct evenness measurement.
pub fn evenness_directory_name(timestamp_nanoseconds: u128, process_id: u32) -> (s: String)
    ensures
        s@ == "evenness-"@ + decimal(timestamp_nanoseconds as nat) + "-"@ + decimal(process_id as nat),
{
    let s = join(String::from_str("evenness-"), decimal_string_u128(timestamp_nanoseconds).as_str());
    let s = join(s, "-");
    join(s, decimal_string(process_id as u64).as_str())
}

/// What happens to a requested diagnostic before it is attempted.
#[derive(Clone, Copy, Debug, PartialEq, Eq, Structural)]
pub enum DiagnosticPrecheck {
    /// Responses need an isolated even-sector state; the primary parity is preserved.
    Blocked,
    /// Target comparisons need the private runtime target specification.
    Missing,
    /// The diagnostic is attempted.
    Attempt,
}

/// The response diagnostics.
pub open spec fn is_response(id: Seq<char>) -> bool {
    id == "prime_power_response"@ || id == "u_flow_response"@
}

/// The diagnostics that compare against the runtime target.
pub open spec fn is_target_comparison(id: Seq<char>) -> bool {
    id == "target_distance"@ || id == "distance_resolution"@ || id == "target_residual_analysis"@
        || id == "deviation_decomposition"@
}

fn text_is(a: &String, b: &str) -> (r: bool)
    ensures
        r == (a@ == b@),
{
    *a == String::from_str(b)
}

/// Decides whether a diagnostic is blocked by the primary parity, missing its
/// runtime target, or attempted.
pub fn diagnostic_precheck(id: &String, parity: ParityPolicy, target_available: bool) -> (r:
    DiagnosticPrecheck)
    ensures
        r == if is_response(id@) && parity != ParityPolicy::EvenSector {
            DiagnosticPrecheck::Blocked
        } else if is_target_comparison(id@) && !target_available {
            DiagnosticPrecheck::Missing
        } else {
            DiagnosticPrecheck::Attempt
        },
{
    let response = text_is(id, "prime_power_response") || text_is(id, "u_flow_response");
    if response && parity != ParityPolicy::EvenSector {
        return DiagnosticPrecheck::Blocked;
    }
    let target = text_is(id, "target_distance") || text_is(id, "distance_resolution") || text_is(
        id,
        "target_residual_analysis",
    ) || text_is(id, "deviation_decomposition");
    if target && !target_available {
        return DiagnosticPrecheck::Missing;
    }
    DiagnosticPrecheck::Attempt
}

/// The outcome of one captured diagnostic in a receipt.
#[derive(Clone, Copy, Debug, PartialEq, Eq, Structural)]
pub enum CaptureOutcome {
    Completed,
    Missing,
    Blocked,
    Failed,
    Pending,
}

pub open spec fn spec_outcome_label(o: CaptureOutcome) -> Seq<char> {
    match o {
        CaptureOutcome::Completed => "completed"@,
        CaptureOutcome::Missing => "missing"@,
        CaptureOutcome::Blocked => "blocked"@,
        CaptureOutcome::Failed => "failed"@,
        CaptureOutcome::Pending => "pending"@,
    }
}

impl CaptureOutcome {
    /// The label printed for the outcome.
    pub fn label(self) -> (s: String)
        ensures
            s@ == spec_outcome_label(self),
    {
        match self {
            CaptureOutcome::Completed => String::from_str("completed"),
            CaptureOutcome::Missing => String::from_str("missing"),
            CaptureOutcome::Blocked => String::from_str("blocked"),
            CaptureOutcome::Failed => String::from_str("failed"),
            CaptureOutcome::Pending => String::from_str("pending"),
        }
    }
}

/// The final journal status: the run fails only when completeness was
/// required and some requested capture is incomplete; the journal is kept
/// either way.
pub fn capture_status(complete: bool, require_complete: bool, directory: &String) -> (r: Result<
    String,
    CaptureError,
>)
    ensures
        require_complete && !complete ==> (r matches Err(CaptureError::IncompleteCapture {
            directory: d,
        }) && d == *directory),
        !(require_complete && !complete) ==> (r matches Ok(s) && s@ == (if complete {
            "capture_complete"@
        } else {
            "capture_incomplete"@
        })),
{
    if require_complete && !complete {
        return Err(CaptureError::IncompleteCapture { directory: directory.clone() });
    }
    if complete {
        Ok(String::from_str("capture_complete"))
    } else {
        Ok(String::from_str("capture_incomplete"))
    }
}

/// Whether a retained matrix fits the reduction budget: a larger dimension
/// or a source more precise than the working precision is recorded blocked.
pub fn reduction_within_budget(
    dimension: usize,
    source_precision_bits: u32,
    budget: &RetainedReductionRequest,
) -> (r: bool)
    ensures
        r == (dimension <= budget.maximum_dimension && source_precision_bits
            <= budget.working_precision_bits),
{
    !(dimension > budget.maximum_dimension || source_precision_bits > budget.working_precision_bits)
}

/// Membership in the kept entries.
proof fn lemma_kept_contains(s: Seq<Seq<char>>, excluded: Seq<Seq<char>>, id: Seq<char>)
    ensures
        kept(s, excluded).contains(id) <==> (s.contains(id) && !excluded.contains(id)),
    decreases s.len(),
{
    if s.len() > 0 {
        let rest = s.drop_last();
        lemma_kept_contains(rest, excluded, id);
        assert(s =~= rest.push(s.last()));
        if s.contains(id) && !excluded.contains(id) {
            let k = choose|k: int| 0 <= k < s.len() && s[k] == id;
            if k < rest.len() {
                assert(rest[k] == id);
            }
        }
        if rest.contains(id) {
            let k = choose|k: int| 0 <= k < rest.len() && rest[k] == id;
            assert(s[k] == id);
        }
        let kr = kept(rest, excluded);
        if !excluded.contains(s.last()) {
            assert(kr.push(s.last())[kr.len() as int] == s.last());
            if kr.contains(id) {
                let k = choose|k: int| 0 <= k < kr.len() && kr[k] == id;
                assert(kr.push(s.last())[k] == id);
            }
            if kr.push(s.last()).contains(id) {
                let k = choose|k: int| 0 <= k < kr.len() + 1 && kr.push(s.last())[k] == id;
                if k < kr.len() {
                    assert(kr[k] == id);
                }
            }
        }
    }
}

/// A capture executes exactly the planned diagnostics that its policy does
/// not exclude: no excluded diagnostic is requested, and every applicable
/// one is.
pub proof fn lemma_requested_are_applicable(
    requested: Seq<Seq<char>>,
    planned_ids: Seq<Seq<char>>,
    excluded_ids: Seq<Seq<char>>,
    id: Seq<char>,
)
    requires
        requested.to_multiset() == kept(planned_ids, excluded_ids).to_multiset(),
    ensures
        requested.contains(id) <==> (planned_ids.contains(id) && !excluded_ids.contains(id)),
{
    broadcast use vstd::seq_lib::group_to_multiset_ensures;

    lemma_kept_contains(planned_ids, excluded_ids, id);
    assert(requested.contains(id) <==> requested.to_multiset().count(id) > 0);
    assert(kept(planned_ids, excluded_ids).contains(id) <==> kept(
        planned_ids,
        excluded_ids,
    ).to_multiset().count(id) > 0);
}

} // verus!
