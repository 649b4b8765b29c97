//! Workload-bound benchmark reports: accumulating stage timings, deciding
//! whether a baseline report is comparable with a candidate, and computing
//! per-stage deltas.

use vstd::prelude::*;
use crate::text::{decimal, decimal_string, join, lemma_text_order, text_less, text_lt};
use crate::paths::{paths_equal, same_path};

verus! {

/// Schema version written into every benchmark report.
pub const BENCHMARK_SCHEMA_VERSION: u32 = 1;

/// The toolkit release the harness is built against.
pub fn toolkit_version() -> (s: String)
    ensures
        s@ == "0.13.5"@,
{
    String::from_str("0.13.5")
}

/// The exact toolkit revision the harness is built against.
pub fn toolkit_revision() -> (s: String)
    ensures
        s@ == "38447273088381611b82268053c3ebfe8e4c7838"@,
{
    String::from_str("38447273088381611b82268053c3ebfe8e4c7838")
}

/// Which runtime policy difference a comparison is allowed to measure.
#[derive(Clone, Copy, Debug, PartialEq, Eq, Structural)]
pub enum BenchmarkComparisonMode {
    /// Require the baseline and candidate to use the same runtime policy.
    SamePolicy,
    /// Compare serial and parallel GL-root scheduling while holding every
    /// other comparability field fixed.
    GlRootPolicyDelta,
}

impl Default for BenchmarkComparisonMode {
    fn default() -> (r: Self)
        ensures
            r == BenchmarkComparisonMode::SamePolicy,
    {
        BenchmarkComparisonMode::SamePolicy
    }
}

/// Whether the benchmarked run succeeded.
#[derive(Clone, Copy, Debug, PartialEq, Eq, Structural)]
pub enum BenchmarkStatus {
    Succeeded,
    Failed,
}

/// What a benchmark run records and against what it is compared.
#[derive(Clone, Debug)]
pub struct BenchmarkOptions {
    pub report_path: Option<String>,
    pub baseline_path: Option<String>,
    pub label: Option<String>,
    pub parallel_gl_roots: bool,
    pub comparison_mode: BenchmarkComparisonMode,
}

/// Accumulated duration of one named stage.
#[derive(Clone, Copy, Debug, PartialEq, Eq, Structural)]
pub struct BenchmarkTiming {
    pub duration_nanoseconds: u64,
    pub invocations: u64,
}

/// `min(x, u64::MAX)`.
pub open spec fn saturate_u64(x: int) -> u64 {
    if x <= u64::MAX {
        x as u64
    } else {
        u64::MAX
    }
}

/// A duration in nanoseconds, saturated at `u64::MAX`.
pub fn saturating_nanoseconds(duration_nanoseconds: u128) -> (r: u64)
    ensures
        r == saturate_u64(duration_nanoseconds as int),
{
    if duration_nanoseconds <= u64::MAX as u128 {
        duration_nanoseconds as u64
    } else {
        u64::MAX
    }
}

/// Milliseconds since the Unix epoch, saturated at `u64::MAX`; a time before
/// the epoch (`None`) counts as zero.
pub fn unix_milliseconds(milliseconds_since_epoch: Option<u128>) -> (r: u64)
    ensures
        r == match milliseconds_since_epoch {
            Some(ms) => saturate_u64(ms as int),
            None => 0,
        },
{
    match milliseconds_since_epoch {
        Some(ms) => if ms <= u64::MAX as u128 {
            ms as u64
        } else {
            u64::MAX
        },
        None => 0,
    }
}

/// The timing of a single invocation.
pub open spec fn spec_timing_from(nanos: int) -> BenchmarkTiming {
    BenchmarkTiming { duration_nanoseconds: saturate_u64(nanos), invocations: 1 }
}

/// A timing after one more invocation.
pub open spec fn spec_timing_add(t: BenchmarkTiming, nanos: int) -> BenchmarkTiming {
    BenchmarkTiming {
        duration_nanoseconds: saturate_u64(t.duration_nanoseconds + saturate_u64(nanos)),
        invocations: saturate_u64(t.invocations + 1),
    }
}

impl BenchmarkTiming {
    /// The timing of one invocation lasting `duration_nanoseconds`.
    pub fn from_duration(duration_nanoseconds: u128) -> (r: Self)
        ensures
            r == spec_timing_from(duration_nanoseconds as int),
    {
        BenchmarkTiming {
            duration_nanoseconds: saturating_nanoseconds(duration_nanoseconds),
            invocations: 1,
        }
    }

    /// Adds one more invocation lasting `duration_nanoseconds`.
    pub fn add_duration(&mut self, duration_nanoseconds: u128)
        ensures
            *final(self) == spec_timing_add(*old(self), duration_nanoseconds as int),
    {
        let added = saturating_nanoseconds(duration_nanoseconds);
        self.duration_nanoseconds = self.duration_nanoseconds.saturating_add(added);
        self.invocations = self.invocations.saturating_add(1);
    }
}

/// Change between a baseline and a candidate timing of one stage.
#[derive(Clone, Copy, Debug, PartialEq, Eq, Structural)]
pub struct BenchmarkDelta {
    pub before_nanoseconds: u64,
    pub after_nanoseconds: u64,
    /// `after - before`, clamped to the `i64` range.
    pub delta_nanoseconds: i64,
}

/// `x` clamped to the `i64` range.
pub open spec fn clamp_i64(x: int) -> i64 {
    if x < i64::MIN {
        i64::MIN
    } else if x > i64::MAX {
        i64::MAX
    } else {
        x as i64
    }
}

pub open spec fn spec_delta_between(before: BenchmarkTiming, after: BenchmarkTiming) -> BenchmarkDelta {
    BenchmarkDelta {
        before_nanoseconds: before.duration_nanoseconds,
        after_nanoseconds: after.duration_nanoseconds,
        delta_nanoseconds: clamp_i64(after.duration_nanoseconds - before.duration_nanoseconds),
    }
}

impl BenchmarkDelta {
    /// The relative change as the exact ratio `(after - before) / before`;
    /// undefined for a zero baseline. Multiplied by 100 it is the percent
    /// change, negative when faster.
    pub fn percent_change_ratio(&self) -> (r: Option<(i128, u64)>)
        ensures
            self.before_nanoseconds == 0 ==> r is None,
            self.before_nanoseconds != 0 ==> r == Some((
                (self.after_nanoseconds - self.before_nanoseconds) as i128,
                self.before_nanoseconds,
            )),
    {
        if self.before_nanoseconds == 0 {
            None
        } else {
            Some((self.after_nanoseconds as i128 - self.before_nanoseconds as i128, self.before_nanoseconds))
        }
    }

    /// The speedup as the exact ratio `before / after`; undefined for a zero
    /// candidate timing. Greater than one is faster.
    pub fn speedup_ratio(&self) -> (r: Option<(u64, u64)>)
        ensures
            self.after_nanoseconds == 0 ==> r is None,
            self.after_nanoseconds != 0 ==> r == Some((self.before_nanoseconds, self.after_nanoseconds)),
    {
        if self.after_nanoseconds == 0 {
            None
        } else {
            Some((self.before_nanoseconds, self.after_nanoseconds))
        }
    }

    /// The change from `before` to `after`; a negative delta is faster.
    pub fn between(before: &BenchmarkTiming, after: &BenchmarkTiming) -> (r: Self)
        ensures
            r == spec_delta_between(*before, *after),
    {
        let delta: i128 = after.duration_nanoseconds as i128 - before.duration_nanoseconds as i128;
        let delta_nanoseconds: i64 = if delta < i64::MIN as i128 {
            i64::MIN
        } else if delta > i64::MAX as i128 {
            i64::MAX
        } else {
            delta as i64
        };
        BenchmarkDelta {
            before_nanoseconds: before.duration_nanoseconds,
            after_nanoseconds: after.duration_nanoseconds,
            delta_nanoseconds,
        }
    }
}

/// `k` is the first position whose stage is named `name`.
pub open spec fn first_position<T>(s: Seq<(String, T)>, name: Seq<char>, k: int) -> bool {
    &&& 0 <= k < s.len()
    &&& s[k].0@ == name
    &&& forall|j: int| 0 <= j < k ==> (#[trigger] s[j]).0@ != name
}

/// Some stage of `s` is named `name`.
pub open spec fn has_name<T>(s: Seq<(String, T)>, name: Seq<char>) -> bool {
    exists|k: int| 0 <= k < s.len() && (#[trigger] s[k]).0@ == name
}

/// The timing of the first stage named `name`, if any.
pub open spec fn find_timing<T>(s: Seq<(String, T)>, name: Seq<char>) -> Option<T> {
    if has_name(s, name) {
        Some(s[choose|k: int| first_position(s, name, k)].1)
    } else {
        None
    }
}

/// No two stages share a name.
pub open spec fn unique_names<T>(s: Seq<(String, T)>) -> bool {
    forall|i: int, j: int| 0 <= i < j < s.len() ==> (#[trigger] s[i]).0@ != (#[trigger] s[j]).0@
}

/// The stages are in strictly increasing order of their names, as the keys
/// of an ordered map are: no name occurs twice.
pub open spec fn names_sorted<T>(s: Seq<(String, T)>) -> bool {
    forall|i: int, j: int| 0 <= i < j < s.len() ==> text_lt((#[trigger] s[i]).0@, (#[trigger] s[j]).0@)
}

/// Stages in strictly increasing order have unique names.
proof fn lemma_sorted_unique<T>(s: Seq<(String, T)>)
    requires
        names_sorted(s),
    ensures
        unique_names(s),
{
    assert forall|i: int, j: int| 0 <= i < j < s.len() implies (#[trigger] s[i]).0@ != (
    #[trigger] s[j]).0@ by {
        lemma_text_order(s[i].0@, s[j].0@, s[j].0@);
    }
}

/// When some stage is named `name`, its first position exists and is unique.
proof fn lemma_first_position<T>(s: Seq<(String, T)>, name: Seq<char>)
    requires
        has_name(s, name),
    ensures
        exists|k: int| first_position(s, name, k),
        forall|k1: int, k2: int|
            first_position(s, name, k1) && first_position(s, name, k2) ==> k1 == k2,
    decreases s.len(),
{
    let k0 = choose|k: int| 0 <= k < s.len() && (#[trigger] s[k]).0@ == name;
    if exists|j: int| 0 <= j < k0 && (#[trigger] s[j]).0@ == name {
        let prefix = s.take(k0);
        let j0 = choose|j: int| 0 <= j < k0 && (#[trigger] s[j]).0@ == name;
        assert(prefix[j0] == s[j0]);
        lemma_first_position(prefix, name);
        let k1 = choose|k: int| first_position(prefix, name, k);
        assert forall|j: int| 0 <= j < k1 implies (#[trigger] s[j]).0@ != name by {
            assert(prefix[j] == s[j]);
        }
        assert(first_position(s, name, k1));
    } else {
        assert(first_position(s, name, k0));
    }
}

/// Index of the first stage of `s` named `name`, if any.
fn position_of<T>(s: &Vec<(String, T)>, name: &String) -> (r: Option<usize>)
    ensures
        match r {
            Some(k) => first_position(s@, name@, k as int),
            None => !has_name(s@, name@),
        },
{
    let mut k: usize = 0;
    while k < s.len()
        invariant
            k <= s@.len(),
            forall|j: int| 0 <= j < k ==> (#[trigger] s@[j]).0@ != name@,
        decreases s@.len() - k,
    {
        if s[k].0 == *name {
            return Some(k);
        }
        k = k + 1;
    }
    None
}

/// The timing of the first stage named `name` in `s`, given its position.
proof fn lemma_find_at<T>(s: Seq<(String, T)>, name: Seq<char>, k: int)
    requires
        first_position(s, name, k),
    ensures
        find_timing(s, name) == Some(s[k].1),
{
    assert(has_name(s, name)) by {
        assert(s[k].0@ == name);
    }
    lemma_first_position(s, name);
}

/// Deltas for every candidate stage that the baseline also timed, in the
/// candidate's stage order.
pub open spec fn delta_entries(
    after: Seq<(String, BenchmarkTiming)>,
    baseline: Seq<(String, BenchmarkTiming)>,
) -> Seq<(String, BenchmarkDelta)>
    decreases after.len(),
{
    if after.len() == 0 {
        Seq::empty()
    } else {
        let rest = delta_entries(after.drop_last(), baseline);
        let (name, timing) = after.last();
        match find_timing(baseline, name@) {
            Some(before) => rest.push((name, spec_delta_between(before, timing))),
            None => rest,
        }
    }
}

/// Why a benchmark report could not be recorded or compared.
#[derive(Clone, Debug)]
pub enum BenchmarkError {
    /// The report path already holds a report; reports are never overwritten.
    ReportExists { path: String },
    /// The report and the baseline are the same file.
    SameReportAndBaseline,
    /// The baseline was written under another schema.
    SchemaMismatch { found: u32 },
    /// The baseline describes a failed run.
    BaselineFailed,
    /// The two reports measured different workloads.
    WorkloadMismatch,
    /// The two reports used different build profiles.
    BuildProfileMismatch,
    /// The two reports used different cache modes.
    CacheModeMismatch,
    /// The two reports used different Rayon worker counts.
    RayonWorkersMismatch,
    /// The two reports saw different available CPU counts.
    AvailableCpusMismatch,
    /// A same-policy comparison saw different GL root scheduling policies.
    GlRootPolicyMismatch,
    /// A policy-delta comparison saw the same GL root scheduling policy.
    GlRootPolicyUnchanged,
}

/// The text of an error.
pub open spec fn spec_error_message(e: BenchmarkError) -> Seq<char> {
    match e {
        BenchmarkError::ReportExists { path } => "benchmark report already exists; refusing to overwrite "@
            + path@,
        BenchmarkError::SameReportAndBaseline => "benchmark report and baseline paths must be different"@,
        BenchmarkError::SchemaMismatch { found } => "benchmark baseline uses schema "@ + decimal(
            found as nat,
        ) + ", expected "@ + decimal(BENCHMARK_SCHEMA_VERSION as nat),
        BenchmarkError::BaselineFailed => "benchmark baseline must describe a successful run"@,
        BenchmarkError::WorkloadMismatch => "benchmark baseline workload does not match the candidate workload"@,
        BenchmarkError::BuildProfileMismatch => "benchmark baseline and candidate must use the same build profile"@,
        BenchmarkError::CacheModeMismatch => "benchmark baseline and candidate must use the same cache mode"@,
        BenchmarkError::RayonWorkersMismatch => "benchmark baseline and candidate must use the same Rayon worker count"@,
        BenchmarkError::AvailableCpusMismatch => "benchmark baseline and candidate must report the same available CPU count"@,
        BenchmarkError::GlRootPolicyMismatch => "benchmark baseline and candidate must use the same GL root scheduling policy"@,
        BenchmarkError::GlRootPolicyUnchanged => "GL-root policy-delta comparison requires baseline and candidate to use different GL root scheduling policies"@,
    }
}

impl BenchmarkError {
    /// The human-readable description of the error.
    pub fn message(&self) -> (s: String)
        ensures
            s@ == spec_error_message(*self),
    {
        match self {
            BenchmarkError::ReportExists { path } => join(
                String::from_str("benchmark report already exists; refusing to overwrite "),
                path.as_str(),
            ),
            BenchmarkError::SameReportAndBaseline => String::from_str(
                "benchmark report and baseline paths must be different",
            ),
            BenchmarkError::SchemaMismatch { found } => {
                let text = join(
                    String::from_str("benchmark baseline uses schema "),
                    decimal_string(*found as u64).as_str(),
                );
                let text = join(text, ", expected ");
                join(text, decimal_string(BENCHMARK_SCHEMA_VERSION as u64).as_str())
            },
            BenchmarkError::BaselineFailed => String::from_str(
                "benchmark baseline must describe a successful run",
            ),
            BenchmarkError::WorkloadMismatch => String::from_str(
                "benchmark baseline workload does not match the candidate workload",
            ),
            BenchmarkError::BuildProfileMismatch => String::from_str(
                "benchmark baseline and candidate must use the same build profile",
            ),
            BenchmarkError::CacheModeMismatch => String::from_str(
                "benchmark baseline and candidate must use the same cache mode",
            ),
            BenchmarkError::RayonWorkersMismatch => String::from_str(
                "benchmark baseline and candidate must use the same Rayon worker count",
            ),
            BenchmarkError::AvailableCpusMismatch => String::from_str(
                "benchmark baseline and candidate must report the same available CPU count",
            ),
            BenchmarkError::GlRootPolicyMismatch => String::from_str(
                "benchmark baseline and candidate must use the same GL root scheduling policy",
            ),
            BenchmarkError::GlRootPolicyUnchanged => String::from_str(
                "GL-root policy-delta comparison requires baseline and candidate to use different GL root scheduling policies",
            ),
        }
    }
}

/// A comparison of a candidate report with its baseline.
#[derive(Clone, Debug)]
pub struct BenchmarkComparison {
    pub baseline_report: String,
    pub baseline_label: Option<String>,
    pub comparison_mode: BenchmarkComparisonMode,
    pub baseline_parallel_gl_roots: bool,
    pub candidate_parallel_gl_roots: bool,
    pub interpretation: String,
    pub timings: Vec<(String, BenchmarkDelta)>,
}

/// A workload-bound benchmark report.
#[derive(Clone, Debug)]
pub struct BenchmarkReport {
    pub schema_version: u32,
    pub label: Option<String>,
    pub status: BenchmarkStatus,
    pub started_unix_milliseconds: u64,
    pub completed_unix_milliseconds: u64,
    pub application_version: String,
    pub toolkit_version: String,
    pub toolkit_revision: String,
    pub optimized_build: bool,
    pub cache_mode: String,
    pub rayon_workers: usize,
    pub available_cpus: usize,
    pub rayon_num_threads_environment: Option<String>,
    pub parallel_gl_roots: bool,
    pub comparison_mode: BenchmarkComparisonMode,
    pub workload_signature: String,
    pub timings: Vec<(String, BenchmarkTiming)>,
    pub comparison: Option<BenchmarkComparison>,
}

/// The first reason, in order of checking, why `baseline` cannot serve as
/// the baseline of `candidate` under `mode`.
pub open spec fn spec_comparability(
    baseline: BenchmarkReport,
    candidate: BenchmarkReport,
    mode: BenchmarkComparisonMode,
) -> Result<(), BenchmarkError> {
    if baseline.schema_version != BENCHMARK_SCHEMA_VERSION {
        Err(BenchmarkError::SchemaMismatch { found: baseline.schema_version })
    } else if baseline.status != BenchmarkStatus::Succeeded {
        Err(BenchmarkError::BaselineFailed)
    } else if baseline.workload_signature@ != candidate.workload_signature@ {
        Err(BenchmarkError::WorkloadMismatch)
    } else if baseline.optimized_build != candidate.optimized_build {
        Err(BenchmarkError::BuildProfileMismatch)
    } else if baseline.cache_mode@ != candidate.cache_mode@ {
        Err(BenchmarkError::CacheModeMismatch)
    } else if baseline.rayon_workers != candidate.rayon_workers {
        Err(BenchmarkError::RayonWorkersMismatch)
    } else if baseline.available_cpus != candidate.available_cpus {
        Err(BenchmarkError::AvailableCpusMismatch)
    } else if mode == BenchmarkComparisonMode::SamePolicy && baseline.parallel_gl_roots
        != candidate.parallel_gl_roots {
        Err(BenchmarkError::GlRootPolicyMismatch)
    } else if mode == BenchmarkComparisonMode::GlRootPolicyDelta && baseline.parallel_gl_roots
        == candidate.parallel_gl_roots {
        Err(BenchmarkError::GlRootPolicyUnchanged)
    } else {
        Ok(())
    }
}

/// Checks that `baseline` measured the same workload under the same build,
/// cache mode, worker count and CPU count as `candidate`, with the GL root
/// scheduling relation that `comparison_mode` demands.
pub fn validate_comparable(
    baseline: &BenchmarkReport,
    candidate: &BenchmarkReport,
    comparison_mode: BenchmarkComparisonMode,
) -> (r: Result<(), BenchmarkError>)
    ensures
        r == spec_comparability(*baseline, *candidate, comparison_mode),
{
    if baseline.schema_version != BENCHMARK_SCHEMA_VERSION {
        return Err(BenchmarkError::SchemaMismatch { found: baseline.schema_version });
    }
    if baseline.status != BenchmarkStatus::Succeeded {
        return Err(BenchmarkError::BaselineFailed);
    }
    if baseline.workload_signature != candidate.workload_signature {
        return Err(BenchmarkError::WorkloadMismatch);
    }
    if baseline.optimized_build != candidate.optimized_build {
        return Err(BenchmarkError::BuildProfileMismatch);
    }
    if baseline.cache_mode != candidate.cache_mode {
        return Err(BenchmarkError::CacheModeMismatch);
    }
    if baseline.rayon_workers != candidate.rayon_workers {
        return Err(BenchmarkError::RayonWorkersMismatch);
    }
    if baseline.available_cpus != candidate.available_cpus {
        return Err(BenchmarkError::AvailableCpusMismatch);
    }
    match comparison_mode {
        BenchmarkComparisonMode::SamePolicy => {
            if baseline.parallel_gl_roots != candidate.parallel_gl_roots {
                return Err(BenchmarkError::GlRootPolicyMismatch);
            }
        },
        BenchmarkComparisonMode::GlRootPolicyDelta => {
            if baseline.parallel_gl_roots == candidate.parallel_gl_roots {
                return Err(BenchmarkError::GlRootPolicyUnchanged);
            }
        },
    }
    Ok(())
}

/// The text recorded in every comparison to say how to read its deltas.
pub open spec fn spec_interpretation() -> Seq<char> {
    "negative percent_change is faster; speedup greater than 1 is faster"@
}

/// The candidate report with its comparison against `baseline` attached.
pub open spec fn spec_compared(
    report: BenchmarkReport,
    baseline: BenchmarkReport,
    baseline_path: String,
    comparison: BenchmarkComparison,
) -> bool {
    &&& comparison.baseline_report == baseline_path
    &&& comparison.baseline_label == baseline.label
    &&& comparison.comparison_mode == report.comparison_mode
    &&& comparison.baseline_parallel_gl_roots == baseline.parallel_gl_roots
    &&& comparison.candidate_parallel_gl_roots == report.parallel_gl_roots
    &&& comparison.interpretation@ == spec_interpretation()
    &&& comparison.timings@ == delta_entries(report.timings@, baseline.timings@)
}

/// Validates `baseline` against `report` under the report's comparison mode
/// and, when they are comparable, attaches the per-stage deltas of every
/// stage that both reports timed.
pub fn compare_with_baseline(
    report: BenchmarkReport,
    baseline: &BenchmarkReport,
    baseline_path: String,
) -> (r: Result<BenchmarkReport, BenchmarkError>)
    ensures
        match spec_comparability(*baseline, report, report.comparison_mode) {
            Err(e) => r == Err::<BenchmarkReport, BenchmarkError>(e),
            Ok(_) => r matches Ok(compared) && compared.comparison matches Some(c) && spec_compared(
                report,
                *baseline,
                baseline_path,
                c,
            ) && compared == (BenchmarkReport { comparison: Some(c), ..report }),
        },
{
    let mode = report.comparison_mode;
    match validate_comparable(baseline, &report, mode) {
        Err(e) => return Err(e),
        Ok(()) => {},
    }
    let mut timings: Vec<(String, BenchmarkDelta)> = Vec::new();
    let mut i: usize = 0;
    while i < report.timings.len()
        invariant
            i <= report.timings@.len(),
            timings@ == delta_entries(report.timings@.take(i as int), baseline.timings@),
        decreases report.timings@.len() - i,
    {
        let name = &report.timings[i].0;
        let after = &report.timings[i].1;
        let ghost prefix = report.timings@.take(i as int);
        let ghost next = report.timings@.take(i + 1);
        proof {
            assert(next.drop_last() =~= prefix);
            assert(next.last() == report.timings@[i as int]);
        }
        match position_of(&baseline.timings, name) {
            Some(k) => {
                proof {
                    lemma_find_at(baseline.timings@, name@, k as int);
                }
                let delta = BenchmarkDelta::between(&baseline.timings[k].1, after);
                timings.push((name.clone(), delta));
            },
            None => {},
        }
        i = i + 1;
    }
    proof {
        assert(report.timings@.take(report.timings@.len() as int) =~= report.timings@);
    }
    let comparison = BenchmarkComparison {
        baseline_report: baseline_path,
        baseline_label: baseline.label.clone(),
        comparison_mode: mode,
        baseline_parallel_gl_roots: baseline.parallel_gl_roots,
        candidate_parallel_gl_roots: report.parallel_gl_roots,
        interpretation: String::from_str(
            "negative percent_change is faster; speedup greater than 1 is faster",
        ),
        timings,
    };
    Ok(BenchmarkReport { comparison: Some(comparison), ..report })
}

/// Facts about the run environment that a report records.
#[derive(Clone, Debug)]
pub struct RuntimeEnvironment {
    pub application_version: String,
    pub optimized_build: bool,
    /// The `XC_CACHE_MODE` setting, if set.
    pub cache_mode_environment: Option<String>,
    pub rayon_workers: usize,
    /// The available parallelism, if the platform reports it.
    pub available_parallelism: Option<usize>,
    /// The `RAYON_NUM_THREADS` setting, if set.
    pub rayon_num_threads_environment: Option<String>,
}

/// Collects stage timings for one benchmarked run.
#[derive(Clone, Debug)]
pub struct BenchmarkRecorder {
    pub options: BenchmarkOptions,
    pub started_unix_milliseconds: u64,
    pub workload_signature: String,
    pub timings: Vec<(String, BenchmarkTiming)>,
}

/// The stages after recording one more invocation of `name`.
pub open spec fn spec_recorded(
    old_timings: Seq<(String, BenchmarkTiming)>,
    new_timings: Seq<(String, BenchmarkTiming)>,
    name: Seq<char>,
    nanos: int,
) -> bool {
    if has_name(old_timings, name) {
        exists|k: int|
            first_position(old_timings, name, k) && new_timings == old_timings.update(
                k,
                (old_timings[k].0, spec_timing_add(old_timings[k].1, nanos)),
            )
    } else {
        exists|p: int|
            0 <= p <= old_timings.len() && new_timings.len() == old_timings.len() + 1
                && new_timings.take(p) == old_timings.take(p) && new_timings.skip(p + 1)
                == old_timings.skip(p) && new_timings[p].0@ == name && new_timings[p].1
                == spec_timing_from(nanos) && (forall|i: int|
                0 <= i < p ==> text_lt((#[trigger] old_timings[i]).0@, name)) && (forall|i: int|
                p <= i < old_timings.len() ==> text_lt(name, (#[trigger] old_timings[i]).0@))
    }
}

/// A report that is ready to be written, and the baseline it must still be
/// compared with, if any.
#[derive(Clone, Debug)]
pub struct FinishedReport {
    pub report_path: String,
    pub report: BenchmarkReport,
    pub baseline_path: Option<String>,
}

impl BenchmarkRecorder {
    /// Starts recording. A report path that already holds a report is refused:
    /// reports are never overwritten.
    pub fn new(
        options: BenchmarkOptions,
        workload_signature: String,
        report_path_exists: bool,
        started_unix_milliseconds: u64,
    ) -> (r: Result<Self, BenchmarkError>)
        ensures
            match options.report_path {
                Some(path) if report_path_exists => r matches Err(
                    BenchmarkError::ReportExists { path: p },
                ) && p == path,
                _ => r matches Ok(recorder) && recorder.options == options
                    && recorder.workload_signature == workload_signature
                    && recorder.started_unix_milliseconds == started_unix_milliseconds
                    && recorder.timings@.len() == 0,
            },
    {
        if report_path_exists {
            match &options.report_path {
                Some(path) => {
                    return Err(BenchmarkError::ReportExists { path: path.clone() });
                },
                None => {},
            }
        }
        Ok(BenchmarkRecorder {
            options,
            started_unix_milliseconds,
            workload_signature,
            timings: Vec::new(),
        })
    }

    /// Whether a report will be written.
    pub fn enabled(&self) -> (r: bool)
        ensures
            r == self.options.report_path is Some,
    {
        self.options.report_path.is_some()
    }

    /// Adds one invocation of the stage `name`; a new stage takes its place in
    /// name order. Nothing is recorded when no report will be written.
    pub fn record_duration(&mut self, name: &str, duration_nanoseconds: u128)
        requires
            names_sorted(old(self).timings@),
        ensures
            final(self).options == old(self).options,
            final(self).started_unix_milliseconds == old(self).started_unix_milliseconds,
            final(self).workload_signature == old(self).workload_signature,
            old(self).options.report_path is None ==> final(self).timings@ == old(self).timings@,
            old(self).options.report_path is Some ==> spec_recorded(
                old(self).timings@,
                final(self).timings@,
                name@,
                duration_nanoseconds as int,
            ),
            names_sorted(final(self).timings@),
    {
        if !self.enabled() {
            return;
        }
        let owned = String::from_str(name);
        let ghost before = self.timings@;
        match position_of(&self.timings, &owned) {
            Some(k) => {
                let mut timing = self.timings[k].1;
                timing.add_duration(duration_nanoseconds);
                let stage = self.timings[k].0.clone();
                let ghost before = self.timings@;
                self.timings.set(k, (stage, timing));
                proof {
                    assert(has_name(before, name@));
                    assert(self.timings@ == before.update(
                        k as int,
                        (before[k as int].0, spec_timing_add(before[k as int].1, duration_nanoseconds as int)),
                    ));
                }
            },
            None => {
                let ghost before = self.timings@;
                let mut p: usize = 0;
                while p < self.timings.len() && text_less(self.timings[p].0.as_str(), name)
                    invariant
                        self.timings@ == before,
                        p <= before.len(),
                        forall|i: int| 0 <= i < p ==> text_lt((#[trigger] before[i]).0@, name@),
                    decreases before.len() - p,
                {
                    p = p + 1;
                }
                proof {
                    if p < before.len() {
                        assert(before[p as int].0@ != name@);
                        lemma_text_order(name@, before[p as int].0@, before[p as int].0@);
                        assert forall|i: int| p <= i < before.len() implies text_lt(
                            name@,
                            (#[trigger] before[i]).0@,
                        ) by {
                            if i > p {
                                lemma_text_order(name@, before[p as int].0@, before[i].0@);
                            }
                        }
                    }
                }
                self.timings.insert(p, (owned, BenchmarkTiming::from_duration(duration_nanoseconds)));
                proof {
                    assert(self.timings@.take(p as int) =~= before.take(p as int));
                    assert(self.timings@.skip(p + 1) =~= before.skip(p as int));
                }
            },
        }
        proof {
            lemma_record_reads_back(before, self.timings@, name@, duration_nanoseconds as int);
        }
    }

    /// Closes the recording. Without a report path nothing is written. The
    /// report and baseline paths must name different files, compared by their
    /// path components. A successful run that names a
    /// baseline must still be compared with it before the report is written.
    pub fn finish(
        self,
        succeeded: bool,
        completed_unix_milliseconds: u64,
        environment: RuntimeEnvironment,
    ) -> (r: Result<Option<FinishedReport>, BenchmarkError>)
        ensures
            match self.options.report_path {
                None => r == Ok::<Option<FinishedReport>, BenchmarkError>(None),
                Some(path) => if self.options.baseline_path matches Some(b) && same_path(b@, path@) {
                    r matches Err(BenchmarkError::SameReportAndBaseline)
                } else {
                    r matches Ok(Some(f)) && f.report_path == path && f.baseline_path == (if succeeded {
                        self.options.baseline_path
                    } else {
                        None
                    }) && spec_fresh_report(self, succeeded, completed_unix_milliseconds, environment, f.report)
                },
            },
    {
        let report_path = match &self.options.report_path {
            None => return Ok(None),
            Some(path) => path.clone(),
        };
        match &self.options.baseline_path {
            Some(baseline) => {
                if paths_equal(baseline.as_str(), report_path.as_str()) {
                    return Err(BenchmarkError::SameReportAndBaseline);
                }
            },
            None => {},
        }
        let cache_mode = match environment.cache_mode_environment {
            Some(mode) => mode,
            None => String::from_str("reuse"),
        };
        let available_cpus = match environment.available_parallelism {
            Some(count) => count,
            None => 1,
        };
        let report = BenchmarkReport {
            schema_version: BENCHMARK_SCHEMA_VERSION,
            label: self.options.label.clone(),
            status: if succeeded {
                BenchmarkStatus::Succeeded
            } else {
                BenchmarkStatus::Failed
            },
            started_unix_milliseconds: self.started_unix_milliseconds,
            completed_unix_milliseconds,
            application_version: environment.application_version,
            toolkit_version: toolkit_version(),
            toolkit_revision: toolkit_revision(),
            optimized_build: environment.optimized_build,
            cache_mode,
            rayon_workers: environment.rayon_workers,
            available_cpus,
            rayon_num_threads_environment: environment.rayon_num_threads_environment,
            parallel_gl_roots: self.options.parallel_gl_roots,
            comparison_mode: self.options.comparison_mode,
            workload_signature: self.workload_signature,
            timings: self.timings,
            comparison: None,
        };
        let baseline_path = if succeeded {
            self.options.baseline_path
        } else {
            None
        };
        Ok(Some(FinishedReport { report_path, report, baseline_path }))
    }
}

/// The report that `finish` builds from a recorder and its environment.
pub open spec fn spec_fresh_report(
    recorder: BenchmarkRecorder,
    succeeded: bool,
    completed_unix_milliseconds: u64,
    environment: RuntimeEnvironment,
    report: BenchmarkReport,
) -> bool {
    &&& report.schema_version == BENCHMARK_SCHEMA_VERSION
    &&& report.label == recorder.options.label
    &&& report.status == (if succeeded {
        BenchmarkStatus::Succeeded
    } else {
        BenchmarkStatus::Failed
    })
    &&& report.started_unix_milliseconds == recorder.started_unix_milliseconds
    &&& report.completed_unix_milliseconds == completed_unix_milliseconds
    &&& report.application_version == environment.application_version
    &&& report.toolkit_version@ == "0.13.5"@
    &&& report.toolkit_revision@ == "38447273088381611b82268053c3ebfe8e4c7838"@
    &&& report.optimized_build == environment.optimized_build
    &&& report.cache_mode@ == (match environment.cache_mode_environment {
        Some(mode) => mode@,
        None => "reuse"@,
    })
    &&& report.rayon_workers == environment.rayon_workers
    &&& report.available_cpus == (match environment.available_parallelism {
        Some(count) => count,
        None => 1,
    })
    &&& report.rayon_num_threads_environment == environment.rayon_num_threads_environment
    &&& report.parallel_gl_roots == recorder.options.parallel_gl_roots
    &&& report.comparison_mode == recorder.options.comparison_mode
    &&& report.workload_signature == recorder.workload_signature
    &&& report.timings == recorder.timings
    &&& report.comparison is None
}

/// Recording a stage keeps the stages in name order, so no name occurs
/// twice, and reads back as the stage's accumulated timing: a new stage
/// holds one invocation, an existing stage gains one, and every other stage
/// keeps its timing.
pub proof fn lemma_record_reads_back(
    old_timings: Seq<(String, BenchmarkTiming)>,
    new_timings: Seq<(String, BenchmarkTiming)>,
    name: Seq<char>,
    nanos: int,
)
    requires
        names_sorted(old_timings),
        spec_recorded(old_timings, new_timings, name, nanos),
    ensures
        names_sorted(new_timings),
        unique_names(new_timings),
        find_timing(new_timings, name) == Some(
            match find_timing(old_timings, name) {
                Some(t) => spec_timing_add(t, nanos),
                None => spec_timing_from(nanos),
            },
        ),
        forall|other: Seq<char>|
            other != name ==> find_timing(new_timings, other) == find_timing(old_timings, other),
{
    lemma_sorted_unique(old_timings);
    if has_name(old_timings, name) {
        let k = choose|k: int|
            first_position(old_timings, name, k) && new_timings == old_timings.update(
                k,
                (old_timings[k].0, spec_timing_add(old_timings[k].1, nanos)),
            );
        lemma_find_at(old_timings, name, k);
        assert(first_position(new_timings, name, k));
        lemma_find_at(new_timings, name, k);
        assert forall|i: int, j: int| 0 <= i < j < new_timings.len() implies text_lt(
            (#[trigger] new_timings[i]).0@,
            (#[trigger] new_timings[j]).0@,
        ) by {
            assert(old_timings[i].0@ == new_timings[i].0@);
            assert(old_timings[j].0@ == new_timings[j].0@);
        }
        assert forall|other: Seq<char>| other != name implies find_timing(new_timings, other)
            == find_timing(old_timings, other) by {
            if has_name(old_timings, other) {
                lemma_first_position(old_timings, other);
                let j = choose|j: int| first_position(old_timings, other, j);
                assert(first_position(new_timings, other, j));
                lemma_find_at(old_timings, other, j);
                lemma_find_at(new_timings, other, j);
            } else {
                assert(!has_name(new_timings, other)) by {
                    if has_name(new_timings, other) {
                        let j = choose|j: int| 0 <= j < new_timings.len() && (#[trigger] new_timings[j]).0@ == other;
                        assert(old_timings[j].0@ == other);
                    }
                }
            }
        }
    } else {
        let p = choose|p: int|
            0 <= p <= old_timings.len() && new_timings.len() == old_timings.len() + 1
                && new_timings.take(p) == old_timings.take(p) && new_timings.skip(p + 1)
                == old_timings.skip(p) && new_timings[p].0@ == name && new_timings[p].1
                == spec_timing_from(nanos) && (forall|i: int|
                0 <= i < p ==> text_lt((#[trigger] old_timings[i]).0@, name)) && (forall|i: int|
                p <= i < old_timings.len() ==> text_lt(name, (#[trigger] old_timings[i]).0@));
        assert forall|i: int| 0 <= i < p implies new_timings[i] == old_timings[i] by {
            assert(new_timings.take(p)[i] == old_timings.take(p)[i]);
        }
        assert forall|i: int| p < i < new_timings.len() implies new_timings[i] == old_timings[i - 1] by {
            assert(new_timings.skip(p + 1)[i - p - 1] == old_timings.skip(p)[i - p - 1]);
        }
        assert forall|i: int, j: int| 0 <= i < j < new_timings.len() implies text_lt(
            (#[trigger] new_timings[i]).0@,
            (#[trigger] new_timings[j]).0@,
        ) by {
            if j < p {
                assert(new_timings[i] == old_timings[i]);
                assert(new_timings[j] == old_timings[j]);
            } else if j == p {
                assert(new_timings[i] == old_timings[i]);
            } else if i < p {
                assert(new_timings[i] == old_timings[i]);
                assert(new_timings[j] == old_timings[j - 1]);
            } else if i == p {
                assert(new_timings[j] == old_timings[j - 1]);
            } else {
                assert(new_timings[i] == old_timings[i - 1]);
                assert(new_timings[j] == old_timings[j - 1]);
            }
        }
        lemma_sorted_unique(new_timings);
        assert forall|j: int| 0 <= j < p implies (#[trigger] new_timings[j]).0@ != name by {
            assert(new_timings[j] == old_timings[j]);
            lemma_text_order(old_timings[j].0@, name, name);
        }
        assert(first_position(new_timings, name, p));
        lemma_find_at(new_timings, name, p);
        assert forall|other: Seq<char>| other != name implies find_timing(new_timings, other)
            == find_timing(old_timings, other) by {
            if has_name(old_timings, other) {
                lemma_first_position(old_timings, other);
                let j = choose|j: int| first_position(old_timings, other, j);
                lemma_find_at(old_timings, other, j);
                let nj = if j < p { j } else { j + 1 };
                assert(new_timings[nj] == old_timings[j]);
                assert forall|x: int| 0 <= x < nj implies (#[trigger] new_timings[x]).0@ != other by {
                    if x < p {
                        assert(new_timings[x] == old_timings[x]);
                    } else if x > p {
                        assert(new_timings[x] == old_timings[x - 1]);
                    }
                }
                assert(first_position(new_timings, other, nj));
                lemma_find_at(new_timings, other, nj);
            } else {
                assert(!has_name(new_timings, other)) by {
                    if has_name(new_timings, other) {
                        let j = choose|j: int| 0 <= j < new_timings.len() && (#[trigger] new_timings[j]).0@ == other;
                        if j < p {
                            assert(new_timings[j] == old_timings[j]);
                            assert(old_timings[j].0@ == other);
                        } else if j > p {
                            assert(new_timings[j] == old_timings[j - 1]);
                            assert(old_timings[j - 1].0@ == other);
                        }
                    }
                }
            }
        }
    }
}

/// A negative delta means the candidate was faster, a positive one slower,
/// and a delta within the `i64` range is exactly the difference; likewise a
/// speedup ratio above one means the candidate was faster.
pub proof fn lemma_delta_sign(before: BenchmarkTiming, after: BenchmarkTiming)
    ensures
        spec_delta_between(before, after).before_nanoseconds > spec_delta_between(
            before,
            after,
        ).after_nanoseconds <==> after.duration_nanoseconds < before.duration_nanoseconds,
        spec_delta_between(before, after).delta_nanoseconds < 0 <==> after.duration_nanoseconds
            < before.duration_nanoseconds,
        spec_delta_between(before, after).delta_nanoseconds == 0 <==> after.duration_nanoseconds
            == before.duration_nanoseconds,
        i64::MIN <= after.duration_nanoseconds - before.duration_nanoseconds <= i64::MAX
            ==> spec_delta_between(before, after).delta_nanoseconds == after.duration_nanoseconds
            - before.duration_nanoseconds,
{
}

} // verus!
