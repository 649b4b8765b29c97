//! Research-capture levels and the validation of root requests.

use vstd::prelude::*;
use crate::text::{decimal, decimal_string, join};

verus! {

/// How much supplemental research evidence a run retains.
#[derive(Clone, Copy, Debug, PartialEq, Eq, Structural)]
pub enum ResearchCapture {
    /// Only the roots requested for the claim and their native artifacts.
    Claim,
    /// Requested roots plus detailed research artifacts, without sector analysis.
    Research,
    /// Research capture plus natural evenness and two eigenpairs per sector.
    Gap,
    /// A configurable low spectrum from both parity sectors.
    Maximum,
    /// Maximum capture plus the complete diagnostic recipe.
    Ultra,
}

/// Number of sector eigenpairs a capture level retains, if it solves sectors at all.
pub open spec fn spec_sector_eigenpairs(level: ResearchCapture, maximum_count: usize) -> Option<usize> {
    match level {
        ResearchCapture::Claim | ResearchCapture::Research => None,
        ResearchCapture::Gap => Some(2usize),
        ResearchCapture::Maximum | ResearchCapture::Ultra => Some(maximum_count),
    }
}

impl ResearchCapture {
    /// The number of low eigenpairs retained per parity sector.
    pub fn sector_eigenpairs(self, maximum_count: usize) -> (r: Option<usize>)
        ensures
            r == spec_sector_eigenpairs(self, maximum_count),
            (self == ResearchCapture::Maximum || self == ResearchCapture::Ultra) ==> r == Some(
                maximum_count,
            ),
            self == ResearchCapture::Gap ==> r == Some(2usize),
            (self == ResearchCapture::Claim || self == ResearchCapture::Research) ==> r is None,
    {
        match self {
            ResearchCapture::Claim | ResearchCapture::Research => None,
            ResearchCapture::Gap => Some(2),
            ResearchCapture::Maximum | ResearchCapture::Ultra => Some(maximum_count),
        }
    }
}

/// What each capture level retains per parity sector, for every configured
/// count: `claim` and `research` solve no sectors, `gap` keeps two
/// eigenpairs, and `ultra` keeps exactly the configurable spectrum that
/// `maximum` keeps.
pub proof fn lemma_sector_eigenpairs_by_level(maximum_count: usize)
    ensures
        spec_sector_eigenpairs(ResearchCapture::Claim, maximum_count) is None,
        spec_sector_eigenpairs(ResearchCapture::Research, maximum_count) is None,
        spec_sector_eigenpairs(ResearchCapture::Gap, maximum_count) == Some(2usize),
        spec_sector_eigenpairs(ResearchCapture::Maximum, maximum_count) == Some(maximum_count),
        spec_sector_eigenpairs(ResearchCapture::Ultra, maximum_count) == Some(maximum_count),
        forall|level: ResearchCapture|
            spec_sector_eigenpairs(level, maximum_count) == Some(maximum_count) && maximum_count
                != 2 ==> level == ResearchCapture::Maximum || level == ResearchCapture::Ultra,
{
}

/// Why a research-capture request was refused.
#[derive(Clone, Copy, Debug, PartialEq, Eq, Structural)]
pub enum ResearchCaptureError {
    /// Sector capture needs at least two modes.
    TooFewModes,
    /// Sector capture needs at least two eigenpairs per sector.
    TooFewSectorEigenpairs,
}

/// Checks that a sector-solving capture level has enough modes and eigenpairs.
pub fn validate_research_capture(
    n_modes: usize,
    capture: ResearchCapture,
    sector_eigenpairs: usize,
) -> (r: Result<(), ResearchCaptureError>)
    ensures
        match spec_sector_eigenpairs(capture, sector_eigenpairs) {
            None => r == Ok::<(), ResearchCaptureError>(()),
            Some(count) => if n_modes < 2 {
                r == Err::<(), ResearchCaptureError>(ResearchCaptureError::TooFewModes)
            } else if count < 2 {
                r == Err::<(), ResearchCaptureError>(ResearchCaptureError::TooFewSectorEigenpairs)
            } else {
                r == Ok::<(), ResearchCaptureError>(())
            },
        },
{
    let count = match capture.sector_eigenpairs(sector_eigenpairs) {
        None => return Ok(()),
        Some(count) => count,
    };
    if n_modes < 2 {
        return Err(ResearchCaptureError::TooFewModes);
    }
    if count < 2 {
        return Err(ResearchCaptureError::TooFewSectorEigenpairs);
    }
    Ok(())
}

/// The printed description of a capture level.
pub open spec fn spec_capture_label(capture: ResearchCapture, maximum_count: usize) -> Seq<char> {
    match capture {
        ResearchCapture::Claim => "claim (requested roots and native artifacts)"@,
        ResearchCapture::Research => "research (requested roots and detailed artifacts; no sector solve)"@,
        ResearchCapture::Gap => "gap (requested roots, evenness, GapLog, 2 eigenpairs per sector)"@,
        ResearchCapture::Maximum => "maximum (requested roots, evenness, GapLog, "@ + decimal(
            maximum_count as nat,
        ) + " eigenpairs per sector)"@,
        ResearchCapture::Ultra => "ultra (requested roots, evenness, GapLog, "@ + decimal(
            maximum_count as nat,
        ) + " eigenpairs per sector, and the full diagnostic recipe)"@,
    }
}

/// Describes what a capture level retains.
pub fn research_capture_label(capture: ResearchCapture, maximum_count: usize) -> (s: String)
    ensures
        s@ == spec_capture_label(capture, maximum_count),
{
    match capture {
        ResearchCapture::Claim => String::from_str("claim (requested roots and native artifacts)"),
        ResearchCapture::Research => String::from_str(
            "research (requested roots and detailed artifacts; no sector solve)",
        ),
        ResearchCapture::Gap => String::from_str(
            "gap (requested roots, evenness, GapLog, 2 eigenpairs per sector)",
        ),
        ResearchCapture::Maximum => {
            let s = join(
                String::from_str("maximum (requested roots, evenness, GapLog, "),
                decimal_string(maximum_count as u64).as_str(),
            );
            join(s, " eigenpairs per sector)")
        },
        ResearchCapture::Ultra => {
            let s = join(
                String::from_str("ultra (requested roots, evenness, GapLog, "),
                decimal_string(maximum_count as u64).as_str(),
            );
            join(s, " eigenpairs per sector, and the full diagnostic recipe)")
        },
    }
}

/// Which zeros of the finite CCM source a run targets.
#[derive(Clone, Debug)]
pub enum ZeroTarget {
    /// The first `count` positive roots.
    FirstK { count: usize },
    /// The positive roots with one-based ordinals `first..=last`.
    IndexRange { first: usize, last: usize },
    /// The roots whose heights lie in `[lower, upper]`.
    HeightWindow { lower: String, upper: String },
    /// The roots whose absolute heights are at most `height`.
    SymmetricHeightWindow { height: String },
}

/// Why a root request was refused.
#[derive(Clone, Copy, Debug, PartialEq, Eq, Structural)]
pub enum RootTargetError {
    /// Ordinal targets need a positive first index and a positive count.
    NotPositive,
    /// The last ordinal does not fit in `usize`.
    Overflow,
    /// The window reaches past the finite CCM reach `N`.
    ExceedsReach,
}

/// The last ordinal of a window of `count` roots starting at `first`, when
/// it exists.
pub open spec fn window_last(first: usize, count: usize) -> int {
    first + count - 1
}

/// Turns a one-based first ordinal and a root count into an explicit ordinal
/// target and its last ordinal. A window starting at the first root is a
/// prefix. Without oversubscription the window must stay within `n_modes`.
pub fn explicit_ordinal_root_target(
    first_root_index: usize,
    root_count: usize,
    n_modes: usize,
    allow_oversubscription: bool,
) -> (r: Result<(ZeroTarget, usize), RootTargetError>)
    ensures
        first_root_index == 0 || root_count == 0 ==> r matches Err(RootTargetError::NotPositive),
        first_root_index > 0 && root_count > 0 && window_last(first_root_index, root_count)
            > usize::MAX ==> r matches Err(RootTargetError::Overflow),
        first_root_index > 0 && root_count > 0 && window_last(first_root_index, root_count)
            <= usize::MAX ==> if window_last(first_root_index, root_count) > n_modes
            && !allow_oversubscription {
            r matches Err(RootTargetError::ExceedsReach)
        } else {
            r matches Ok((target, last)) && last == window_last(first_root_index, root_count) && (
            if first_root_index == 1 {
                target matches ZeroTarget::FirstK { count } && count == root_count
            } else {
                target matches ZeroTarget::IndexRange { first, last: l } && first
                    == first_root_index && l == last
            })
        },
{
    if first_root_index == 0 || root_count == 0 {
        return Err(RootTargetError::NotPositive);
    }
    let last = match first_root_index.checked_add(root_count - 1) {
        Some(last) => last,
        None => return Err(RootTargetError::Overflow),
    };
    if last > n_modes && !allow_oversubscription {
        return Err(RootTargetError::ExceedsReach);
    }
    let target = if first_root_index == 1 {
        ZeroTarget::FirstK { count: root_count }
    } else {
        ZeroTarget::IndexRange { first: first_root_index, last }
    };
    Ok((target, last))
}

/// Why no reference seeds could be taken for a target.
#[derive(Clone, Debug)]
pub enum SeedWindowError {
    /// The dataset does not hold the requested ordinals.
    NotCovered { dataset: String, first: usize, last: usize },
    /// Height windows cannot be turned into reference seeds.
    HeightWindow,
}

/// The seeds of the ordinal window `first..=last`, when the dataset covers it.
pub open spec fn spec_seed_slice(all: Seq<String>, first: int, last: int) -> Option<Seq<String>> {
    if first == 0 || first > last || last > all.len() {
        None
    } else {
        Some(all.subrange(first - 1, last))
    }
}

/// The reference zeros that seed the refinement of an explicit ordinal
/// target, with the ordinal of the first seed. `all` holds the dataset's
/// records in ordinal order. Height windows are refused: a capture level
/// never converts them into seeds.
pub fn reference_seed_window(target: &ZeroTarget, dataset: &String, all: &Vec<String>) -> (r:
    Result<(usize, Vec<String>), SeedWindowError>)
    ensures
        match *target {
            ZeroTarget::FirstK { count } => match spec_seed_slice(all@, 1, count as int) {
                Some(seeds) => r matches Ok((first, v)) && first == 1 && v@ == seeds,
                None => r matches Err(SeedWindowError::NotCovered { dataset: d, first, last })
                    && d == *dataset && first == 1 && last == count,
            },
            ZeroTarget::IndexRange { first, last } => match spec_seed_slice(
                all@,
                first as int,
                last as int,
            ) {
                Some(seeds) => r matches Ok((f, v)) && f == first && v@ == seeds,
                None => r matches Err(SeedWindowError::NotCovered { dataset: d, first: f, last: l })
                    && d == *dataset && f == first && l == last,
            },
            _ => r matches Err(SeedWindowError::HeightWindow),
        },
{
    let (first, last) = match target {
        ZeroTarget::FirstK { count } => (1usize, *count),
        ZeroTarget::IndexRange { first, last } => (*first, *last),
        _ => return Err(SeedWindowError::HeightWindow),
    };
    if first == 0 || first > last || last > all.len() {
        return Err(SeedWindowError::NotCovered { dataset: dataset.clone(), first, last });
    }
    let mut seeds: Vec<String> = Vec::new();
    let mut k: usize = first - 1;
    while k < last
        invariant
            1 <= first <= last <= all@.len(),
            first - 1 <= k <= last,
            seeds@ == all@.subrange(first - 1, k as int),
        decreases last - k,
    {
        seeds.push(all[k].clone());
        proof {
            assert(all@.subrange(first - 1, k + 1) =~= all@.subrange(first - 1, k as int).push(
                all@[k as int],
            ));
        }
        k = k + 1;
    }
    Ok((first, seeds))
}

/// The sign of a computed eigenvalue.
#[derive(Clone, Copy, Debug, PartialEq, Eq, Structural)]
pub enum Sign {
    Negative,
    Zero,
    Positive,
}

/// Whether the natural and the forced-even smallest eigenvalues have
/// opposite signs: they differ and neither is zero.
pub fn opposite_signs(natural: Sign, forced_even: Sign) -> (r: bool)
    ensures
        r == (natural != forced_even && natural != Sign::Zero && forced_even != Sign::Zero),
{
    natural != forced_even && natural != Sign::Zero && forced_even != Sign::Zero
}

} // verus!
