//! The requests of the three commands and the rules that decide, before any
//! computation, whether a request is admissible and how it is carried out.

use vstd::prelude::*;
use crate::research::{
    explicit_ordinal_root_target, spec_sector_eigenpairs, validate_research_capture,
    window_last, ResearchCapture, ResearchCaptureError, RootTargetError, ZeroTarget,
};
use crate::text::{decimal, decimal_string, join};

verus! {

/// Whether a separate interval certificate is built for the roots.
#[derive(Clone, Copy, Debug, PartialEq, Eq, Structural)]
pub enum RootValidation {
    /// No separate interval root certificate.
    Off,
    /// Certify the displayed ordinal range of the retained finite point source.
    Certified,
}

/// How the roots are acquired.
#[derive(Clone, Copy, Debug, PartialEq, Eq, Structural)]
pub enum RootAcquisitionMode {
    /// Refine roots from the content-bound reference-zero table.
    Seeded,
    /// Discover starting points from the finite CCM secular source itself.
    Independent,
}

/// How the root table is laid out.
#[derive(Clone, Copy, Debug, PartialEq, Eq, Structural)]
pub enum RootReport {
    /// Compare the requested reference-zero ordinals with their CCM roots.
    Reference,
    /// Preserve independently discovered root order and classify each root.
    DiscoveryOrdering,
}

/// Everything the `run` command is asked to do.
#[derive(Clone, Copy, Debug, PartialEq, Eq, Structural)]
pub struct RunRequest {
    pub lambda_sq: u64,
    pub n_modes: usize,
    pub top: usize,
    pub first_root_index: usize,
    pub precision_digits: u32,
    pub display_digits: usize,
    pub f64_only: bool,
    pub no_force_even: bool,
    pub research_capture: ResearchCapture,
    pub research_sector_eigenpairs: usize,
    pub root_acquisition: RootAcquisitionMode,
    pub root_report: RootReport,
    pub minimum_match_digits: u32,
    pub reference_zero_limit: usize,
    pub include_negative_roots: bool,
    pub allow_root_oversubscription: bool,
    pub root_validation: RootValidation,
    pub root_enclosure_digits: Option<u32>,
}

/// Why a request was refused before any computation.
#[derive(Clone, Copy, Debug, PartialEq, Eq, Structural)]
pub enum RequestError {
    LambdaTooSmall { lambda_sq: u64 },
    TopNotPositive,
    FirstRootIndexNotPositive,
    CaptureNeedsHp,
    CertificationNeedsHp,
    SeededNeedsHp,
    DiscoveryNeedsIndependent,
    DiscoveryNeedsHp,
    DiscoveryNeedsFirstIndexOne,
    MinimumMatchDigitsNotPositive,
    ReferenceZeroLimitNotPositive,
    AdvancedNeedsIndependent,
    AdvancedNeedsHp,
    AdvancedNeedsFirstIndexOne,
    AdvancedCannotCertify,
    NegativeRootsNeedDiscoveryOrdering,
    EnclosureDigitsNeedCertification,
    DisplayDigitsTooLarge,
    EnclosureDigitsOutOfRange,
    ResearchCapture { error: ResearchCaptureError },
    IndexedWindowNeedsHp,
    TooManyRoots,
    RootTarget { error: RootTargetError },
    EigenpairsOutOfRange,
}

pub open spec fn spec_capture_error_text(e: ResearchCaptureError) -> Seq<char> {
    match e {
        ResearchCaptureError::TooFewModes => "research artifact capture requires N >= 2"@,
        ResearchCaptureError::TooFewSectorEigenpairs => "research_sector_eigenpairs must be at least 2"@,
    }
}

fn capture_error_text(e: ResearchCaptureError) -> (s: String)
    ensures
        s@ == spec_capture_error_text(e),
{
    match e {
        ResearchCaptureError::TooFewModes => String::from_str("research artifact capture requires N >= 2"),
        ResearchCaptureError::TooFewSectorEigenpairs => String::from_str(
            "research_sector_eigenpairs must be at least 2",
        ),
    }
}

pub open spec fn spec_root_target_text(e: RootTargetError) -> Seq<char> {
    match e {
        RootTargetError::NotPositive => "CCM ordinal root targets require positive indices and counts"@,
        RootTargetError::Overflow => "requested root index range overflows usize"@,
        RootTargetError::ExceedsReach => "requested root window exceeds the finite CCM reach N"@,
    }
}

fn root_target_text(e: RootTargetError) -> (s: String)
    ensures
        s@ == spec_root_target_text(e),
{
    match e {
        RootTargetError::NotPositive => String::from_str(
            "CCM ordinal root targets require positive indices and counts",
        ),
        RootTargetError::Overflow => String::from_str("requested root index range overflows usize"),
        RootTargetError::ExceedsReach => String::from_str(
            "requested root window exceeds the finite CCM reach N",
        ),
    }
}

/// The text of a refused request.
pub open spec fn spec_request_message(e: RequestError) -> Seq<char> {
    match e {
        RequestError::LambdaTooSmall { lambda_sq } => "lambda_sq must be >= 2 (got "@ + decimal(lambda_sq as nat) + ")"@,
        RequestError::TopNotPositive => "top must be positive"@,
        RequestError::FirstRootIndexNotPositive => "first_root_index is one-based and must be positive"@,
        RequestError::CaptureNeedsHp => "research and sector artifact capture requires the HP tier"@,
        RequestError::CertificationNeedsHp => "root certification requires the HP tier"@,
        RequestError::SeededNeedsHp => "reference-seeded root acquisition requires the HP tier; use --root-acquisition independent with --f64-only"@,
        RequestError::DiscoveryNeedsIndependent => "discovery-ordering reports require --root-acquisition independent"@,
        RequestError::DiscoveryNeedsHp => "discovery-ordering reports require the HP tier"@,
        RequestError::DiscoveryNeedsFirstIndexOne => "discovery-ordering reports currently require --first-root-index 1"@,
        RequestError::MinimumMatchDigitsNotPositive => "minimum_match_digits must be positive"@,
        RequestError::ReferenceZeroLimitNotPositive => "reference_zero_limit must be positive"@,
        RequestError::AdvancedNeedsIndependent => "advanced signed or oversubscribed roots require --root-acquisition independent"@,
        RequestError::AdvancedNeedsHp => "advanced signed or oversubscribed roots require the HP tier"@,
        RequestError::AdvancedNeedsFirstIndexOne => "advanced signed or oversubscribed discovery currently requires --first-root-index 1"@,
        RequestError::AdvancedCannotCertify => "advanced signed or incomplete root windows cannot be root-certified"@,
        RequestError::NegativeRootsNeedDiscoveryOrdering => "--include-negative-roots requires --root-report discovery-ordering"@,
        RequestError::EnclosureDigitsNeedCertification => "--root-enclosure-digits requires --root-validation certified"@,
        RequestError::DisplayDigitsTooLarge => "display_digits exceeds the supported u32 range"@,
        RequestError::EnclosureDigitsOutOfRange => "root enclosure digits must be between 1 and precision_digits"@,
        RequestError::IndexedWindowNeedsHp => "indexed root windows require the HP independent-discovery tier"@,
        RequestError::TooManyRoots => "requested root count cannot exceed N"@,
        RequestError::EigenpairsOutOfRange => "eigenpairs must be between 2 and N"@,
        RequestError::ResearchCapture { error } => spec_capture_error_text(error),
        RequestError::RootTarget { error } => spec_root_target_text(error),
    }
}

impl RequestError {
    /// The human-readable description of the refusal.
    pub fn message(&self) -> (s: String)
        ensures
            s@ == spec_request_message(*self),
    {
        match self {
            RequestError::LambdaTooSmall { lambda_sq } => {
                let s = join(String::from_str("lambda_sq must be >= 2 (got "), decimal_string(*lambda_sq).as_str());
                join(s, ")")
            },
            RequestError::TopNotPositive => String::from_str("top must be positive"),
            RequestError::FirstRootIndexNotPositive => String::from_str("first_root_index is one-based and must be positive"),
            RequestError::CaptureNeedsHp => String::from_str("research and sector artifact capture requires the HP tier"),
            RequestError::CertificationNeedsHp => String::from_str("root certification requires the HP tier"),
            RequestError::SeededNeedsHp => String::from_str("reference-seeded root acquisition requires the HP tier; use --root-acquisition independent with --f64-only"),
            RequestError::DiscoveryNeedsIndependent => String::from_str("discovery-ordering reports require --root-acquisition independent"),
            RequestError::DiscoveryNeedsHp => String::from_str("discovery-ordering reports require the HP tier"),
            RequestError::DiscoveryNeedsFirstIndexOne => String::from_str("discovery-ordering reports currently require --first-root-index 1"),
            RequestError::MinimumMatchDigitsNotPositive => String::from_str("minimum_match_digits must be positive"),
            RequestError::ReferenceZeroLimitNotPositive => String::from_str("reference_zero_limit must be positive"),
            RequestError::AdvancedNeedsIndependent => String::from_str("advanced signed or oversubscribed roots require --root-acquisition independent"),
            RequestError::AdvancedNeedsHp => String::from_str("advanced signed or oversubscribed roots require the HP tier"),
            RequestError::AdvancedNeedsFirstIndexOne => String::from_str("advanced signed or oversubscribed discovery currently requires --first-root-index 1"),
            RequestError::AdvancedCannotCertify => String::from_str("advanced signed or incomplete root windows cannot be root-certified"),
            RequestError::NegativeRootsNeedDiscoveryOrdering => String::from_str("--include-negative-roots requires --root-report discovery-ordering"),
            RequestError::EnclosureDigitsNeedCertification => String::from_str("--root-enclosure-digits requires --root-validation certified"),
            RequestError::DisplayDigitsTooLarge => String::from_str("display_digits exceeds the supported u32 range"),
            RequestError::EnclosureDigitsOutOfRange => String::from_str("root enclosure digits must be between 1 and precision_digits"),
            RequestError::IndexedWindowNeedsHp => String::from_str("indexed root windows require the HP independent-discovery tier"),
            RequestError::TooManyRoots => String::from_str("requested root count cannot exceed N"),
            RequestError::EigenpairsOutOfRange => String::from_str("eigenpairs must be between 2 and N"),
            RequestError::ResearchCapture { error } => capture_error_text(*error),
            RequestError::RootTarget { error } => root_target_text(*error),
        }
    }
}

/// How an admissible `run` request is carried out.
#[derive(Clone, Debug)]
pub struct RunPlan {
    /// Decimal width of each certified root enclosure.
    pub root_enclosure_digits: u32,
    /// The ordinal target and its last ordinal; the f64 tier has none.
    pub target: Option<(ZeroTarget, usize)>,
    /// Eigenpairs retained per sector, bounded by `N`, when sectors are solved.
    pub sector_eigenpairs: Option<usize>,
}

/// The enclosure width that a certified run uses: the explicit one, or the
/// display width when that fits in `u32`.
pub open spec fn spec_enclosure_digits(request: RunRequest) -> Option<u32> {
    match request.root_enclosure_digits {
        Some(d) => Some(d),
        None => if request.display_digits <= u32::MAX {
            Some(request.display_digits as u32)
        } else {
            None
        },
    }
}

/// The first rule, in order of checking, that a `run` request breaks.
pub open spec fn spec_run_error(request: RunRequest) -> Option<RequestError> {
    let r = request;
    let advanced = r.include_negative_roots || r.allow_root_oversubscription;
    let discovery = r.root_report == RootReport::DiscoveryOrdering;
    let independent = r.root_acquisition == RootAcquisitionMode::Independent;
    if r.lambda_sq < 2 {
        Some(RequestError::LambdaTooSmall { lambda_sq: r.lambda_sq })
    } else if r.top == 0 {
        Some(RequestError::TopNotPositive)
    } else if r.first_root_index == 0 {
        Some(RequestError::FirstRootIndexNotPositive)
    } else if r.research_capture != ResearchCapture::Claim && r.f64_only {
        Some(RequestError::CaptureNeedsHp)
    } else if r.root_validation != RootValidation::Off && r.f64_only {
        Some(RequestError::CertificationNeedsHp)
    } else if r.root_acquisition == RootAcquisitionMode::Seeded && r.f64_only {
        Some(RequestError::SeededNeedsHp)
    } else if discovery && !independent {
        Some(RequestError::DiscoveryNeedsIndependent)
    } else if discovery && r.f64_only {
        Some(RequestError::DiscoveryNeedsHp)
    } else if discovery && r.first_root_index != 1 {
        Some(RequestError::DiscoveryNeedsFirstIndexOne)
    } else if discovery && r.minimum_match_digits == 0 {
        Some(RequestError::MinimumMatchDigitsNotPositive)
    } else if discovery && r.reference_zero_limit == 0 {
        Some(RequestError::ReferenceZeroLimitNotPositive)
    } else if advanced && !independent {
        Some(RequestError::AdvancedNeedsIndependent)
    } else if advanced && r.f64_only {
        Some(RequestError::AdvancedNeedsHp)
    } else if advanced && r.first_root_index != 1 {
        Some(RequestError::AdvancedNeedsFirstIndexOne)
    } else if advanced && r.root_validation != RootValidation::Off {
        Some(RequestError::AdvancedCannotCertify)
    } else if r.include_negative_roots && !discovery {
        Some(RequestError::NegativeRootsNeedDiscoveryOrdering)
    } else if r.root_validation == RootValidation::Off && r.root_enclosure_digits is Some {
        Some(RequestError::EnclosureDigitsNeedCertification)
    } else if spec_enclosure_digits(r) is None {
        Some(RequestError::DisplayDigitsTooLarge)
    } else if r.root_validation == RootValidation::Certified && (spec_enclosure_digits(r)->0 == 0
        || spec_enclosure_digits(r)->0 > r.precision_digits) {
        Some(RequestError::EnclosureDigitsOutOfRange)
    } else if spec_sector_eigenpairs(r.research_capture, r.research_sector_eigenpairs) is Some
        && r.n_modes < 2 {
        Some(RequestError::ResearchCapture { error: ResearchCaptureError::TooFewModes })
    } else if spec_sector_eigenpairs(r.research_capture, r.research_sector_eigenpairs) matches Some(
        c,
    ) && c < 2 {
        Some(RequestError::ResearchCapture { error: ResearchCaptureError::TooFewSectorEigenpairs })
    } else if r.f64_only {
        if r.first_root_index != 1 {
            Some(RequestError::IndexedWindowNeedsHp)
        } else {
            None
        }
    } else if r.top > r.n_modes && !r.allow_root_oversubscription {
        Some(RequestError::TooManyRoots)
    } else if window_last(r.first_root_index, r.top) > usize::MAX {
        Some(RequestError::RootTarget { error: RootTargetError::Overflow })
    } else if window_last(r.first_root_index, r.top) > r.n_modes && !r.allow_root_oversubscription {
        Some(RequestError::RootTarget { error: RootTargetError::ExceedsReach })
    } else {
        None
    }
}

/// The sector eigenpairs a capture level retains, bounded by the mode count.
pub open spec fn spec_bounded_sector_eigenpairs(
    capture: ResearchCapture,
    count: usize,
    n_modes: usize,
) -> Option<usize> {
    match spec_sector_eigenpairs(capture, count) {
        Some(c) => Some(if c < n_modes {
            c
        } else {
            n_modes
        }),
        None => None,
    }
}

fn map_capture_error(e: ResearchCaptureError) -> (r: RequestError)
    ensures
        r == (RequestError::ResearchCapture { error: e }),
{
    RequestError::ResearchCapture { error: e }
}

/// Decides whether a `run` request is admissible and, if so, how it is
/// carried out: the certificate width, the explicit ordinal target of the
/// high-precision tier, and the bounded sector eigenpair count.
pub fn plan_run(request: &RunRequest) -> (r: Result<RunPlan, RequestError>)
    ensures
        match spec_run_error(*request) {
            Some(e) => r == Err::<RunPlan, RequestError>(e),
            None => r matches Ok(plan) && Some(plan.root_enclosure_digits) == spec_enclosure_digits(
                *request,
            ) && plan.sector_eigenpairs == spec_bounded_sector_eigenpairs(
                request.research_capture,
                request.research_sector_eigenpairs,
                request.n_modes,
            ) && (request.f64_only ==> plan.target is None) && (!request.f64_only ==> (
            plan.target matches Some((target, last)) && last == window_last(
                request.first_root_index,
                request.top,
            ) && (if request.first_root_index == 1 {
                target matches ZeroTarget::FirstK { count } && count == request.top
            } else {
                target matches ZeroTarget::IndexRange { first, last: l } && first
                    == request.first_root_index && l == last
            }))),
        },
        r == Err::<RunPlan, RequestError>(RequestError::TooManyRoots) ==> request.top
            > request.n_modes && !request.allow_root_oversubscription && !request.f64_only,
        request.allow_root_oversubscription ==> r != Err::<RunPlan, RequestError>(
            RequestError::TooManyRoots,
        ) && r != Err::<RunPlan, RequestError>(
            RequestError::RootTarget { error: RootTargetError::ExceedsReach },
        ),
        oversubscribed_discovery(*request) ==> (r matches Ok(plan) && plan.target == Some(
            (ZeroTarget::FirstK { count: request.top }, request.top),
        )),
{
    proof {
        lemma_oversubscription_is_honoured(*request);
    }
    let r = request;
    let advanced = r.include_negative_roots || r.allow_root_oversubscription;
    let discovery = r.root_report == RootReport::DiscoveryOrdering;
    let independent = r.root_acquisition == RootAcquisitionMode::Independent;
    if r.lambda_sq < 2 {
        return Err(RequestError::LambdaTooSmall { lambda_sq: r.lambda_sq });
    }
    if r.top == 0 {
        return Err(RequestError::TopNotPositive);
    }
    if r.first_root_index == 0 {
        return Err(RequestError::FirstRootIndexNotPositive);
    }
    if r.research_capture != ResearchCapture::Claim && r.f64_only {
        return Err(RequestError::CaptureNeedsHp);
    }
    if r.root_validation != RootValidation::Off && r.f64_only {
        return Err(RequestError::CertificationNeedsHp);
    }
    if r.root_acquisition == RootAcquisitionMode::Seeded && r.f64_only {
        return Err(RequestError::SeededNeedsHp);
    }
    if discovery {
        if !independent {
            return Err(RequestError::DiscoveryNeedsIndependent);
        }
        if r.f64_only {
            return Err(RequestError::DiscoveryNeedsHp);
        }
        if r.first_root_index != 1 {
            return Err(RequestError::DiscoveryNeedsFirstIndexOne);
        }
        if r.minimum_match_digits == 0 {
            return Err(RequestError::MinimumMatchDigitsNotPositive);
        }
        if r.reference_zero_limit == 0 {
            return Err(RequestError::ReferenceZeroLimitNotPositive);
        }
    }
    if advanced {
        if !independent {
            return Err(RequestError::AdvancedNeedsIndependent);
        }
        if r.f64_only {
            return Err(RequestError::AdvancedNeedsHp);
        }
        if r.first_root_index != 1 {
            return Err(RequestError::AdvancedNeedsFirstIndexOne);
        }
        if r.root_validation != RootValidation::Off {
            return Err(RequestError::AdvancedCannotCertify);
        }
    }
    if r.include_negative_roots && !discovery {
        return Err(RequestError::NegativeRootsNeedDiscoveryOrdering);
    }
    if r.root_validation == RootValidation::Off && r.root_enclosure_digits.is_some() {
        return Err(RequestError::EnclosureDigitsNeedCertification);
    }
    let root_enclosure_digits: u32 = match r.root_enclosure_digits {
        Some(d) => d,
        None => {
            if r.display_digits <= u32::MAX as usize {
                r.display_digits as u32
            } else {
                return Err(RequestError::DisplayDigitsTooLarge);
            }
        },
    };
    if r.root_validation == RootValidation::Certified && (root_enclosure_digits == 0
        || root_enclosure_digits > r.precision_digits) {
        return Err(RequestError::EnclosureDigitsOutOfRange);
    }
    match validate_research_capture(r.n_modes, r.research_capture, r.research_sector_eigenpairs) {
        Err(e) => return Err(map_capture_error(e)),
        Ok(()) => {},
    }
    let sector_eigenpairs = match r.research_capture.sector_eigenpairs(
        r.research_sector_eigenpairs,
    ) {
        Some(c) => Some(
            if c < r.n_modes {
                c
            } else {
                r.n_modes
            },
        ),
        None => None,
    };
    if r.f64_only {
        if r.first_root_index != 1 {
            return Err(RequestError::IndexedWindowNeedsHp);
        }
        return Ok(RunPlan { root_enclosure_digits, target: None, sector_eigenpairs });
    }
    if r.top > r.n_modes && !r.allow_root_oversubscription {
        return Err(RequestError::TooManyRoots);
    }
    match explicit_ordinal_root_target(
        r.first_root_index,
        r.top,
        r.n_modes,
        r.allow_root_oversubscription,
    ) {
        Ok(target) => Ok(RunPlan { root_enclosure_digits, target: Some(target), sector_eigenpairs }),
        Err(e) => Err(RequestError::RootTarget { error: e }),
    }
}

/// A well-formed independent discovery-ordering `run` that allows
/// oversubscription, with no research capture or certification.
pub open spec fn oversubscribed_discovery(r: RunRequest) -> bool {
    &&& r.lambda_sq >= 2
    &&& r.top >= 1
    &&& r.first_root_index == 1
    &&& !r.f64_only
    &&& r.research_capture == ResearchCapture::Claim
    &&& r.root_acquisition == RootAcquisitionMode::Independent
    &&& r.root_report == RootReport::DiscoveryOrdering
    &&& r.minimum_match_digits > 0
    &&& r.reference_zero_limit > 0
    &&& r.allow_root_oversubscription
    &&& r.root_validation == RootValidation::Off
    &&& r.root_enclosure_digits is None
    &&& r.display_digits <= u32::MAX
}

/// Oversubscription admits more roots than modes: a request is refused for
/// asking more than `N` roots, or for a window beyond reach, only when it
/// does not allow oversubscription; and a well-formed oversubscribed
/// discovery request is admitted whatever its root count, `top > N`
/// included.
pub proof fn lemma_oversubscription_is_honoured(r: RunRequest)
    ensures
        spec_run_error(r) == Some(RequestError::TooManyRoots) ==> r.top > r.n_modes
            && !r.allow_root_oversubscription && !r.f64_only,
        spec_run_error(r) == Some(RequestError::RootTarget { error: RootTargetError::ExceedsReach })
            ==> !r.allow_root_oversubscription,
        oversubscribed_discovery(r) ==> spec_run_error(r) is None,
{
}

/// Everything the `check-evenness` command is asked to do.
#[derive(Clone, Copy, Debug, PartialEq, Eq, Structural)]
pub struct EvennessRequest {
    pub lambda_sq: u64,
    pub n_modes: usize,
    pub precision_digits: u32,
    pub display_digits: usize,
    pub research_capture: ResearchCapture,
    pub research_sector_eigenpairs: usize,
    pub root_acquisition: RootAcquisitionMode,
}

/// Decides whether a `check-evenness` request is admissible; if so, returns
/// the bounded sector eigenpair count of its supplemental capture.
pub fn plan_check_evenness(request: &EvennessRequest) -> (r: Result<Option<usize>, RequestError>)
    ensures
        request.lambda_sq < 2 ==> r == Err::<Option<usize>, RequestError>(
            RequestError::LambdaTooSmall { lambda_sq: request.lambda_sq },
        ),
        request.lambda_sq >= 2 ==> match spec_sector_eigenpairs(
            request.research_capture,
            request.research_sector_eigenpairs,
        ) {
            Some(c) => if request.n_modes < 2 {
                r == Err::<Option<usize>, RequestError>(
                    RequestError::ResearchCapture { error: ResearchCaptureError::TooFewModes },
                )
            } else if c < 2 {
                r == Err::<Option<usize>, RequestError>(
                    RequestError::ResearchCapture {
                        error: ResearchCaptureError::TooFewSectorEigenpairs,
                    },
                )
            } else {
                r == Ok::<Option<usize>, RequestError>(
                    spec_bounded_sector_eigenpairs(
                        request.research_capture,
                        request.research_sector_eigenpairs,
                        request.n_modes,
                    ),
                )
            },
            None => r == Ok::<Option<usize>, RequestError>(None),
        },
        request.lambda_sq >= 2 && request.n_modes >= 2 && request.research_sector_eigenpairs >= 2
            && (request.research_capture == ResearchCapture::Maximum || request.research_capture
            == ResearchCapture::Ultra) ==> r == Ok::<Option<usize>, RequestError>(
            Some(
                if request.research_sector_eigenpairs < request.n_modes {
                    request.research_sector_eigenpairs
                } else {
                    request.n_modes
                },
            ),
        ),
        request.lambda_sq >= 2 && request.n_modes >= 2 && request.research_capture
            == ResearchCapture::Gap ==> r == Ok::<Option<usize>, RequestError>(Some(2usize)),
        request.lambda_sq >= 2 && (request.research_capture == ResearchCapture::Claim
            || request.research_capture == ResearchCapture::Research) ==> r == Ok::<
            Option<usize>,
            RequestError,
        >(None),
{
    if request.lambda_sq < 2 {
        return Err(RequestError::LambdaTooSmall { lambda_sq: request.lambda_sq });
    }
    match validate_research_capture(
        request.n_modes,
        request.research_capture,
        request.research_sector_eigenpairs,
    ) {
        Err(e) => return Err(map_capture_error(e)),
        Ok(()) => {},
    }
    match request.research_capture.sector_eigenpairs(request.research_sector_eigenpairs) {
        Some(c) => Ok(
            Some(
                if c < request.n_modes {
                    c
                } else {
                    request.n_modes
                },
            ),
        ),
        None => Ok(None),
    }
}

/// Everything the `sector-gap` command is asked to do.
#[derive(Clone, Copy, Debug, PartialEq, Eq, Structural)]
pub struct SectorGapRequest {
    pub lambda_sq: u64,
    pub n_modes: usize,
    pub precision_digits: u32,
    pub eigenpairs: usize,
    pub display_digits: usize,
}

/// Decides whether a `sector-gap` request is admissible: `λ² ≥ 2` and
/// between 2 and `N` eigenpairs per sector.
pub fn validate_sector_gap(request: &SectorGapRequest) -> (r: Result<(), RequestError>)
    ensures
        request.lambda_sq < 2 ==> r == Err::<(), RequestError>(
            RequestError::LambdaTooSmall { lambda_sq: request.lambda_sq },
        ),
        request.lambda_sq >= 2 && (request.eigenpairs < 2 || request.eigenpairs > request.n_modes)
            ==> r == Err::<(), RequestError>(RequestError::EigenpairsOutOfRange),
        request.lambda_sq >= 2 && 2 <= request.eigenpairs <= request.n_modes ==> r == Ok::<
            (),
            RequestError,
        >(()),
{
    if request.lambda_sq < 2 {
        return Err(RequestError::LambdaTooSmall { lambda_sq: request.lambda_sq });
    }
    if request.eigenpairs < 2 || request.eigenpairs > request.n_modes {
        return Err(RequestError::EigenpairsOutOfRange);
    }
    Ok(())
}

/// Roots requested by a supplemental capture: the configured count bounded
/// by `N`, and at least one.
pub fn supplemental_root_count(n_eigenvalues: usize, n_modes: usize) -> (r: usize)
    ensures
        r == if n_eigenvalues < n_modes {
            if n_eigenvalues == 0 {
                1
            } else {
                n_eigenvalues
            }
        } else if n_modes == 0 {
            1
        } else {
            n_modes
        },
{
    let bounded = if n_eigenvalues < n_modes {
        n_eigenvalues
    } else {
        n_modes
    };
    if bounded == 0 {
        1
    } else {
        bounded
    }
}

} // verus!
