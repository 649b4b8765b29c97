use ccm_reproduction::commands::{
    plan_check_evenness, plan_run, supplemental_root_count, validate_sector_gap,
    EvennessRequest, RequestError, RootAcquisitionMode, RootReport, RootValidation, RunRequest,
    SectorGapRequest,
};
use ccm_reproduction::research::{
    explicit_ordinal_root_target, reference_seed_window, research_capture_label,
    validate_research_capture, ResearchCapture, ResearchCaptureError, RootTargetError,
    SeedWindowError, ZeroTarget,
};
use ccm_reproduction::research::{opposite_signs, Sign};

#[test]
fn research_capture_bounds_are_guarded() {
    assert!(validate_research_capture(120, ResearchCapture::Maximum, 8).is_ok());
    assert!(validate_research_capture(120, ResearchCapture::Maximum, 1).is_err());
    assert!(validate_research_capture(5, ResearchCapture::Gap, 8).is_ok());
    assert!(validate_research_capture(1, ResearchCapture::Gap, 2).is_err());
    assert!(validate_research_capture(5, ResearchCapture::Research, 1).is_ok());
}

#[test]
fn claim_root_targets_are_bounded_explicit_ordinals() {
    let (prefix, last) = explicit_ordinal_root_target(1, 25, 120, false).unwrap();
    assert!(matches!(prefix, ZeroTarget::FirstK { count: 25 }));
    assert_eq!(last, 25);

    let (later, last) = explicit_ordinal_root_target(51, 25, 120, false).unwrap();
    assert!(matches!(
        later,
        ZeroTarget::IndexRange {
            first: 51,
            last: 75
        }
    ));
    assert_eq!(last, 75);
    assert!(explicit_ordinal_root_target(101, 25, 120, false).is_err());
    let (advanced, last) = explicit_ordinal_root_target(1, 200, 100, true).unwrap();
    assert!(matches!(advanced, ZeroTarget::FirstK { count: 200 }));
    assert_eq!(last, 200);
}

#[test]
fn seeded_windows_require_explicit_ordinals() {
    let dataset = "bundled-reference-zeros".to_owned();
    let all: Vec<String> = (1..=100).map(|k| format!("zero-{k}")).collect();
    let (first, seeds) = reference_seed_window(
        &ZeroTarget::IndexRange { first: 1, last: 25 },
        &dataset,
        &all,
    )
    .unwrap();
    assert_eq!(first, 1);
    assert_eq!(seeds.len(), 25);
    assert!(reference_seed_window(
        &ZeroTarget::HeightWindow {
            lower: "0".to_owned(),
            upper: "300".to_owned(),
        },
        &dataset,
        &all,
    )
    .is_err());
}

#[test]
fn seed_windows_cover_only_the_dataset() {
    let dataset = "d".to_owned();
    let all: Vec<String> = (1..=10).map(|k| format!("{k}")).collect();
    let (first, seeds) =
        reference_seed_window(&ZeroTarget::IndexRange { first: 3, last: 5 }, &dataset, &all)
            .unwrap();
    assert_eq!(first, 3);
    assert_eq!(seeds, ["3", "4", "5"]);
    let (first, seeds) =
        reference_seed_window(&ZeroTarget::FirstK { count: 2 }, &dataset, &all).unwrap();
    assert_eq!(first, 1);
    assert_eq!(seeds, ["1", "2"]);
    assert!(matches!(
        reference_seed_window(&ZeroTarget::FirstK { count: 11 }, &dataset, &all),
        Err(SeedWindowError::NotCovered { first: 1, last: 11, .. })
    ));
    assert!(matches!(
        reference_seed_window(&ZeroTarget::FirstK { count: 0 }, &dataset, &all),
        Err(SeedWindowError::NotCovered { .. })
    ));
    assert!(matches!(
        reference_seed_window(
            &ZeroTarget::SymmetricHeightWindow { height: "50".to_owned() },
            &dataset,
            &all
        ),
        Err(SeedWindowError::HeightWindow)
    ));
}

#[test]
fn ordinal_targets_reject_empty_and_overflowing_windows() {
    assert!(matches!(
        explicit_ordinal_root_target(0, 5, 120, false),
        Err(RootTargetError::NotPositive)
    ));
    assert!(matches!(
        explicit_ordinal_root_target(3, 0, 120, false),
        Err(RootTargetError::NotPositive)
    ));
    assert!(matches!(
        explicit_ordinal_root_target(usize::MAX, 2, 120, true),
        Err(RootTargetError::Overflow)
    ));
    assert!(matches!(
        explicit_ordinal_root_target(101, 25, 120, false),
        Err(RootTargetError::ExceedsReach)
    ));
}

#[test]
fn capture_labels_describe_each_level() {
    assert_eq!(
        research_capture_label(ResearchCapture::Maximum, 8),
        "maximum (requested roots, evenness, GapLog, 8 eigenpairs per sector)"
    );
    assert_eq!(
        research_capture_label(ResearchCapture::Claim, 8),
        "claim (requested roots and native artifacts)"
    );
    assert_eq!(ResearchCapture::Gap.sector_eigenpairs(8), Some(2));
    assert_eq!(ResearchCapture::Research.sector_eigenpairs(8), None);
    assert_eq!(
        validate_research_capture(1, ResearchCapture::Gap, 2),
        Err(ResearchCaptureError::TooFewModes)
    );
}

fn default_run() -> RunRequest {
    RunRequest {
        lambda_sq: 13,
        n_modes: 120,
        top: 20,
        first_root_index: 1,
        precision_digits: 200,
        display_digits: 16,
        f64_only: false,
        no_force_even: false,
        research_capture: ResearchCapture::Claim,
        research_sector_eigenpairs: 8,
        root_acquisition: RootAcquisitionMode::Seeded,
        root_report: RootReport::Reference,
        minimum_match_digits: 10,
        reference_zero_limit: 400,
        include_negative_roots: false,
        allow_root_oversubscription: false,
        root_validation: RootValidation::Off,
        root_enclosure_digits: None,
    }
}

#[test]
fn run_requests_are_planned_or_refused_before_computation() {
    let plan = plan_run(&default_run()).unwrap();
    assert_eq!(plan.root_enclosure_digits, 16);
    assert!(matches!(plan.target, Some((ZeroTarget::FirstK { count: 20 }, 20))));
    assert_eq!(plan.sector_eigenpairs, None);

    let mut request = default_run();
    request.lambda_sq = 1;
    let error = plan_run(&request).unwrap_err();
    assert_eq!(error, RequestError::LambdaTooSmall { lambda_sq: 1 });
    assert_eq!(error.message(), "lambda_sq must be >= 2 (got 1)");

    let mut request = default_run();
    request.f64_only = true;
    assert_eq!(plan_run(&request).unwrap_err(), RequestError::SeededNeedsHp);
    request.root_acquisition = RootAcquisitionMode::Independent;
    let plan = plan_run(&request).unwrap();
    assert!(plan.target.is_none());

    let mut request = default_run();
    request.root_report = RootReport::DiscoveryOrdering;
    assert_eq!(
        plan_run(&request).unwrap_err(),
        RequestError::DiscoveryNeedsIndependent
    );
    request.root_acquisition = RootAcquisitionMode::Independent;
    request.minimum_match_digits = 0;
    assert_eq!(
        plan_run(&request).unwrap_err(),
        RequestError::MinimumMatchDigitsNotPositive
    );

    let mut request = default_run();
    request.include_negative_roots = true;
    request.root_acquisition = RootAcquisitionMode::Independent;
    assert_eq!(
        plan_run(&request).unwrap_err(),
        RequestError::NegativeRootsNeedDiscoveryOrdering
    );

    let mut request = default_run();
    request.root_enclosure_digits = Some(30);
    assert_eq!(
        plan_run(&request).unwrap_err(),
        RequestError::EnclosureDigitsNeedCertification
    );
    request.root_validation = RootValidation::Certified;
    request.root_enclosure_digits = Some(300);
    assert_eq!(
        plan_run(&request).unwrap_err(),
        RequestError::EnclosureDigitsOutOfRange
    );

    let mut request = default_run();
    request.top = 121;
    assert_eq!(plan_run(&request).unwrap_err(), RequestError::TooManyRoots);
    request.top = 20;
    request.first_root_index = 110;
    assert_eq!(
        plan_run(&request).unwrap_err(),
        RequestError::RootTarget {
            error: RootTargetError::ExceedsReach
        }
    );

    let mut request = default_run();
    request.research_capture = ResearchCapture::Maximum;
    request.research_sector_eigenpairs = 500;
    assert_eq!(plan_run(&request).unwrap().sector_eigenpairs, Some(120));
}

#[test]
fn evenness_and_sector_gap_requests_are_checked() {
    let request = EvennessRequest {
        lambda_sq: 13,
        n_modes: 120,
        precision_digits: 1000,
        display_digits: 12,
        research_capture: ResearchCapture::Gap,
        research_sector_eigenpairs: 8,
        root_acquisition: RootAcquisitionMode::Seeded,
    };
    assert_eq!(plan_check_evenness(&request), Ok(Some(2)));
    let mut low = request;
    low.n_modes = 1;
    assert_eq!(
        plan_check_evenness(&low),
        Err(RequestError::ResearchCapture {
            error: ResearchCaptureError::TooFewModes
        })
    );
    let gap = SectorGapRequest {
        lambda_sq: 13,
        n_modes: 120,
        precision_digits: 200,
        eigenpairs: 2,
        display_digits: 16,
    };
    assert_eq!(validate_sector_gap(&gap), Ok(()));
    let mut wide = gap;
    wide.eigenpairs = 121;
    assert_eq!(
        validate_sector_gap(&wide),
        Err(RequestError::EigenpairsOutOfRange)
    );
    assert_eq!(
        RequestError::EigenpairsOutOfRange.message(),
        "eigenpairs must be between 2 and N"
    );
    assert_eq!(supplemental_root_count(50, 120), 50);
    assert_eq!(supplemental_root_count(500, 120), 120);
    assert_eq!(supplemental_root_count(0, 120), 1);
}

#[test]
fn opposite_signs_need_two_nonzero_different_signs() {
    assert!(opposite_signs(Sign::Negative, Sign::Positive));
    assert!(opposite_signs(Sign::Positive, Sign::Negative));
    assert!(!opposite_signs(Sign::Positive, Sign::Positive));
    assert!(!opposite_signs(Sign::Zero, Sign::Positive));
    assert!(!opposite_signs(Sign::Negative, Sign::Zero));
}
