use ccm_reproduction::capture::{
    capture_status, diagnostic_precheck, distance_capture_override, evenness_directory_name,
    exclusions, explicit_diagnostics, journal_directory_name, plan_vector_count,
    prefix_checkpoints, reduction_within_budget, requested_diagnostics, retained_reduction_request,
    CaptureError, CaptureJournalArgs, CaptureOutcome, CapturePolicy, DiagnosticPrecheck,
    ExplicitRequests, ParityPolicy, PrimaryConfiguration,
};
use ccm_reproduction::cli::Cli;
use ccm_reproduction::research::ResearchCapture;

/// Working bits of the toolkit's configuration for a number of decimal digits.
fn bits_for_decimal_digits(digits: u32) -> u32 {
    match digits {
        1000 => 3386,
        2000 => 6708,
        _ => panic!("no fixture for {digits} digits"),
    }
}

fn run(lambda_sq: u64, n_modes: usize, digits: u32, parity: ParityPolicy) -> PrimaryConfiguration {
    PrimaryConfiguration {
        lambda_sq,
        n_modes,
        precision_bits: bits_for_decimal_digits(digits),
        parity,
    }
}

/// The diagnostics of the toolkit's Ultra plan for a sector of dimension `k`.
fn ultra_plan(k: usize) -> Vec<String> {
    let mut ids = vec![
        "deviation_decomposition".to_owned(),
        "distance_profile".to_owned(),
        "distance_resolution".to_owned(),
        "evenness".to_owned(),
        format!("prefix_checkpoint_{k}"),
        "prefix_ladder".to_owned(),
        "prime_power_response".to_owned(),
        "root_conditioning".to_owned(),
        "sector_analysis".to_owned(),
        "target_distance".to_owned(),
        "target_residual_analysis".to_owned(),
        "u_flow_response".to_owned(),
    ];
    ids.sort();
    ids
}

fn args() -> CaptureJournalArgs {
    Cli::try_parse_from(&["ccm-reproduction", "run", "--capture-policy", "claim1c-hp1000"])
        .unwrap()
        .capture_journal
}

#[test]
fn claim1c_policy_is_confined_to_the_frozen_configuration() {
    let mut args = args();
    for (c, n, digits) in [(13, 120, 1000), (1000, 890, 1000), (1000, 800, 2000)] {
        assert!(exclusions(
            args.capture_policy,
            ResearchCapture::Ultra,
            run(c, n, digits, ParityPolicy::EvenSector),
            &args
        )
        .is_err());
    }
    let params = run(1000, 800, 1000, ParityPolicy::EvenSector);
    assert!(exclusions(args.capture_policy, ResearchCapture::Maximum, params, &args).is_err());
    let natural = run(1000, 800, 1000, ParityPolicy::Natural);
    assert!(exclusions(args.capture_policy, ResearchCapture::Ultra, natural, &args).is_err());
    args.capture_prefix_checkpoints.push(593);
    assert!(exclusions(args.capture_policy, ResearchCapture::Ultra, params, &args).is_err());
}

#[test]
fn excluded_diagnostics_are_not_executed_or_reported_as_successful() {
    let args = args();
    let plan = ultra_plan(801);
    let excluded = exclusions(
        args.capture_policy,
        ResearchCapture::Ultra,
        run(1000, 800, 1000, ParityPolicy::EvenSector),
        &args,
    )
    .unwrap();
    let requested = requested_diagnostics(&plan, true, &excluded).unwrap();
    assert_eq!(
        requested,
        [
            "distance_profile",
            "evenness",
            "retained_reduction",
            "root_conditioning",
            "sector_analysis"
        ]
    );
    assert_eq!(excluded.len(), 8);
    for (id, _) in &excluded {
        assert!(!requested.contains(id));
    }
}

#[test]
fn full_ultra_keeps_every_request_and_its_existing_recipe() {
    let args = args();
    let excluded = exclusions(
        CapturePolicy::Full,
        ResearchCapture::Ultra,
        run(1000, 800, 1000, ParityPolicy::EvenSector),
        &args,
    )
    .unwrap();
    assert!(excluded.is_empty());
    assert_eq!(
        requested_diagnostics(&ultra_plan(801), true, &excluded)
            .unwrap()
            .len(),
        13
    );
}

#[test]
fn claim8_policy_keeps_innovations_and_rejects_unrelated_runs() {
    let mut args = args();
    args.capture_policy = CapturePolicy::Claim8Natural;
    for (c, n) in [(13, 120), (100, 500)] {
        let excluded = exclusions(
            args.capture_policy,
            ResearchCapture::Ultra,
            run(c, n, 1000, ParityPolicy::Natural),
            &args,
        )
        .unwrap();
        let requested = requested_diagnostics(&ultra_plan(n + 1), true, &excluded).unwrap();
        assert_eq!(excluded.len(), 3);
        assert!(excluded
            .iter()
            .any(|(id, _)| *id == format!("prefix_checkpoint_{}", n + 1)));
        assert_eq!(requested.len(), 10);
        assert!(requested.contains(&"prefix_ladder".into()));
        assert!(requested.contains(&"retained_reduction".into()));
    }
    for (c, n, digits, level, natural, checkpoint, bits) in [
        (13, 121, 1000, ResearchCapture::Ultra, true, false, false),
        (100, 120, 1000, ResearchCapture::Ultra, true, false, false),
        (13, 120, 2000, ResearchCapture::Ultra, true, false, false),
        (13, 120, 1000, ResearchCapture::Maximum, true, false, false),
        (13, 120, 1000, ResearchCapture::Ultra, false, false, false),
        (13, 120, 1000, ResearchCapture::Ultra, true, true, false),
        (13, 120, 1000, ResearchCapture::Ultra, true, false, true),
    ] {
        let parity = if natural {
            ParityPolicy::Natural
        } else {
            ParityPolicy::EvenSector
        };
        args.capture_prefix_checkpoints = if checkpoint { vec![100] } else { vec![] };
        args.capture_working_precision_bits = if bits { Some(4000) } else { None };
        assert!(exclusions(args.capture_policy, level, run(c, n, digits, parity), &args).is_err());
    }
}

#[test]
fn policy_errors_name_the_rule_and_unknown_exclusions_are_refused() {
    let mut args = args();
    let error = exclusions(
        args.capture_policy,
        ResearchCapture::Ultra,
        run(13, 120, 1000, ParityPolicy::EvenSector),
        &args,
    )
    .unwrap_err();
    assert!(matches!(error, CaptureError::Claim1cConfiguration));
    assert!(error.message().contains("lambda-squared=1000, N=800"));
    args.capture_working_precision_bits = Some(4000);
    assert!(matches!(
        exclusions(
            args.capture_policy,
            ResearchCapture::Ultra,
            run(1000, 800, 1000, ParityPolicy::EvenSector),
            &args
        ),
        Err(CaptureError::Claim1cOverrides)
    ));
    let excluded = vec![("nonexistent".to_owned(), "reason".to_owned())];
    assert!(matches!(
        requested_diagnostics(&ultra_plan(801), true, &excluded),
        Err(CaptureError::UnknownExclusion)
    ));
    let excluded = vec![("retained_reduction".to_owned(), "reason".to_owned())];
    assert!(requested_diagnostics(&ultra_plan(801), false, &excluded).is_err());
    assert_eq!(
        requested_diagnostics(&ultra_plan(801), true, &excluded).unwrap().len(),
        12
    );
}

#[test]
fn requested_diagnostics_are_sorted_even_from_unsorted_plans() {
    let plan = vec!["zeta".to_owned(), "alpha".to_owned(), "mid".to_owned()];
    let requested = requested_diagnostics(&plan, true, &vec![]).unwrap();
    assert_eq!(requested, ["alpha", "mid", "retained_reduction", "zeta"]);
}

#[test]
fn recipe_details_follow_the_journal_options() {
    assert_eq!(prefix_checkpoints(&vec![], 121), None);
    assert_eq!(
        prefix_checkpoints(&vec![121, 61, 61], 121),
        Some(vec![61, 121])
    );
    assert_eq!(prefix_checkpoints(&vec![500], 121), Some(vec![121, 500]));
    assert_eq!(plan_vector_count(8, 801), 8);
    assert_eq!(plan_vector_count(900, 801), 800);
    assert_eq!(plan_vector_count(8, 0), 0);
    let mut journal = args();
    assert!(retained_reduction_request(ResearchCapture::Maximum, &journal, 3386).is_none());
    let request = retained_reduction_request(ResearchCapture::Ultra, &journal, 3386).unwrap();
    assert_eq!(request.working_precision_bits, 3386);
    assert_eq!(request.maximum_dimension, 8193);
    assert_eq!(request.relative_tolerance, "1e-1001");
    assert!(reduction_within_budget(801, 3386, &request));
    assert!(!reduction_within_budget(9000, 3386, &request));
    assert!(!reduction_within_budget(801, 4000, &request));
    journal.capture_working_precision_bits = Some(4000);
    let request = retained_reduction_request(ResearchCapture::Ultra, &journal, 53).unwrap();
    assert_eq!(request.working_precision_bits, 4000);
    assert_eq!(request.relative_tolerance, "1e-1");
    assert_eq!(distance_capture_override(None, None, 4000, 1000), None);
    assert_eq!(
        distance_capture_override(Some(8000), None, 4000, 1000),
        Some((8000, 1000))
    );
    assert_eq!(
        distance_capture_override(None, Some(250), 4000, 1000),
        Some((4000, 250))
    );
}

#[test]
fn explicit_requests_skip_present_and_excluded_diagnostics() {
    let requests = ExplicitRequests {
        prime_power_response: true,
        u_flow_response: true,
        root_certificate: true,
        sector_gap_certificate: false,
        distance_capture: true,
        distance_resolution: false,
        target_residual_analysis: true,
        deviation_decomposition: true,
    };
    let present = vec!["distance_profile".to_owned(), "target_distance".to_owned()];
    let excluded = vec![("u_flow_response".to_owned(), "r".to_owned())];
    assert_eq!(
        explicit_diagnostics(requests, &present, &excluded),
        [
            "prime_power_response",
            "root_certificate",
            "target_residual_analysis",
            "deviation_decomposition"
        ]
    );
}

#[test]
fn journal_names_and_statuses() {
    assert_eq!(
        journal_directory_name(13, 120, 3386, 1234567890123456789, 42),
        "c13-n120-p3386-1234567890123456789-42"
    );
    assert_eq!(evenness_directory_name(7, 9), "evenness-7-9");
    assert_eq!(
        diagnostic_precheck(&"u_flow_response".to_owned(), ParityPolicy::Natural, true),
        DiagnosticPrecheck::Blocked
    );
    assert_eq!(
        diagnostic_precheck(&"u_flow_response".to_owned(), ParityPolicy::EvenSector, false),
        DiagnosticPrecheck::Attempt
    );
    assert_eq!(
        diagnostic_precheck(&"target_distance".to_owned(), ParityPolicy::EvenSector, false),
        DiagnosticPrecheck::Missing
    );
    assert_eq!(
        diagnostic_precheck(&"evenness".to_owned(), ParityPolicy::Natural, false),
        DiagnosticPrecheck::Attempt
    );
    assert_eq!(CaptureOutcome::Blocked.label(), "blocked");
    assert_eq!(CapturePolicy::Claim8Natural.name(), "claim8-natural");
    let directory = "runs/c13".to_owned();
    assert_eq!(capture_status(true, true, &directory).unwrap(), "capture_complete");
    assert_eq!(capture_status(false, false, &directory).unwrap(), "capture_incomplete");
    let error = capture_status(false, true, &directory).unwrap_err();
    assert_eq!(
        error.message(),
        "capture incomplete; primary and receipts preserved in runs/c13"
    );
}
