use ccm_reproduction::capture::CapturePolicy;
use ccm_reproduction::cli::{application_version, Cli, CliError, Command, Flag};
use ccm_reproduction::commands::{RootAcquisitionMode, RootReport, RootValidation};
use ccm_reproduction::research::ResearchCapture;

#[test]
fn version_flag_reports_the_package_version() {
    let error = match Cli::try_parse_from(&["ccm-reproduction", "--version"]) {
        Ok(_) => panic!("--version must terminate with a display-version result"),
        Err(error) => error,
    };
    assert!(matches!(error, CliError::DisplayVersion));
    assert!(error.is_display());
    assert!(error.message().contains(&application_version()));
}

#[test]
fn research_capture_flags_parse_for_primary_commands() {
    assert!(Cli::try_parse_from(&[
        "ccm-reproduction",
        "run",
        "--research-capture",
        "maximum",
        "--research-sector-eigenpairs",
        "10",
        "--root-acquisition",
        "independent",
        "--root-validation",
        "certified",
        "--root-enclosure-digits",
        "75",
    ])
    .is_ok());
    assert!(Cli::try_parse_from(&[
        "ccm-reproduction",
        "check-evenness",
        "--research-capture",
        "gap",
        "--research-sector-eigenpairs",
        "10",
        "--root-acquisition",
        "seeded",
    ])
    .is_ok());
}

#[test]
fn paper_root_acquisition_defaults_to_seeded() {
    let cli = Cli::try_parse_from(&["ccm-reproduction", "run"]).unwrap();
    let Command::Run(run) = cli.command else {
        panic!("run command was not parsed");
    };
    assert_eq!(run.root_acquisition, RootAcquisitionMode::Seeded);

    let cli = Cli::try_parse_from(&[
        "ccm-reproduction",
        "run",
        "--root-acquisition",
        "independent",
    ])
    .unwrap();
    let Command::Run(run) = cli.command else {
        panic!("run command was not parsed");
    };
    assert_eq!(run.root_acquisition, RootAcquisitionMode::Independent);
}

#[test]
fn discovery_ordering_flags_parse() {
    let cli = Cli::try_parse_from(&[
        "ccm-reproduction",
        "run",
        "--root-acquisition",
        "independent",
        "--root-report",
        "discovery-ordering",
        "--minimum-match-digits",
        "12",
        "--reference-zero-limit",
        "500",
        "--include-negative-roots",
        "--allow-root-oversubscription",
    ])
    .unwrap();
    let Command::Run(run) = cli.command else {
        panic!("run command was not parsed");
    };
    assert_eq!(run.root_report, RootReport::DiscoveryOrdering);
    assert_eq!(run.minimum_match_digits, 12);
    assert_eq!(run.reference_zero_limit, 500);
    assert!(run.include_negative_roots);
    assert!(run.allow_root_oversubscription);
}

#[test]
fn run_defaults_match_the_published_configuration() {
    let cli = Cli::try_parse_from(&["ccm-reproduction", "run"]).unwrap();
    let Command::Run(run) = cli.command else {
        panic!("run command was not parsed");
    };
    assert_eq!(run.lambda_sq, 13);
    assert_eq!(run.n_modes, 120);
    assert_eq!(run.top, 20);
    assert_eq!(run.first_root_index, 1);
    assert_eq!(run.precision_digits, 200);
    assert_eq!(run.display_digits, 16);
    assert!(!run.f64_only);
    assert!(!run.no_force_even);
    assert_eq!(run.research_capture, ResearchCapture::Claim);
    assert_eq!(run.research_sector_eigenpairs, 8);
    assert_eq!(run.root_report, RootReport::Reference);
    assert_eq!(run.minimum_match_digits, 10);
    assert_eq!(run.reference_zero_limit, 400);
    assert_eq!(run.root_validation, RootValidation::Off);
    assert_eq!(run.root_enclosure_digits, None);
    let journal = cli.capture_journal;
    assert_eq!(journal.capture_policy, CapturePolicy::Full);
    assert_eq!(journal.capture_output, ".xcelerator-cache/claim-runs");
    assert!(journal.capture_prefix_checkpoints.is_empty());
    assert_eq!(journal.capture_working_precision_bits, None);
    assert_eq!(journal.capture_reduction_max_dimension, 8193);
    assert!(!journal.require_complete_capture);
}

#[test]
fn evenness_and_sector_gap_have_their_own_defaults() {
    let cli = Cli::try_parse_from(&["ccm-reproduction", "check-evenness"]).unwrap();
    let Command::CheckEvenness(request) = cli.command else {
        panic!("check-evenness was not parsed");
    };
    assert_eq!(request.precision_digits, 1000);
    assert_eq!(request.display_digits, 12);
    let cli = Cli::try_parse_from(&["ccm-reproduction", "sector-gap", "--eigenpairs", "4"]).unwrap();
    let Command::SectorGap(request) = cli.command else {
        panic!("sector-gap was not parsed");
    };
    assert_eq!(request.eigenpairs, 4);
    assert_eq!(request.precision_digits, 200);
}

#[test]
fn journal_flags_are_global_and_checkpoints_accumulate() {
    let cli = Cli::try_parse_from(&[
        "ccm-reproduction",
        "--capture-policy=claim8-natural",
        "run",
        "--capture-prefix-checkpoints",
        "61,121",
        "--capture-prefix-checkpoints=7",
        "--capture-working-precision-bits",
        "4000",
        "--require-complete-capture",
        "--capture-output",
        "out/dir",
    ])
    .unwrap();
    let journal = cli.capture_journal;
    assert_eq!(journal.capture_policy, CapturePolicy::Claim8Natural);
    assert_eq!(journal.capture_prefix_checkpoints, vec![61, 121, 7]);
    assert_eq!(journal.capture_working_precision_bits, Some(4000));
    assert!(journal.require_complete_capture);
    assert_eq!(journal.capture_output, "out/dir");
}

#[test]
fn command_line_errors_are_reported() {
    assert!(matches!(
        Cli::try_parse_from(&["ccm-reproduction"]),
        Err(CliError::MissingSubcommand)
    ));
    assert!(matches!(
        Cli::try_parse_from(&["ccm-reproduction", "run", "--help"]),
        Err(CliError::DisplayHelp)
    ));
    assert!(matches!(
        Cli::try_parse_from(&["ccm-reproduction", "walk"]),
        Err(CliError::UnrecognizedSubcommand { .. })
    ));
    assert!(matches!(
        Cli::try_parse_from(&["ccm-reproduction", "sector-gap", "--top", "3"]),
        Err(CliError::UnexpectedArgument { .. })
    ));
    assert!(matches!(
        Cli::try_parse_from(&["ccm-reproduction", "run", "--top"]),
        Err(CliError::MissingValue { flag: Flag::Top })
    ));
    assert!(matches!(
        Cli::try_parse_from(&["ccm-reproduction", "run", "--f64-only=yes"]),
        Err(CliError::UnexpectedValue { flag: Flag::F64Only })
    ));
    assert!(matches!(
        Cli::try_parse_from(&["ccm-reproduction", "run", "--top", "x3"]),
        Err(CliError::InvalidValue { flag: Flag::Top, .. })
    ));
    assert!(matches!(
        Cli::try_parse_from(&["ccm-reproduction", "run", "--precision-digits", "4294967296"]),
        Err(CliError::InvalidValue { flag: Flag::PrecisionDigits, .. })
    ));
    assert!(matches!(
        Cli::try_parse_from(&["ccm-reproduction", "run", "--top", "3", "--top", "4"]),
        Err(CliError::ArgumentRepeated { flag: Flag::Top })
    ));
    assert!(matches!(
        Cli::try_parse_from(&["ccm-reproduction", "run", "extra"]),
        Err(CliError::UnexpectedArgument { .. })
    ));
    let error = Cli::try_parse_from(&["ccm-reproduction", "run", "--top", "x3"]).unwrap_err();
    assert_eq!(error.message(), "invalid value 'x3' for '--top'");
}
