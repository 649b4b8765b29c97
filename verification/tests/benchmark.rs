use ccm_reproduction::benchmark::{
    compare_with_baseline, saturating_nanoseconds, toolkit_revision, toolkit_version,
    unix_milliseconds, validate_comparable, BenchmarkComparisonMode, BenchmarkDelta,
    BenchmarkError, BenchmarkOptions, BenchmarkRecorder, BenchmarkReport, BenchmarkStatus,
    BenchmarkTiming, RuntimeEnvironment, BENCHMARK_SCHEMA_VERSION,
};

const SECOND: u128 = 1_000_000_000;

fn fixture_report(workload: &str, duration_nanoseconds: u128) -> BenchmarkReport {
    BenchmarkReport {
        schema_version: BENCHMARK_SCHEMA_VERSION,
        label: Some("before".to_owned()),
        status: BenchmarkStatus::Succeeded,
        started_unix_milliseconds: 1,
        completed_unix_milliseconds: 2,
        application_version: "2.5.0".to_owned(),
        toolkit_version: toolkit_version(),
        toolkit_revision: toolkit_revision(),
        optimized_build: false,
        cache_mode: "reuse".to_owned(),
        rayon_workers: 4,
        available_cpus: 4,
        rayon_num_threads_environment: None,
        parallel_gl_roots: false,
        comparison_mode: BenchmarkComparisonMode::SamePolicy,
        workload_signature: workload.to_owned(),
        timings: vec![(
            "toolkit_primary".to_owned(),
            BenchmarkTiming::from_duration(duration_nanoseconds),
        )],
        comparison: None,
    }
}

fn environment() -> RuntimeEnvironment {
    RuntimeEnvironment {
        application_version: "2.5.0".to_owned(),
        optimized_build: false,
        cache_mode_environment: None,
        rayon_workers: 4,
        available_parallelism: Some(4),
        rayon_num_threads_environment: None,
    }
}

#[test]
fn delta_sign_and_speedup_identify_an_improvement() {
    let before = BenchmarkTiming::from_duration(10 * SECOND);
    let after = BenchmarkTiming::from_duration(8 * SECOND);
    let delta = BenchmarkDelta::between(&before, &after);
    assert_eq!(delta.delta_nanoseconds, -2_000_000_000);
    let percent_change = delta
        .percent_change_ratio()
        .map(|(change, base)| change as f64 * 100.0 / base as f64);
    assert_eq!(percent_change, Some(-20.0));
    let speedup = delta
        .speedup_ratio()
        .map(|(before, after)| before as f64 / after as f64);
    assert_eq!(speedup, Some(1.25));
}

#[test]
fn comparison_rejects_different_workloads() {
    let baseline = fixture_report("run N=120", 10 * SECOND);
    let candidate = fixture_report("run N=121", 8 * SECOND);
    let error = validate_comparable(&baseline, &candidate, BenchmarkComparisonMode::SamePolicy)
        .unwrap_err();
    assert!(error.message().contains("workload"));
}

#[test]
fn comparison_rejects_different_gl_root_scheduling_policies() {
    let baseline = fixture_report("run N=120", 10 * SECOND);
    let mut candidate = fixture_report("run N=120", 8 * SECOND);
    candidate.parallel_gl_roots = true;
    let error = validate_comparable(&baseline, &candidate, BenchmarkComparisonMode::SamePolicy)
        .unwrap_err();
    assert!(error.message().contains("GL root scheduling policy"));
}

#[test]
fn policy_delta_comparison_requires_and_records_the_intended_difference() {
    let baseline = fixture_report("run N=120", 10 * SECOND);
    let mut candidate = fixture_report("run N=120", 8 * SECOND);
    let error = validate_comparable(
        &baseline,
        &candidate,
        BenchmarkComparisonMode::GlRootPolicyDelta,
    )
    .unwrap_err();
    assert!(error.message().contains("requires baseline and candidate"));

    candidate.parallel_gl_roots = true;
    validate_comparable(
        &baseline,
        &candidate,
        BenchmarkComparisonMode::GlRootPolicyDelta,
    )
    .unwrap();
}

#[test]
fn policy_delta_finish_stamps_the_comparison_contract_and_both_policies() {
    let baseline = fixture_report("run N=120", 10 * SECOND);
    let mut recorder = BenchmarkRecorder::new(
        BenchmarkOptions {
            report_path: Some("candidate.json".to_owned()),
            baseline_path: Some("baseline.json".to_owned()),
            label: Some("parallel".to_owned()),
            parallel_gl_roots: true,
            comparison_mode: BenchmarkComparisonMode::GlRootPolicyDelta,
        },
        "run N=120".to_owned(),
        false,
        100,
    )
    .unwrap();
    recorder.record_duration("toolkit_primary", 8 * SECOND);
    let finished = recorder
        .finish(true, 200, environment())
        .unwrap()
        .expect("a report path was configured");
    assert_eq!(finished.baseline_path.as_deref(), Some("baseline.json"));
    let candidate =
        compare_with_baseline(finished.report, &baseline, "baseline.json".to_owned()).unwrap();
    assert_eq!(
        candidate.comparison_mode,
        BenchmarkComparisonMode::GlRootPolicyDelta
    );
    let comparison = candidate.comparison.unwrap();
    assert_eq!(
        comparison.comparison_mode,
        BenchmarkComparisonMode::GlRootPolicyDelta
    );
    assert!(!comparison.baseline_parallel_gl_roots);
    assert!(comparison.candidate_parallel_gl_roots);
    assert_eq!(comparison.timings.len(), 1);
    assert_eq!(comparison.timings[0].0, "toolkit_primary");
    assert_eq!(comparison.timings[0].1.delta_nanoseconds, -2_000_000_000);
}

#[test]
fn report_paths_are_never_overwritten() {
    let error = BenchmarkRecorder::new(
        BenchmarkOptions {
            report_path: Some("report.json".to_owned()),
            baseline_path: None,
            label: None,
            parallel_gl_roots: false,
            comparison_mode: BenchmarkComparisonMode::SamePolicy,
        },
        "run N=120".to_owned(),
        true,
        0,
    )
    .err()
    .expect("an existing report must be rejected");
    assert!(error.message().contains("refusing to overwrite"));
    assert!(error.message().contains("report.json"));
}

#[test]
fn recorded_stages_accumulate_and_disabled_recorders_record_nothing() {
    let options = BenchmarkOptions {
        report_path: Some("r.json".to_owned()),
        baseline_path: None,
        label: None,
        parallel_gl_roots: false,
        comparison_mode: BenchmarkComparisonMode::SamePolicy,
    };
    let mut recorder = BenchmarkRecorder::new(options.clone(), "w".to_owned(), false, 0).unwrap();
    assert!(recorder.enabled());
    recorder.record_duration("a", 5);
    recorder.record_duration("b", 7);
    recorder.record_duration("a", 11);
    assert_eq!(recorder.timings.len(), 2);
    assert_eq!(recorder.timings[0].0, "a");
    assert_eq!(recorder.timings[0].1.duration_nanoseconds, 16);
    assert_eq!(recorder.timings[0].1.invocations, 2);
    assert_eq!(recorder.timings[1].1.duration_nanoseconds, 7);

    let mut disabled = BenchmarkRecorder::new(
        BenchmarkOptions { report_path: None, ..options },
        "w".to_owned(),
        true,
        0,
    )
    .unwrap();
    assert!(!disabled.enabled());
    disabled.record_duration("a", 5);
    assert!(disabled.timings.is_empty());
    assert!(disabled.finish(true, 1, environment()).unwrap().is_none());
}

#[test]
fn timings_saturate_instead_of_overflowing() {
    assert_eq!(saturating_nanoseconds(u128::MAX), u64::MAX);
    assert_eq!(saturating_nanoseconds(42), 42);
    let mut timing = BenchmarkTiming::from_duration(u64::MAX as u128);
    timing.add_duration(1);
    assert_eq!(timing.duration_nanoseconds, u64::MAX);
    assert_eq!(timing.invocations, 2);
    assert_eq!(unix_milliseconds(None), 0);
    assert_eq!(unix_milliseconds(Some(1234)), 1234);
    assert_eq!(unix_milliseconds(Some(u128::MAX)), u64::MAX);
    let far = BenchmarkDelta::between(
        &BenchmarkTiming::from_duration(u64::MAX as u128),
        &BenchmarkTiming::from_duration(0),
    );
    assert_eq!(far.delta_nanoseconds, i64::MIN);
    assert_eq!(far.speedup_ratio(), None);
}

#[test]
fn finish_fills_the_report_and_refuses_a_shared_baseline_path() {
    let recorder = BenchmarkRecorder::new(
        BenchmarkOptions {
            report_path: Some("same.json".to_owned()),
            baseline_path: Some("same.json".to_owned()),
            label: None,
            parallel_gl_roots: false,
            comparison_mode: BenchmarkComparisonMode::SamePolicy,
        },
        "w".to_owned(),
        false,
        0,
    )
    .unwrap();
    assert!(matches!(
        recorder.finish(true, 1, environment()),
        Err(BenchmarkError::SameReportAndBaseline)
    ));

    let recorder = BenchmarkRecorder::new(
        BenchmarkOptions {
            report_path: Some("new.json".to_owned()),
            baseline_path: Some("old.json".to_owned()),
            label: None,
            parallel_gl_roots: false,
            comparison_mode: BenchmarkComparisonMode::SamePolicy,
        },
        "w".to_owned(),
        false,
        3,
    )
    .unwrap();
    let mut env = environment();
    env.available_parallelism = None;
    env.cache_mode_environment = Some("refresh".to_owned());
    let finished = recorder.finish(false, 9, env).unwrap().unwrap();
    assert_eq!(finished.baseline_path, None);
    let report = finished.report;
    assert_eq!(report.status, BenchmarkStatus::Failed);
    assert_eq!(report.available_cpus, 1);
    assert_eq!(report.cache_mode, "refresh");
    assert_eq!(report.toolkit_version, "0.13.5");
    assert_eq!(report.started_unix_milliseconds, 3);
    assert_eq!(report.completed_unix_milliseconds, 9);
}

#[test]
fn every_comparability_rule_has_its_error() {
    let candidate = fixture_report("w", SECOND);
    let mut baseline = fixture_report("w", SECOND);
    baseline.schema_version = 2;
    let error = validate_comparable(&baseline, &candidate, BenchmarkComparisonMode::SamePolicy)
        .unwrap_err();
    assert_eq!(error.message(), "benchmark baseline uses schema 2, expected 1");
    let mut baseline = fixture_report("w", SECOND);
    baseline.status = BenchmarkStatus::Failed;
    assert!(matches!(
        validate_comparable(&baseline, &candidate, BenchmarkComparisonMode::SamePolicy),
        Err(BenchmarkError::BaselineFailed)
    ));
    let mut baseline = fixture_report("w", SECOND);
    baseline.optimized_build = true;
    assert!(matches!(
        validate_comparable(&baseline, &candidate, BenchmarkComparisonMode::SamePolicy),
        Err(BenchmarkError::BuildProfileMismatch)
    ));
    let mut baseline = fixture_report("w", SECOND);
    baseline.cache_mode = "refresh".to_owned();
    assert!(matches!(
        validate_comparable(&baseline, &candidate, BenchmarkComparisonMode::SamePolicy),
        Err(BenchmarkError::CacheModeMismatch)
    ));
    let mut baseline = fixture_report("w", SECOND);
    baseline.rayon_workers = 1;
    assert!(matches!(
        validate_comparable(&baseline, &candidate, BenchmarkComparisonMode::SamePolicy),
        Err(BenchmarkError::RayonWorkersMismatch)
    ));
    let mut baseline = fixture_report("w", SECOND);
    baseline.available_cpus = 1;
    assert!(matches!(
        validate_comparable(&baseline, &candidate, BenchmarkComparisonMode::SamePolicy),
        Err(BenchmarkError::AvailableCpusMismatch)
    ));
    let baseline = fixture_report("w", SECOND);
    assert!(validate_comparable(&baseline, &candidate, BenchmarkComparisonMode::SamePolicy).is_ok());
}

fn finish_with_paths(report: &str, baseline: &str) -> Result<(), BenchmarkError> {
    let recorder = BenchmarkRecorder::new(
        BenchmarkOptions {
            report_path: Some(report.to_owned()),
            baseline_path: Some(baseline.to_owned()),
            label: None,
            parallel_gl_roots: false,
            comparison_mode: BenchmarkComparisonMode::SamePolicy,
        },
        "w".to_owned(),
        false,
        0,
    )
    .unwrap();
    recorder.finish(false, 1, environment()).map(|_| ())
}

#[test]
fn report_and_baseline_paths_are_compared_by_components() {
    for (report, baseline) in [
        ("out//r.json", "out/r.json"),
        ("d/r.json/", "d/r.json"),
        ("out/./r.json", "out/r.json"),
        ("/tmp//x/", "/tmp/x"),
    ] {
        assert!(matches!(
            finish_with_paths(report, baseline),
            Err(BenchmarkError::SameReportAndBaseline)
        ));
    }
    for (report, baseline) in [
        ("./r.json", "r.json"),
        ("/r.json", "r.json"),
        ("out/../r.json", "r.json"),
        ("out/r.json", "out/r2.json"),
    ] {
        assert!(finish_with_paths(report, baseline).is_ok());
    }
}

#[test]
fn recorded_stages_are_kept_in_name_order() {
    let mut recorder = BenchmarkRecorder::new(
        BenchmarkOptions {
            report_path: Some("r.json".to_owned()),
            baseline_path: None,
            label: None,
            parallel_gl_roots: false,
            comparison_mode: BenchmarkComparisonMode::SamePolicy,
        },
        "w".to_owned(),
        false,
        0,
    )
    .unwrap();
    recorder.record_duration("solve", 5);
    recorder.record_duration("build", 7);
    recorder.record_duration("publish", 11);
    recorder.record_duration("build", 1);
    let names: Vec<&str> = recorder.timings.iter().map(|(name, _)| name.as_str()).collect();
    assert_eq!(names, vec!["build", "publish", "solve"]);
    assert_eq!(recorder.timings[0].1.duration_nanoseconds, 8);
    assert_eq!(recorder.timings[0].1.invocations, 2);
    assert_eq!(recorder.timings[2].1.duration_nanoseconds, 5);
}

#[test]
fn benchmark_toolkit_identity_matches_the_locked_dependency() {
    assert_eq!(toolkit_version(), "0.13.5");
    assert_eq!(
        toolkit_revision(),
        "38447273088381611b82268053c3ebfe8e4c7838"
    );
}
