use tpt_ate::aggregate::file::{AggregateError, JsonOutcomeFile};
use tpt_ate::aggregate::outcome::{BinCount, BinDistribution, TestOutcome};
use tpt_ate::aggregate::schema::{
    ConsentScope, ManufacturingTrack, OutcomeReport, SchemaVersion, YieldSummary,
};
use tpt_ate::bin_sort::{sort_die, tally, DieTestResult, MeasurementOutcome};
use tpt_ate::bins::{BinTally, BinTaxonomy};
use tpt_ate::patterns::{PatternGroup, TestProgram};
use tpt_ate::wafer::DieCoord;

#[test]
fn schema_version_gate() {
    let current = SchemaVersion::current();
    assert!(SchemaVersion { major: 0, minor: 0 }.is_readable_by(&current));
    assert!(SchemaVersion { major: 0, minor: 1 }.is_readable_by(&current));
    assert!(!SchemaVersion { major: 0, minor: 2 }.is_readable_by(&current));
    assert!(!SchemaVersion { major: 1, minor: 0 }.is_readable_by(&current));
}

#[test]
fn schema_version_text() {
    assert_eq!(SchemaVersion::current().to_string(), "0.1");
    assert_eq!(SchemaVersion { major: 12, minor: 305 }.to_string(), "12.305");
}

fn program() -> TestProgram {
    TestProgram {
        design_name: "d".into(),
        lot_id: "l".into(),
        part_type: "p".into(),
        sblot_id: "w".into(),
        tests: vec![],
        pattern_groups: vec![PatternGroup { name: "g".into(), vector_count: 1, test_number: 1, fail_soft_bin: 0 }],
    }
}

#[test]
fn cohort_redaction_withholds_small_buckets() {
    let taxonomy = BinTaxonomy::defaults();
    let program = program();
    // 3 passing dies and 1 failing die → pass bucket below N=5.
    let results: Vec<DieTestResult> = (0..3)
        .map(|i| DieTestResult {
            coord: DieCoord::new(i, 0),
            measurements: vec![MeasurementOutcome { test_number: 1, value: 1.0f32.to_bits(), passed: true }],
            patterns: vec![],
            aborted: false,
        })
        .chain(std::iter::once(DieTestResult {
            coord: DieCoord::new(9, 9),
            measurements: vec![MeasurementOutcome { test_number: 1, value: 9.0f32.to_bits(), passed: false }],
            patterns: vec![],
            aborted: false,
        }))
        .collect();
    let tally = tally(&results, &program, &taxonomy);
    let mut distribution = BinDistribution::from_tally(&tally);
    distribution.redact_below_cohort(5);
    assert_eq!(BinDistribution::publishable_count(&distribution.hard_bins[&1], 5), 5);
    assert_eq!(BinDistribution::publishable_count(&distribution.hard_bins[&10], 5), 5);
    assert!(distribution.hard_bins[&1].withheld);
    assert!(distribution.soft_bins[&10].withheld);

    // With N=1 nothing is withheld.
    let mut full = BinDistribution::from_tally(&tally);
    full.redact_below_cohort(1);
    assert!(!full.hard_bins.values().any(|b| b.withheld));
}

#[test]
fn sort_die_matches_tally_through_distribution() {
    let taxonomy = BinTaxonomy::defaults();
    let program = program();
    let result = DieTestResult { coord: DieCoord::new(0, 0), measurements: vec![], patterns: vec![], aborted: false };
    let assignment = sort_die(&result, &program, &taxonomy);
    assert!(assignment.passed);
    let mut tally = BinTally::default();
    tally.record(assignment.passed, assignment.hard_bin, assignment.soft_bin);
    let distribution = BinDistribution::from_tally(&tally);
    assert_eq!(distribution.total_passed, 1);
    assert_eq!(distribution.total_tested, 1);
}

#[test]
fn from_tally_copies_counts_unwithheld() {
    let mut tally = BinTally::new();
    tally.record(true, 1, 1);
    tally.record(false, 11, 11);
    tally.record(false, 11, 11);
    let d = BinDistribution::from_tally(&tally);
    assert_eq!((d.total_tested, d.total_passed), (3, 1));
    assert_eq!(d.hard_bins.get(&11), Some(&BinCount { count: 2, withheld: false }));
    assert_eq!(d.soft_bins.get(&1), Some(&BinCount { count: 1, withheld: false }));
    assert_eq!(d.hard_bins.len(), 2);
}

#[test]
fn redaction_keeps_counts_and_is_idempotent() {
    let mut tally = BinTally::new();
    for _ in 0..6 {
        tally.record(true, 1, 1);
    }
    tally.record(false, 12, 12);
    let mut d = BinDistribution::from_tally(&tally);
    d.redact_below_cohort(5);
    assert_eq!(d.hard_bins[&1], BinCount { count: 6, withheld: false });
    assert_eq!(d.hard_bins[&12], BinCount { count: 1, withheld: true });
    assert_eq!(BinDistribution::publishable_count(&d.hard_bins[&1], 5), 6);
    let once = d.clone();
    d.redact_below_cohort(5);
    assert_eq!(d, once);
    // A withheld bucket stays withheld at a smaller cohort.
    d.redact_below_cohort(1);
    assert!(d.hard_bins[&12].withheld);
}

fn sample_report(consent: ConsentScope) -> OutcomeReport {
    OutcomeReport {
        payload_manifest_id: 0x0123_4567_89ab_cdef_0123_4567_89ab_cdef,
        track: ManufacturingTrack::TestAssembly(TestOutcome::empty()),
        measured_geometry: vec![],
        electrical_test: vec![],
        yield_outcome: YieldSummary { total_units: 1, good_units: 1, yield_fraction: 1.0f64.to_bits() },
        process_notes: vec![],
        consent,
        schema_version: SchemaVersion::current(),
        signature: None,
    }
}

#[test]
fn no_sharing_consent_blocks_export() {
    let exchange = JsonOutcomeFile::new();
    let err = exchange.check_shareable(&sample_report(ConsentScope::NoSharing)).unwrap_err();
    assert!(matches!(err, AggregateError::ConsentForbidsSharing(ConsentScope::NoSharing)));
    assert!(exchange.check_shareable(&sample_report(ConsentScope::PrivateBilateral)).is_ok());
    assert!(exchange.check_shareable(&sample_report(ConsentScope::AggregatedContribution)).is_ok());
}

#[test]
fn future_schema_rejected() {
    let mut report = sample_report(ConsentScope::AggregatedContribution);
    report.schema_version = SchemaVersion { major: 9, minor: 9 };
    let exchange = JsonOutcomeFile::new();
    let err = exchange.check_readable(report).unwrap_err();
    assert!(matches!(
        err,
        AggregateError::UnsupportedSchemaVersion { ref found, ref supported } if found == "9.9" && supported == "0.1"
    ));
}

#[test]
fn readable_report_passes_the_gate_unchanged() {
    let report = sample_report(ConsentScope::PrivateBilateral);
    let back = JsonOutcomeFile::default().check_readable(report.clone()).unwrap();
    assert_eq!(back, report);
    assert!(matches!(back.track, ManufacturingTrack::TestAssembly(_)));
}

#[test]
fn empty_outcome_is_a_one_die_wafer_with_no_bins() {
    let o = TestOutcome::empty();
    assert_eq!(o.wafer_map.wafer_id, "EMPTY");
    assert_eq!(o.wafer_map.dies.len(), 1);
    assert_eq!(f32::from_bits(o.wafer_map.die_width_mils), 1.0);
    assert!(o.bin_summary.hard_bins.is_empty());
    assert_eq!(o.bin_summary.total_tested, 0);
    assert!(o.package_test.is_empty());
}
