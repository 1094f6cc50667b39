use tpt_ate::bin_sort::{
    sort_die, sort_wafer, tally, DieTestResult, MeasurementOutcome, PatternOutcome, ABORT_SOFT_BIN,
    DEFAULT_FUNCTIONAL_SOFT_BIN, DEFAULT_PARAMETRIC_SOFT_BIN,
};
use tpt_ate::bins::BinTaxonomy;
use tpt_ate::patterns::{PatternGroup, TestProgram, TestSpec};
use tpt_ate::wafer::{DieCoord, WaferDieMap};

fn taxonomy() -> BinTaxonomy {
    BinTaxonomy::defaults()
}

fn program() -> TestProgram {
    TestProgram {
        design_name: "D".into(),
        lot_id: "L".into(),
        part_type: "P".into(),
        sblot_id: "S".into(),
        tests: vec![
            TestSpec {
                test_number: 10,
                name: "IDDQ".into(),
                unit: "uA".into(),
                nominal: 1.0f32.to_bits(),
                lo_limit: Some(0.0f32.to_bits()),
                hi_limit: Some(2.0f32.to_bits()),
                fail_soft_bin: 0, // falls back to the default parametric bin
            },
            TestSpec {
                test_number: 11,
                name: "VDD_MIN".into(),
                unit: "V".into(),
                nominal: 3.3f32.to_bits(),
                lo_limit: Some(3.0f32.to_bits()),
                hi_limit: Some(3.6f32.to_bits()),
                fail_soft_bin: 10,
            },
        ],
        pattern_groups: vec![PatternGroup {
            name: "ATPG_SCAN".into(),
            vector_count: 512,
            test_number: 20,
            fail_soft_bin: 0,
        }],
    }
}

fn measured(test_number: u32, value: f32, passed: bool) -> MeasurementOutcome {
    MeasurementOutcome { test_number, value: value.to_bits(), passed }
}

#[test]
fn passing_die_bins_pass() {
    let result = DieTestResult {
        coord: DieCoord::new(1, 1),
        measurements: vec![measured(10, 3.3, true)],
        patterns: vec![PatternOutcome { name: "ATPG_SCAN".into(), test_number: 20, passed: true }],
        aborted: false,
    };
    let assignment = sort_die(&result, &program(), &taxonomy());
    assert!(assignment.passed);
    assert_eq!((assignment.hard_bin, assignment.soft_bin), (1, 1));
    assert_eq!(assignment.failing_test, None);
}

#[test]
fn failed_measurement_uses_spec_soft_bin() {
    let result = DieTestResult {
        coord: DieCoord::new(0, 0),
        measurements: vec![measured(10, 3.3, true), measured(11, 2.9, false)],
        patterns: vec![],
        aborted: false,
    };
    let assignment = sort_die(&result, &program(), &taxonomy());
    assert!(!assignment.passed);
    assert_eq!(assignment.failing_test, Some(11));
    assert_eq!(assignment.soft_bin, 10, "spec's declared soft bin");
    assert_eq!(assignment.hard_bin, 10);
}

#[test]
fn failed_pattern_falls_back_to_functional_default() {
    let result = DieTestResult {
        coord: DieCoord::new(0, 1),
        measurements: vec![measured(10, 3.3, true)],
        patterns: vec![PatternOutcome { name: "ATPG_SCAN".into(), test_number: 20, passed: false }],
        aborted: false,
    };
    let assignment = sort_die(&result, &program(), &taxonomy());
    assert_eq!(assignment.soft_bin, DEFAULT_FUNCTIONAL_SOFT_BIN);
    assert_eq!(assignment.hard_bin, 11);
}

#[test]
fn earlier_failure_wins_over_later() {
    let result = DieTestResult {
        coord: DieCoord::new(0, 1),
        measurements: vec![measured(10, 9.9, false)],
        patterns: vec![PatternOutcome { name: "ATPG_SCAN".into(), test_number: 20, passed: false }],
        aborted: false,
    };
    assert_eq!(
        sort_die(&result, &program(), &taxonomy()).soft_bin,
        DEFAULT_PARAMETRIC_SOFT_BIN,
        "the measurement failed first, so its class wins"
    );
}

#[test]
fn aborted_die_bins_abort() {
    let result = DieTestResult {
        coord: DieCoord::new(2, 2),
        measurements: vec![],
        patterns: vec![],
        aborted: true,
    };
    let assignment = sort_die(&result, &program(), &taxonomy());
    assert!(!assignment.passed);
    assert_eq!((assignment.hard_bin, assignment.soft_bin), (12, ABORT_SOFT_BIN));
}

#[test]
fn sort_wafer_fills_map_and_tally() {
    let mut wafer = WaferDieMap::rectangular("W1", 2, 2, 100.0f32.to_bits(), 100.0f32.to_bits());
    let results = vec![
        DieTestResult { coord: DieCoord::new(0, 0), measurements: vec![], patterns: vec![], aborted: false },
        DieTestResult {
            coord: DieCoord::new(1, 1),
            measurements: vec![measured(1, 0.0, false)],
            patterns: vec![],
            aborted: false,
        },
    ];
    let unmatched = sort_wafer(&results, &mut wafer, &program(), &taxonomy());
    assert_eq!(unmatched, 0);
    let tally = tally(&results, &program(), &taxonomy());
    assert_eq!(tally.total_tested, 2);
    assert_eq!(tally.total_passed, 1);
    assert_eq!(wafer.tested_counts(), (2, 1));
}

#[test]
fn dies_off_the_map_are_counted_unmatched() {
    let mut wafer = WaferDieMap::rectangular("W1", 1, 1, 1.0f32.to_bits(), 1.0f32.to_bits());
    let results = vec![
        DieTestResult { coord: DieCoord::new(5, 5), measurements: vec![], patterns: vec![], aborted: false },
        DieTestResult { coord: DieCoord::new(0, 0), measurements: vec![], patterns: vec![], aborted: true },
    ];
    assert_eq!(sort_wafer(&results, &mut wafer, &program(), &taxonomy()), 1);
    assert_eq!(wafer.tested_counts(), (1, 0));
    let t = tally(&results, &program(), &taxonomy());
    assert_eq!(t.total_tested, 2);
    assert_eq!(t.aborted, 1);
    assert_eq!(t.hard_bins.get(&12), Some(&1));
}

#[test]
fn wafer_map_and_tally_agree_bin_by_bin() {
    let mut wafer = WaferDieMap::rectangular("W9", 2, 2, 1.0f32.to_bits(), 1.0f32.to_bits());
    let results = vec![
        DieTestResult { coord: DieCoord::new(0, 0), measurements: vec![], patterns: vec![], aborted: false },
        DieTestResult { coord: DieCoord::new(0, 1), measurements: vec![measured(11, 2.9, false)], patterns: vec![], aborted: false },
        DieTestResult { coord: DieCoord::new(1, 0), measurements: vec![], patterns: vec![], aborted: true },
        DieTestResult {
            coord: DieCoord::new(1, 1),
            measurements: vec![],
            patterns: vec![PatternOutcome { name: "ATPG_SCAN".into(), test_number: 20, passed: false }],
            aborted: false,
        },
    ];
    assert_eq!(sort_wafer(&results, &mut wafer, &program(), &taxonomy()), 0);
    let t = tally(&results, &program(), &taxonomy());
    assert_eq!(wafer.tested_counts(), (t.total_tested, t.total_passed));
    assert_eq!(wafer.hard_bin_counts(), t.hard_bins);
    assert_eq!(wafer.soft_bin_counts(), t.soft_bins);
    assert_eq!(t.hard_bins.get(&12), Some(&1));
}
