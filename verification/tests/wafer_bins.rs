use tpt_ate::bins::{BinTally, BinTaxonomy};
use tpt_ate::wafer::{DieCoord, DieState, DieTestOutcome, WaferDieMap};

#[test]
fn rectangular_layout_and_counts() {
    let mut wafer = WaferDieMap::rectangular("W1", 4, 4, 100.0f32.to_bits(), 200.0f32.to_bits());
    assert_eq!(wafer.dies.len(), 16);
    assert_eq!(wafer.center, DieCoord::new(2, 2));
    assert!(wafer.record(DieCoord::new(0, 0), DieTestOutcome { passed: true, hard_bin: 1, soft_bin: 1 }));
    assert!(wafer.record(
        DieCoord::new(3, 2),
        DieTestOutcome { passed: false, hard_bin: 11, soft_bin: 12 }
    ));
    assert!(!wafer.record(
        DieCoord::new(9, 9),
        DieTestOutcome { passed: true, hard_bin: 1, soft_bin: 1 }
    ));
    let (tested, passed) = wafer.tested_counts();
    assert_eq!((tested, passed), (2, 1));
    assert_eq!(wafer.hard_bin_counts().get(&11), Some(&1));
    assert_eq!(wafer.soft_bin_counts().get(&12), Some(&1));
}

#[test]
fn coord_display_and_ordering() {
    let mut coords = vec![DieCoord::new(1, 0), DieCoord::new(0, 1), DieCoord::new(0, 0)];
    coords.sort();
    // Derived Ord is x-major, then y.
    assert_eq!(coords, vec![DieCoord::new(0, 0), DieCoord::new(0, 1), DieCoord::new(1, 0)]);
    assert_eq!(DieCoord::new(3, -1).to_string(), "(3,-1)");
}

#[test]
fn recording_twice_keeps_the_latest_outcome() {
    let mut wafer = WaferDieMap::rectangular("W2", 2, 2, 1.0f32.to_bits(), 1.0f32.to_bits());
    assert!(wafer.record(DieCoord::new(1, 1), DieTestOutcome { passed: false, hard_bin: 10, soft_bin: 10 }));
    assert!(wafer.record(DieCoord::new(1, 1), DieTestOutcome { passed: true, hard_bin: 1, soft_bin: 1 }));
    assert_eq!(
        wafer.dies.get(&(1, 1)),
        Some(&DieState::Tested(DieTestOutcome { passed: true, hard_bin: 1, soft_bin: 1 }))
    );
    assert_eq!(wafer.tested_counts(), (1, 1));
    assert_eq!(wafer.hard_bin_counts().get(&10), None);
}

#[test]
fn untested_wafer_counts_nothing() {
    let wafer = WaferDieMap::rectangular("W3", 3, 1, 1.0f32.to_bits(), 1.0f32.to_bits());
    assert_eq!(wafer.tested_counts(), (0, 0));
    assert!(wafer.hard_bin_counts().is_empty());
    assert_eq!(wafer.center, DieCoord::new(1, 0));
}

#[test]
fn default_taxonomy_rolls_up() {
    let taxonomy = BinTaxonomy::defaults();
    assert_eq!(taxonomy.hard_bin_of(1), 1);
    assert_eq!(taxonomy.hard_bin_of(10), 10);
    assert_eq!(taxonomy.hard_bin_of(99), 12, "unknown soft bins abort-bin");
    assert!(taxonomy.is_pass_hard_bin(1));
    assert!(!taxonomy.is_pass_hard_bin(11));
    assert!(!taxonomy.is_pass_hard_bin(77), "unknown hard bins are not pass bins");
}

#[test]
fn tally_counts_and_yield() {
    let mut tally = BinTally::default();
    tally.record(true, 1, 1);
    tally.record(true, 1, 1);
    tally.record(false, 11, 12);
    assert_eq!(tally.total_tested, 3);
    assert_eq!(tally.total_passed, 2);
    assert_eq!(tally.hard_bins.get(&1), Some(&2));
    assert_eq!(tally.soft_bins.get(&12), Some(&1));
}

#[test]
fn default_taxonomy_equals_defaults() {
    assert_eq!(BinTaxonomy::default(), BinTaxonomy::defaults());
    assert_eq!(BinTaxonomy::defaults().hard_bin_of(12), 12);
    assert_eq!(BinTally::new(), BinTally::default());
}

#[test]
fn failing_die_counts_with_pass_total_at_limit() {
    let mut tally = BinTally::new();
    tally.total_passed = u32::MAX;
    tally.total_tested = 7;
    tally.record(false, 10, 10);
    assert_eq!(tally.total_passed, u32::MAX);
    assert_eq!(tally.total_tested, 8);
    assert_eq!(tally.hard_bins.get(&10), Some(&1));
    assert_eq!(tally.soft_bins.get(&10), Some(&1));
}
