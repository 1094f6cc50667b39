use tpt_ate::bin_sort::{sort_wafer, tally as make_tally, DieTestResult, MeasurementOutcome, PatternOutcome};
use tpt_ate::bins::BinTaxonomy;
use tpt_ate::patterns::{PatternGroup, TestProgram, TestSpec};
use tpt_ate::recording::{build_wafer_run_records, decode_wafer_map_gdr, stdf_time, RunMetadata};
use tpt_ate::stdf::records::{Gdr, Record};
use tpt_ate::wafer::{DieCoord, DieState, DieTestOutcome, WaferDieMap};

fn program() -> TestProgram {
    TestProgram {
        design_name: "chiplet-a1".into(),
        lot_id: "LOT-1".into(),
        part_type: "CHIPLET-A1".into(),
        sblot_id: "W01".into(),
        tests: vec![TestSpec {
            test_number: 10,
            name: "IDDQ".into(),
            unit: "uA".into(),
            nominal: 1.0f32.to_bits(),
            lo_limit: Some(0.0f32.to_bits()),
            hi_limit: Some(2.0f32.to_bits()),
            fail_soft_bin: 0,
        }],
        pattern_groups: vec![PatternGroup {
            name: "ATPG_SCAN".into(),
            vector_count: 256,
            test_number: 20,
            fail_soft_bin: 0,
        }],
    }
}

/// What the tester reports for one die: one IDDQ measurement and one scan
/// pattern group, failing the measurement on the dies listed in `fail`.
fn die_result(coord: DieCoord, fail: &[DieCoord]) -> DieTestResult {
    let failed = fail.contains(&coord);
    let value: f32 = if failed { 9.0 } else { 1.0 };
    DieTestResult {
        coord,
        measurements: vec![MeasurementOutcome { test_number: 10, value: value.to_bits(), passed: !failed }],
        patterns: vec![PatternOutcome { name: "ATPG_SCAN".into(), test_number: 20, passed: true }],
        aborted: false,
    }
}

fn run(wafer: &mut WaferDieMap, fail: &[DieCoord], start_t: u32, finish_t: u32) -> Vec<Record> {
    let coords: Vec<DieCoord> = wafer.dies.keys().map(|&(x, y)| DieCoord::new(x, y)).collect();
    let results: Vec<DieTestResult> = coords.into_iter().map(|c| die_result(c, fail)).collect();
    let taxonomy = BinTaxonomy::defaults();
    let tally = make_tally(&results, &program(), &taxonomy);
    sort_wafer(&results, wafer, &program(), &taxonomy);
    build_wafer_run_records(&program(), wafer, &results, &tally, &taxonomy, &RunMetadata::with_times(start_t, finish_t))
}

#[test]
fn gdr_roundtrip() {
    let mut wafer = WaferDieMap::rectangular("W7", 2, 1, 100.0f32.to_bits(), 120.0f32.to_bits());
    let records = run(&mut wafer, &[], 1, 2);
    let gdr = records
        .iter()
        .find_map(|r| match r {
            Record::Gdr(g) => Some(g.clone()),
            _ => None,
        })
        .expect("GDR with wafer map");
    let snapshot = decode_wafer_map_gdr(&gdr).expect("decode");
    assert_eq!(snapshot.wafer_id, "W7");
    assert_eq!(snapshot.dies.len(), 2);
    assert!(snapshot.dies.iter().all(|(_, outcome)| outcome.is_some()));
}

#[test]
fn full_record_stream_is_ordered_and_complete() {
    let mut wafer = WaferDieMap::rectangular("W1", 3, 3, 90.0f32.to_bits(), 90.0f32.to_bits());
    let records = run(&mut wafer, &[DieCoord::new(2, 2)], 1_700_000_000, 1_700_000_100);
    assert!(matches!(records[0], Record::Far(_)));
    assert!(matches!(records[2], Record::Mir(_)));
    assert!(matches!(records.last(), Some(Record::Mrr(_))));
    // 9 dies x (1 PTR + 1 FTR) + everything else.
    let ptr_count = records.iter().filter(|r| matches!(r, Record::Ptr(_))).count();
    assert_eq!(ptr_count, 9);
    // One failing die at (2,2).
    let failed_ptrs = records.iter().filter(|r| matches!(r, Record::Ptr(p) if p.failed())).count();
    assert_eq!(failed_ptrs, 1);
}

#[test]
fn run_times_reach_mir_and_mrr() {
    let mut wafer = WaferDieMap::rectangular("W2", 1, 1, 1.0f32.to_bits(), 1.0f32.to_bits());
    let records = run(&mut wafer, &[], 1_700_000_000, 1_700_000_900);
    match &records[2] {
        Record::Mir(mir) => {
            assert_eq!(mir.start_t, 1_700_000_000);
            assert_eq!(mir.tstr_typ, "TPT-SIM-ATE");
            assert_eq!(mir.exec_ver, "0.1.0");
        }
        other => panic!("expected MIR, got {other:?}"),
    }
    match records.last() {
        Some(Record::Mrr(mrr)) => assert_eq!(mrr.finish_t, 1_700_000_900),
        other => panic!("expected MRR, got {other:?}"),
    }
}

#[test]
fn gdr_payload_decoding_edges() {
    assert!(decode_wafer_map_gdr(&Gdr { gen_data: vec![] }).is_none());
    // ID "W", one all-zero (untested) die at (1, -1), then a partial entry.
    let mut data = vec![1u8, b'W'];
    data.extend_from_slice(&1i32.to_le_bytes());
    data.extend_from_slice(&(-1i32).to_le_bytes());
    data.extend_from_slice(&[0, 0, 0, 0, 0]);
    data.extend_from_slice(&[7, 7, 7]);
    let snapshot = decode_wafer_map_gdr(&Gdr { gen_data: data }).expect("decode");
    assert_eq!(snapshot.wafer_id, "W");
    assert_eq!(snapshot.dies, vec![(DieCoord::new(1, -1), None)]);
}

#[test]
fn gdr_all_zero_failure_reads_as_untested() {
    let mut wafer = WaferDieMap::rectangular("W9", 2, 1, 1.0f32.to_bits(), 1.0f32.to_bits());
    let zero_fail = DieTestOutcome { passed: false, hard_bin: 0, soft_bin: 0 };
    let bin_ten = DieTestOutcome { passed: false, hard_bin: 10, soft_bin: 10 };
    wafer.dies.insert((0, 0), DieState::Tested(zero_fail));
    wafer.dies.insert((1, 0), DieState::Tested(bin_ten));
    let taxonomy = BinTaxonomy::defaults();
    let tally = make_tally(&[], &program(), &taxonomy);
    let records =
        build_wafer_run_records(&program(), &wafer, &[], &tally, &taxonomy, &RunMetadata::with_times(1, 2));
    let gdr = records
        .iter()
        .find_map(|r| match r {
            Record::Gdr(g) => Some(g.clone()),
            _ => None,
        })
        .expect("GDR with wafer map");
    let snapshot = decode_wafer_map_gdr(&gdr).expect("decode");
    assert_eq!(snapshot.wafer_id, "W9");
    assert_eq!(snapshot.dies, vec![(DieCoord::new(0, 0), None), (DieCoord::new(1, 0), Some(bin_ten))]);
}

#[test]
fn stdf_time_saturates() {
    assert_eq!(stdf_time(0), 0);
    assert_eq!(stdf_time(1_700_000_000), 1_700_000_000);
    assert_eq!(stdf_time(u32::MAX as u64), u32::MAX);
    assert_eq!(stdf_time(u32::MAX as u64 + 1), u32::MAX);
    assert_eq!(stdf_time(u64::MAX), u32::MAX);
}

#[test]
fn run_metadata_ending_at_starts_fifteen_minutes_earlier() {
    let m = RunMetadata::ending_at(1_700_000_900);
    assert_eq!((m.start_t, m.finish_t), (1_700_000_000, 1_700_000_900));
    assert_eq!(m.node_name, "TPT-SIM");
    let early = RunMetadata::ending_at(100);
    assert_eq!((early.start_t, early.finish_t), (0, 100));
}
