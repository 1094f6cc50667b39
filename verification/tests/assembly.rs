use tpt_ate::assembly::backend::{AssemblyError, AssemblyTechnique, PlacementCommand, PlacementPlan, PlacementRecord};
use tpt_ate::assembly::layout::{DieSpec, InterposerLayout, Orientation, PointNm, SiteSpec};
use tpt_ate::assembly::link::{
    accept_host_command, check_communications_accepted, check_model_reported, command_acknowledged, placement_event, placement_event_variables,
    placement_host_command, CEID_PLACEMENT_DONE, CEID_RUN_COMPLETE, HCACK_OK,
};
use tpt_ate::secs::item::SecsItem;
use tpt_ate::secs::error::SecsError;
use tpt_ate::assembly::techniques::{equipment_model_name, placement_record, simulated_equipment_tolerance_nm};
use tpt_ate::assembly::verify::{verify_placements, PlacementViolation};

#[test]
fn technique_rcmds_are_distinct() {
    let all = [AssemblyTechnique::WireBond, AssemblyTechnique::FlipChip, AssemblyTechnique::ChipletPickPlace];
    let rcmds: Vec<_> = all.iter().map(|t| t.rcmd()).collect();
    for (i, a) in rcmds.iter().enumerate() {
        for b in &rcmds[i + 1..] {
            assert_ne!(a, b);
        }
    }
}

#[test]
fn technique_rcmd_labels() {
    assert_eq!(AssemblyTechnique::WireBond.rcmd(), "PLACE_WB");
    assert_eq!(AssemblyTechnique::FlipChip.rcmd(), "PLACE_FC");
    assert_eq!(AssemblyTechnique::ChipletPickPlace.rcmd(), "PLACE_PP");
}

#[test]
fn manhattan_distance_and_rect() {
    let a = PointNm::new(0, 0);
    let b = PointNm::new(3, -4);
    assert_eq!(a.manhattan_distance(&b), 7);
}

#[test]
fn site_rect_uses_die_footprint() {
    let layout = InterposerLayout {
        design_name: "pkg".into(),
        extent_nm: (10_000, 10_000),
        dies: vec![DieSpec { chiplet_id: "c1".into(), width_nm: 2000, height_nm: 3000 }],
        sites: vec![SiteSpec {
            site_id: "s1".into(),
            chiplet_id: "c1".into(),
            position: PointNm::new(1000, 2000),
            orientation: Orientation::R0,
        }],
    };
    let rect = layout.site_rect(layout.site("s1").unwrap()).unwrap();
    assert_eq!(rect, (PointNm::new(1000, 2000), PointNm::new(3000, 5000)));
}

#[test]
fn lookups_miss_unknown_ids() {
    let layout = InterposerLayout {
        design_name: "pkg".into(),
        extent_nm: (10, 10),
        dies: vec![],
        sites: vec![SiteSpec {
            site_id: "s1".into(),
            chiplet_id: "absent".into(),
            position: PointNm::new(0, 0),
            orientation: Orientation::MX,
        }],
    };
    assert!(layout.site("s2").is_none());
    assert!(layout.die_spec("absent").is_none());
    assert!(layout.site_rect(layout.site("s1").unwrap()).is_none());
}

fn layout() -> InterposerLayout {
    InterposerLayout {
        design_name: "pkg-2chiplet".into(),
        extent_nm: (10_000, 8_000),
        dies: vec![
            DieSpec { chiplet_id: "core".into(), width_nm: 2000, height_nm: 2000 },
            DieSpec { chiplet_id: "io".into(), width_nm: 1500, height_nm: 2500 },
        ],
        sites: vec![
            SiteSpec {
                site_id: "s_core".into(),
                chiplet_id: "core".into(),
                position: PointNm::new(1000, 1000),
                orientation: Orientation::R0,
            },
            SiteSpec {
                site_id: "s_io".into(),
                chiplet_id: "io".into(),
                position: PointNm::new(5000, 1000),
                orientation: Orientation::R0,
            },
        ],
    }
}

fn record(site_id: &str, chiplet_id: &str, placed: PointNm) -> PlacementRecord {
    PlacementRecord {
        site_id: site_id.into(),
        chiplet_id: chiplet_id.into(),
        technique: AssemblyTechnique::ChipletPickPlace,
        nominal: PointNm::new(0, 0),
        placed,
        orientation: Orientation::R0,
    }
}

#[test]
fn perfect_placements_pass() {
    let reference = layout();
    let records = reference
        .sites
        .iter()
        .map(|site| PlacementRecord {
            site_id: site.site_id.clone(),
            chiplet_id: site.chiplet_id.clone(),
            technique: AssemblyTechnique::ChipletPickPlace,
            nominal: site.position,
            placed: site.position,
            orientation: site.orientation,
        })
        .collect::<Vec<_>>();
    let report = verify_placements(&records, &reference, 50);
    assert!(report.is_ok(), "violations: {:?}", report.violations);
}

#[test]
fn off_target_and_out_of_bounds_flagged() {
    let reference = layout();
    let mut records = vec![
        record("s_core", "core", PointNm::new(1000 + 500, 1000)), // way off target
        record("s_io", "io", PointNm::new(9_000, 7_000)),         // footprint overflows
    ];
    records[0].nominal = PointNm::new(1000, 1000);
    records[1].nominal = PointNm::new(5000, 1000);
    let report = verify_placements(&records, &reference, 50);
    assert!(report.violations.contains(&PlacementViolation::OffTarget {
        site_id: "s_core".into(),
        deviation_nm: 500,
        tolerance_nm: 50
    }));
    assert!(report
        .violations
        .iter()
        .any(|v| matches!(v, PlacementViolation::OutOfBounds { site_id, .. } if site_id == "s_io")));
}

#[test]
fn missing_duplicate_unknown_and_overlap() {
    let reference = layout();
    let mut records = vec![
        record("s_core", "core", PointNm::new(1000, 1000)),
        record("s_core", "core", PointNm::new(1000, 1000)), // duplicate
        record("ghost", "core", PointNm::new(0, 0)),        // unknown site
    ];
    records[0].nominal = PointNm::new(1000, 1000);
    records[1].nominal = PointNm::new(1000, 1000);
    records[2].nominal = PointNm::new(0, 0);
    let report = verify_placements(&records, &reference, 50);
    assert!(report.violations.iter().any(|v| matches!(v, PlacementViolation::DuplicatePlacement { .. })));
    assert!(report.violations.iter().any(|v| matches!(v, PlacementViolation::UnknownSite { .. })));
    assert!(report
        .violations
        .iter()
        .any(|v| matches!(v, PlacementViolation::MissingPlacement { site_id } if site_id == "s_io")));
}

#[test]
fn overlap_detected_between_placed_footprints() {
    // Place both dies so their footprints intersect.
    let reference = layout();
    let mut records = vec![
        record("s_core", "core", PointNm::new(5000, 1500)),
        record("s_io", "io", PointNm::new(5500, 2000)),
    ];
    records[0].nominal = PointNm::new(1000, 1000); // deliberately off, ignored here
    records[1].nominal = PointNm::new(5000, 1000);
    let report = verify_placements(&records, &reference, 10_000);
    assert!(report.violations.iter().any(|v| matches!(v, PlacementViolation::Overlap { first, second }
            if first == "s_core" && second == "s_io")));
}

#[test]
fn orientation_mismatch_flagged() {
    let reference = layout();
    let mut r = record("s_core", "core", PointNm::new(1000, 1000));
    r.nominal = PointNm::new(1000, 1000);
    r.orientation = Orientation::R180;
    let report = verify_placements(&[r], &reference, 50);
    assert!(report.violations.iter().any(|v| matches!(v, PlacementViolation::OrientationMismatch { .. })));
}

fn interposer_layout() -> InterposerLayout {
    InterposerLayout {
        design_name: "pkg-a1-3chiplet".into(),
        extent_nm: (12_000, 10_000),
        dies: vec![
            DieSpec { chiplet_id: "core".into(), width_nm: 2500, height_nm: 2500 },
            DieSpec { chiplet_id: "io".into(), width_nm: 1500, height_nm: 3000 },
            DieSpec { chiplet_id: "hbm".into(), width_nm: 3000, height_nm: 2000 },
        ],
        sites: vec![
            SiteSpec {
                site_id: "s_core".into(),
                chiplet_id: "core".into(),
                position: PointNm::new(1000, 4000),
                orientation: Orientation::R0,
            },
            SiteSpec {
                site_id: "s_io".into(),
                chiplet_id: "io".into(),
                position: PointNm::new(4500, 3500),
                orientation: Orientation::R0,
            },
            SiteSpec {
                site_id: "s_hbm".into(),
                chiplet_id: "hbm".into(),
                position: PointNm::new(7500, 4000),
                orientation: Orientation::R0,
            },
        ],
    }
}

fn plan_for(layout: &InterposerLayout, plan_id: &str) -> PlacementPlan {
    PlacementPlan {
        plan_id: plan_id.into(),
        commands: layout
            .sites
            .iter()
            .map(|site| PlacementCommand {
                site_id: site.site_id.clone(),
                chiplet_id: site.chiplet_id.clone(),
                target: site.position,
                orientation: site.orientation,
            })
            .collect(),
    }
}

#[test]
fn verification_flags_a_shifted_placement() {
    let layout = interposer_layout();
    // Simulate a mis-placed die: 500nm off target in X.
    let records = plan_for(&layout, "bad")
        .commands
        .iter()
        .map(|cmd| PlacementRecord {
            site_id: cmd.site_id.clone(),
            chiplet_id: cmd.chiplet_id.clone(),
            technique: AssemblyTechnique::ChipletPickPlace,
            nominal: cmd.target,
            placed: if cmd.site_id == "s_hbm" { PointNm::new(cmd.target.x + 500, cmd.target.y) } else { cmd.target },
            orientation: cmd.orientation,
        })
        .collect::<Vec<_>>();

    let report = verify_placements(&records, &layout, 50);
    assert!(!report.is_ok());
    assert!(report.violations.iter().any(|v| matches!(v, PlacementViolation::OffTarget { site_id, deviation_nm, .. }
            if site_id == "s_hbm" && *deviation_nm == 500)));
}

#[test]
fn placements_within_simulated_tolerance_validate() {
    let layout = interposer_layout();
    let tolerance = simulated_equipment_tolerance_nm();
    assert_eq!(tolerance, 60);
    let plan = plan_for(&layout, "jitter");
    let records: Vec<PlacementRecord> = plan
        .commands
        .iter()
        .map(|cmd| {
            placement_record(AssemblyTechnique::FlipChip, cmd, PointNm::new(cmd.target.x + 15, cmd.target.y - 15))
        })
        .collect();
    assert_eq!(records[0].nominal, plan.commands[0].target);
    assert_eq!(records[0].technique, AssemblyTechnique::FlipChip);
    let report = verify_placements(&records, &layout, tolerance);
    assert!(report.is_ok(), "violations: {:?}", report.violations);
    assert_eq!(report.placed_count, 3);
}

#[test]
fn placement_event_roundtrip() {
    let vars = placement_event_variables("s_core", PointNm::new(1234, 5678));
    let reports = vec![(1u32, vars)];
    match placement_event("s_core", CEID_PLACEMENT_DONE, &reports) {
        Some(Ok(p)) => assert_eq!(p, PointNm::new(1234, 5678)),
        other => panic!("expected the placed point, got {other:?}"),
    }
    // Another CEID is not a placement event for this site.
    assert!(placement_event("s_core", CEID_RUN_COMPLETE, &reports).is_none());
}

#[test]
fn placement_event_missing_coordinates_is_malformed() {
    let reports = vec![(1u32, vec![])];
    assert!(matches!(
        placement_event("s_io", CEID_PLACEMENT_DONE, &reports),
        Some(Err(AssemblyError::MalformedEvent { .. }))
    ));
}

#[test]
fn verification_does_not_depend_on_technique() {
    let reference = layout();
    let mut records = vec![
        record("s_core", "core", PointNm::new(1300, 1000)),
        record("s_io", "io", PointNm::new(9_000, 7_000)),
    ];
    records[0].nominal = PointNm::new(1000, 1000);
    records[1].nominal = PointNm::new(5000, 1000);
    let baseline = verify_placements(&records, &reference, 50);
    assert!(!baseline.is_ok());
    for technique in [AssemblyTechnique::WireBond, AssemblyTechnique::FlipChip] {
        let retagged: Vec<PlacementRecord> =
            records.iter().map(|r| PlacementRecord { technique, ..r.clone() }).collect();
        assert_eq!(verify_placements(&retagged, &reference, 50), baseline);
    }
}

#[test]
fn handshake_checks() {
    assert!(check_model_reported("TPT-SIM-PP").is_ok());
    match check_model_reported("") {
        Err(SecsError::Gem(text)) => assert_eq!(text, "equipment reported empty model number"),
        other => panic!("expected a GEM error, got {other:?}"),
    }
    assert!(check_communications_accepted(true).is_ok());
    match check_communications_accepted(false) {
        Err(SecsError::Gem(text)) => assert_eq!(text, "equipment refused to establish communications"),
        other => panic!("expected a GEM error, got {other:?}"),
    }
}

fn command_at(x: i64, y: i64) -> PlacementCommand {
    PlacementCommand {
        site_id: "S1".into(),
        chiplet_id: "C1".into(),
        target: PointNm { x, y },
        orientation: Orientation::R0,
    }
}

#[test]
fn placement_host_command_carries_site_and_clamped_target() {
    let body = placement_host_command("PLACE_HB", &command_at(-5, 70_000));
    let expected = SecsItem::List(vec![
        SecsItem::Ascii("PLACE_HB".into()),
        SecsItem::List(vec![
            SecsItem::List(vec![SecsItem::Ascii("SITE".into()), SecsItem::Ascii("S1".into())]),
            SecsItem::List(vec![SecsItem::Ascii("X".into()), SecsItem::U4(vec![0])]),
            SecsItem::List(vec![SecsItem::Ascii("Y".into()), SecsItem::U4(vec![70_000])]),
        ]),
    ]);
    assert_eq!(body, expected);
}

#[test]
fn host_command_acknowledgement() {
    assert_eq!(HCACK_OK, 0);
    assert!(command_acknowledged("S1", 42, &Some(SecsItem::Binary(vec![0]))).is_ok());
    assert!(matches!(
        command_acknowledged("S1", 42, &Some(SecsItem::Binary(vec![3]))),
        Err(AssemblyError::CommandRejected { ref site_id, hcack: 3 }) if site_id == "S1"
    ));
    assert!(matches!(
        command_acknowledged("S2", 42, &None),
        Err(AssemblyError::CommandRejected { ref site_id, hcack: 1 }) if site_id == "S2"
    ));
    assert!(matches!(
        command_acknowledged("S1", 42, &Some(SecsItem::Binary(vec![]))),
        Err(AssemblyError::CommandRejected { hcack: 1, .. })
    ));
    assert!(matches!(
        command_acknowledged("S1", 42, &Some(SecsItem::Ascii("0".into()))),
        Err(AssemblyError::CommandRejected { hcack: 1, .. })
    ));
    match command_acknowledged("S1", 0, &None) {
        Err(AssemblyError::Comm(SecsError::UnexpectedStreamFunction { stream: 2, function: 0, wanted })) => {
            assert_eq!(wanted, "S2F42 acknowledge")
        }
        other => panic!("expected an unexpected-function error, got {other:?}"),
    }
}

#[test]
fn equipment_accepts_only_its_own_host_command() {
    let body = placement_host_command("PLACE_WB", &command_at(10, 20));
    assert_eq!(accept_host_command("PLACE_WB", "S1", 2, 41, Some(&body)), Ok(()));
    assert_eq!(
        accept_host_command("PLACE_FC", "S1", 2, 41, Some(&body)),
        Err(SecsError::Gem("equipment PLACE_FC got host command PLACE_WB".into()))
    );
    assert_eq!(
        accept_host_command("PLACE_WB", "S1", 2, 41, None),
        Err(SecsError::MissingDataBody { stream: 2, function: 41 })
    );
    assert_eq!(
        accept_host_command("PLACE_WB", "S7", 6, 11, Some(&body)),
        Err(SecsError::UnexpectedStreamFunction { stream: 6, function: 11, wanted: "S2F41 for site S7".into() })
    );
    assert_eq!(
        accept_host_command("PLACE_WB", "S1", 2, 41, Some(&SecsItem::U4(vec![1]))),
        Err(SecsError::Gem("S2F41 body is not a list".into()))
    );
}

#[test]
fn equipment_model_names() {
    assert_eq!(equipment_model_name(AssemblyTechnique::WireBond), "TPT-SIM-WB");
    assert_eq!(equipment_model_name(AssemblyTechnique::FlipChip), "TPT-SIM-FC");
    assert_eq!(equipment_model_name(AssemblyTechnique::ChipletPickPlace), "TPT-SIM-PP");
}
