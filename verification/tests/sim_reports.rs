use tpt_ate::secs::error::SecsError;
use tpt_ate::secs::gem::{ceid, parse_s6f11, s6f11_event_report, DIE_TESTED_RPTID};
use tpt_ate::secs::item::SecsItem;
use tpt_ate::sim::{decode_die_report, encode_die_report};
use tpt_ate::wafer::{DieCoord, DieTestOutcome};

#[test]
fn die_report_roundtrip_through_secs_items() {
    let coord = DieCoord::new(3, 4);
    let outcome = DieTestOutcome { passed: false, hard_bin: 11, soft_bin: 12 };
    let items = encode_die_report(coord, &outcome);
    let (decoded_coord, decoded_outcome) = decode_die_report(&items).unwrap();
    assert_eq!(decoded_coord, coord);
    assert_eq!(decoded_outcome, outcome);
}

#[test]
fn event_report_carries_die_report() {
    let items = encode_die_report(DieCoord::new(0, 0), &DieTestOutcome { passed: true, hard_bin: 1, soft_bin: 1 });
    let body = s6f11_event_report(1, ceid::DIE_TESTED, &[(DIE_TESTED_RPTID, items)]);
    let (_, parsed_ceid, reports) = parse_s6f11(&body).unwrap();
    assert_eq!(parsed_ceid, ceid::DIE_TESTED);
    assert_eq!(reports[0].1.len(), 5);
}

#[test]
fn die_report_item_layout() {
    let items = encode_die_report(DieCoord::new(2, 7), &DieTestOutcome { passed: true, hard_bin: 1, soft_bin: 3 });
    assert_eq!(
        items,
        vec![
            SecsItem::u2(2),
            SecsItem::u2(7),
            SecsItem::u2(1),
            SecsItem::u2(3),
            SecsItem::Boolean(vec![true]),
        ]
    );
}

#[test]
fn short_die_report_is_rejected() {
    let items = vec![SecsItem::u2(1), SecsItem::u2(2)];
    assert!(matches!(decode_die_report(&items), Err(SecsError::Gem(_))));
}
