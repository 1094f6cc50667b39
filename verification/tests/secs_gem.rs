use tpt_ate::secs::error::SecsError;
use tpt_ate::secs::gem::{
    accept_event_report, ceid, equipment_event_ack, host_event_ack, parse_online_data, parse_s1f14,
    parse_s6f11, s1f13_establish_communications_request, s1f14_establish_communications_ack,
    s1f1_are_you_there, s1f2_online_data, s6f11_event_report, s6f12_acknowledge, vid, EquipmentGem,
    HostGem, DIE_TESTED_RPTID,
};
use tpt_ate::secs::gem::{parse_s2f41, s2f41_host_command};
use tpt_ate::secs::hsms::HsmsSession;
use tpt_ate::secs::item::SecsItem;

#[test]
fn s6f11_roundtrip() {
    let body = s6f11_event_report(
        7,
        ceid::DIE_TESTED,
        &[(
            DIE_TESTED_RPTID,
            vec![
                SecsItem::u2(vid::DIE_X as u16),
                SecsItem::u2(vid::DIE_Y as u16),
                SecsItem::Boolean(vec![true]),
            ],
        )],
    );
    let (dataid, ceid, reports) = parse_s6f11(&body).expect("parse");
    assert_eq!(dataid, 7);
    assert_eq!(ceid, ceid::DIE_TESTED);
    assert_eq!(reports.len(), 1);
    assert_eq!(reports[0].0, DIE_TESTED_RPTID);
    assert_eq!(reports[0].1.len(), 3);
}

#[test]
fn s6f11_rejects_malformed() {
    let bad = SecsItem::List(vec![SecsItem::u4(1)]);
    let err = parse_s6f11(&bad).unwrap_err();
    assert!(matches!(err, SecsError::Gem(_)));
}

#[test]
fn online_data_roundtrip() {
    assert_eq!(s1f1_are_you_there(), SecsItem::List(vec![]));
    let reply = s1f2_online_data("TPT-SIM-ATE", "1.0");
    assert_eq!(parse_online_data(Some(&reply)).unwrap(), ("TPT-SIM-ATE".to_string(), "1.0".to_string()));
    assert!(matches!(parse_online_data(None), Err(SecsError::Gem(_))));
    assert!(matches!(parse_online_data(Some(&SecsItem::List(vec![]))), Err(SecsError::Gem(_))));
}

#[test]
fn establish_communications_roundtrip() {
    assert_eq!(s1f13_establish_communications_request(), SecsItem::List(vec![]));
    assert_eq!(parse_s1f14(Some(&s1f14_establish_communications_ack(true))).unwrap(), true);
    assert_eq!(parse_s1f14(Some(&s1f14_establish_communications_ack(false))).unwrap(), false);
    assert!(parse_s1f14(Some(&SecsItem::u4(0))).is_err());
}

#[test]
fn event_acknowledgements() {
    assert_eq!(host_event_ack(12, Some(s6f12_acknowledge(0))).unwrap(), 0);
    assert_eq!(host_event_ack(12, None).unwrap(), 1);
    assert!(matches!(
        host_event_ack(11, None),
        Err(SecsError::UnexpectedStreamFunction { stream: 6, function: 11, .. })
    ));
    assert!(equipment_event_ack(12, Some(s6f12_acknowledge(0))).is_ok());
    match equipment_event_ack(12, Some(s6f12_acknowledge(3))) {
        Err(SecsError::Gem(text)) => assert_eq!(text, "host rejected event report, DACKN=3"),
        other => panic!("expected a rejection, got {other:?}"),
    }
}

#[test]
fn equipment_answers_s1f1_and_s1f13_only() {
    let gem = EquipmentGem::new(HsmsSession::new(1), "TPT-SIM-ATE", "0.1");
    assert_eq!(gem.reply_for(1), Some(s1f2_online_data("TPT-SIM-ATE", "0.1")));
    assert_eq!(gem.reply_for(13), Some(s1f14_establish_communications_ack(true)));
    assert_eq!(gem.reply_for(3), None);
    assert_eq!(gem.reply_for(41), Some(SecsItem::Binary(vec![0])));
}

#[test]
fn host_dataids_count_up() {
    let mut host = HostGem::new(HsmsSession::new(1));
    assert_eq!(host.peek_dataid(), 1);
    assert_eq!(host.take_dataid(), 1);
    assert_eq!(host.take_dataid(), 2);
    assert_eq!(host.peek_dataid(), 3);
    assert_eq!(host.into_session().session_id(), 1);
}

#[test]
fn only_s6f11_is_an_event_report() {
    assert!(accept_event_report(1, 1, None).is_none());
    assert!(matches!(
        accept_event_report(6, 11, None),
        Some(Err(SecsError::MissingDataBody { stream: 6, function: 11 }))
    ));
    let body = s6f11_event_report(2, ceid::WAFER_DONE, &[]);
    let (dataid, ceid, reports) = accept_event_report(6, 11, Some(body)).unwrap().unwrap();
    assert_eq!((dataid, ceid, reports.len()), (2, ceid::WAFER_DONE, 0));
}

#[test]
fn s2f41_roundtrip() {
    let params = vec![("SITE".to_string(), SecsItem::Ascii("S1".into())), ("X".to_string(), SecsItem::U4(vec![7]))];
    let body = s2f41_host_command("PLACE_FC", &params);
    let (rcmd, back) = parse_s2f41(&body).unwrap();
    assert_eq!(rcmd, "PLACE_FC");
    assert_eq!(back, params);
    let (rcmd, none) = parse_s2f41(&s2f41_host_command("STOP", &[])).unwrap();
    assert_eq!((rcmd.as_str(), none.len()), ("STOP", 0));
}

#[test]
fn s2f41_parse_errors() {
    let gem = |t: &str| SecsError::Gem(t.to_string());
    assert_eq!(parse_s2f41(&SecsItem::U4(vec![1])).unwrap_err(), gem("S2F41 body is not a list"));
    assert_eq!(parse_s2f41(&SecsItem::List(vec![])).unwrap_err(), gem("S2F41 body has 0 items, expected 2"));
    let bad_rcmd = SecsItem::List(vec![SecsItem::U4(vec![1]), SecsItem::List(vec![])]);
    assert_eq!(parse_s2f41(&bad_rcmd).unwrap_err(), gem("S2F41 RCMD is not ASCII"));
    let bad_list = SecsItem::List(vec![SecsItem::Ascii("R".into()), SecsItem::U4(vec![1])]);
    assert_eq!(parse_s2f41(&bad_list).unwrap_err(), gem("S2F41 parameter list is not a list"));
    let bad_param = SecsItem::List(vec![SecsItem::Ascii("R".into()), SecsItem::List(vec![SecsItem::U4(vec![1])])]);
    assert_eq!(parse_s2f41(&bad_param).unwrap_err(), gem("S2F41 parameter is not a list"));
    let short_param = SecsItem::List(vec![
        SecsItem::Ascii("R".into()),
        SecsItem::List(vec![SecsItem::List(vec![SecsItem::Ascii("N".into())])]),
    ]);
    assert_eq!(parse_s2f41(&short_param).unwrap_err(), gem("S2F41 parameter has 1 items, expected 2"));
    let bad_name = SecsItem::List(vec![
        SecsItem::Ascii("R".into()),
        SecsItem::List(vec![SecsItem::List(vec![SecsItem::U4(vec![1]), SecsItem::U4(vec![2])])]),
    ]);
    assert_eq!(parse_s2f41(&bad_name).unwrap_err(), gem("S2F41 CPNAME is not ASCII"));
}
