use tpt_ate::secs::error::SecsError;
use tpt_ate::secs::hsms::{
    HsmsMessage, HsmsSession, HsmsState, ReplyStep, SelectStatus, ServeStep, SessionStep,
};
use tpt_ate::secs::item::SecsItem;

#[test]
fn data_message_roundtrip() {
    let msg = HsmsMessage::data(0x1234, 6, 11, true, 77, Some(SecsItem::List(vec![SecsItem::u4(5)])));
    let bytes = msg.to_bytes();
    assert_eq!(u32::from_be_bytes([bytes[0], bytes[1], bytes[2], bytes[3]]) as usize, bytes.len() - 4);
    let (decoded, used) = HsmsMessage::from_bytes(&bytes).expect("decode");
    assert_eq!(used, bytes.len());
    assert_eq!(decoded, msg);
}

#[test]
fn select_roundtrip() {
    let msg = HsmsMessage::SelectRsp { system_bytes: 9, status: SelectStatus::Selected };
    let (decoded, used) = HsmsMessage::from_bytes(&msg.to_bytes()).expect("decode");
    assert_eq!(used, 14);
    match decoded {
        HsmsMessage::SelectRsp { status, .. } => assert_eq!(status, SelectStatus::Selected),
        other => panic!("expected SelectRsp, got {other:?}"),
    }
}

#[test]
fn header_layout_matches_semi_e37() {
    // S6F11 W-bit, session 1, system bytes 0xDEADBEEF.
    let msg = HsmsMessage::data(1, 6, 11, true, 0xDEAD_BEEF, None);
    let bytes = msg.to_bytes();
    assert_eq!(&bytes[4..14], &[0x00, 0x01, 0x86, 0x0B, 0x00, 0x00, 0xDE, 0xAD, 0xBE, 0xEF]);
}

#[test]
fn truncated_frame_reports_eof() {
    let bytes = HsmsMessage::SelectReq { system_bytes: 1 }.to_bytes();
    let err = HsmsMessage::from_bytes(&bytes[..7]).unwrap_err();
    assert!(matches!(err, SecsError::UnexpectedEof { .. }));
}

#[test]
fn control_messages_roundtrip() {
    for msg in [
        HsmsMessage::SelectReq { system_bytes: 3 },
        HsmsMessage::LinktestReq { system_bytes: 4 },
        HsmsMessage::LinktestRsp { system_bytes: 5 },
        HsmsMessage::Separate { system_bytes: 6 },
    ] {
        let bytes = msg.to_bytes();
        assert_eq!(bytes.len(), 14);
        let (decoded, used) = HsmsMessage::from_bytes(&bytes).expect("decode");
        assert_eq!(used, 14);
        assert_eq!(decoded, msg);
    }
}

#[test]
fn host_select_then_transact() {
    let mut host = HsmsSession::new(7);
    assert_eq!(host.state(), HsmsState::ConnectedNotSelected);
    assert!(matches!(host.begin_transact(1, 1, None), Err(SecsError::NotSelected { .. })));
    let req = host.select_request();
    assert_eq!(req, HsmsMessage::SelectReq { system_bytes: 1 });
    let step = host.on_select_reply(HsmsMessage::SelectRsp { system_bytes: 1, status: SelectStatus::Selected });
    assert!(matches!(step, SessionStep::Done(None)));
    assert_eq!(host.state(), HsmsState::Selected);
    let primary = host.begin_transact(1, 1, None).unwrap();
    assert_eq!(primary, HsmsMessage::data(7, 1, 1, true, 2, None));
    // A linktest in between is answered, then the matching reply arrives.
    let step = host.on_transact_reply(2, HsmsMessage::LinktestReq { system_bytes: 40 });
    assert!(matches!(step, ReplyStep::Send(HsmsMessage::LinktestRsp { system_bytes: 40 })));
    let step = host.on_transact_reply(2, HsmsMessage::data(7, 1, 2, false, 2, Some(SecsItem::u4(9))));
    match step {
        ReplyStep::Reply(function, body) => {
            assert_eq!(function, 2);
            assert_eq!(body, Some(SecsItem::u4(9)));
        }
        other => panic!("expected the reply, got {other:?}"),
    }
}

#[test]
fn rejected_select_fails() {
    let mut host = HsmsSession::new(1);
    let _ = host.select_request();
    let step = host.on_select_reply(HsmsMessage::SelectRsp { system_bytes: 1, status: SelectStatus::NotSelected });
    match step {
        SessionStep::Fail(SecsError::Gem(text)) => assert_eq!(text, "select rejected, status NotSelected"),
        other => panic!("expected a failure, got {other:?}"),
    }
    assert_eq!(host.state(), HsmsState::ConnectedNotSelected);
}

#[test]
fn equipment_accepts_select_and_serves() {
    let mut equipment = HsmsSession::new(3);
    let step = equipment.on_select_request(HsmsMessage::SelectReq { system_bytes: 11 });
    assert!(matches!(
        step,
        SessionStep::Done(Some(HsmsMessage::SelectRsp { system_bytes: 11, status: SelectStatus::Selected }))
    ));
    assert!(equipment.begin_serve().is_ok());
    match equipment.on_serve(HsmsMessage::data(3, 1, 13, true, 12, None)) {
        ServeStep::Primary { stream, function, w_bit, system_bytes, .. } => {
            assert_eq!((stream, function, w_bit, system_bytes), (1, 13, true, 12));
        }
        other => panic!("expected a primary, got {other:?}"),
    }
    let reply = HsmsSession::serve_reply(3, 1, 13, 12, SecsItem::List(vec![]));
    assert_eq!(reply, HsmsMessage::data(3, 1, 14, false, 12, Some(SecsItem::List(vec![]))));
    // A stray Select.rsp is rejected with IllegalStatus and serving goes on.
    let step = equipment.on_serve(HsmsMessage::SelectRsp { system_bytes: 5, status: SelectStatus::Selected });
    assert!(matches!(step, ServeStep::Send(HsmsMessage::Reject { system_bytes: 5, reason: 4, .. })));
    // Separate deselects.
    assert!(matches!(equipment.on_serve(HsmsMessage::Separate { system_bytes: 6 }), ServeStep::Fail(_)));
    assert_eq!(equipment.state(), HsmsState::ConnectedNotSelected);
    assert!(equipment.begin_serve().is_err());
}

#[test]
fn message_encodability_follows_its_body() {
    assert!(HsmsMessage::SelectReq { system_bytes: 1 }.is_encodable());
    assert!(HsmsMessage::data(1, 1, 1, true, 1, None).is_encodable());
    assert!(!HsmsMessage::data(1, 1, 1, true, 1, Some(SecsItem::Binary(vec![0u8; 0x100_0000]))).is_encodable());
}
