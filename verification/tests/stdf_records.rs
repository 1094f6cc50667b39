use tpt_ate::stdf::codec::{cpu_type, Endian};
use tpt_ate::stdf::records::{
    Bps, Dtr, Eps, Far, Ftr, Gdr, Hbr, Mir, Mrr, Pcr, Ptr, Record, Sbr, Wcr, Wir, Wrr,
};

fn roundtrip(record: Record) {
    let bytes = record.to_bytes();
    // Pull (typ, sub, body) back out of the encoded bytes.
    let len = u16::from_le_bytes([bytes[0], bytes[1]]) as usize;
    let typ = bytes[2];
    let sub = bytes[3];
    assert_eq!(bytes.len(), 4 + len, "REC_LEN must cover the body exactly");
    let parsed = Record::parse(typ, sub, &bytes[4..], Endian::Little).expect("parse");
    assert_eq!(parsed, record, "record must round-trip through bytes");
}

#[test]
fn far_roundtrip() {
    roundtrip(Record::Far(Far { cpu_type: cpu_type::X86, stdf_ver: 4 }));
}

#[test]
fn mir_roundtrip_with_populated_fields() {
    let mut mir = Mir { setup_t: 1_700_000_000, start_t: 1_700_000_100, ..Mir::default() };
    mir.lot_id = "LOT-42".into();
    mir.part_typ = "CHIPLET-A1".into();
    mir.tstr_typ = "SIM-ATE-1".into();
    roundtrip(Record::Mir(mir));
}

#[test]
fn ptr_measured_roundtrip() {
    roundtrip(Record::Ptr(Ptr::measured(
        100,
        1,
        3,
        3.3f32.to_bits(),
        "VDD_CORE",
        "V",
        3.0f32.to_bits(),
        3.6f32.to_bits(),
    )));
}

#[test]
fn ptr_verdict_roundtrip() {
    roundtrip(Record::Ptr(Ptr::verdict(200, 1, 3, false)));
}

#[test]
fn ptr_parse_respects_opt_flag_presence_bit() {
    // PARM_FLG without bit 4: no OPT_FLAG, no optional fields at all.
    let mut body = Vec::new();
    tpt_ate::stdf::codec::write::u4(&mut body, 5);
    tpt_ate::stdf::codec::write::u1(&mut body, 1);
    tpt_ate::stdf::codec::write::u1(&mut body, 2);
    tpt_ate::stdf::codec::write::u1(&mut body, 0);
    tpt_ate::stdf::codec::write::u1(&mut body, 0); // PARM_FLG: no OPT_FLAG_PRESENT
    tpt_ate::stdf::codec::write::r4(&mut body, 1.0f32.to_bits());
    tpt_ate::stdf::codec::write::cn(&mut body, "T");
    tpt_ate::stdf::codec::write::cn(&mut body, "");
    tpt_ate::stdf::codec::write::cn(&mut body, "V");
    let rec = Record::parse(15, 10, &body, Endian::Little).expect("parse");
    match rec {
        Record::Ptr(p) => {
            assert!(p.opt_flg.is_none());
            assert!(p.lo_limit.is_none() && p.hi_limit.is_none());
        }
        other => panic!("expected PTR, got {other:?}"),
    }
}

#[test]
fn ftr_roundtrip() {
    roundtrip(Record::Ftr(Ftr::pattern(300, 1, 2, true, "ATPG_SCAN")));
}

#[test]
fn ftr_roundtrip_with_optional_fields() {
    let mut ftr = Ftr::pattern(301, 1, 2, false, "ATPG_MBIST");
    ftr.opt_flg = 0x01; // optional field block present
    ftr.alarm_id = Some("ALM1".into());
    ftr.opt_flg_2 = Some(0);
    ftr.program = Some("PROG-1".into());
    ftr.test_label = Some("LBL-1".into());
    roundtrip(Record::Ftr(ftr));
}

#[test]
fn wafer_records_roundtrip() {
    roundtrip(Record::Wir(Wir {
        head_num: 1,
        site_grp: 0,
        start_t: 1_700_000_200,
        wafer_id: "W01".into(),
    }));
    roundtrip(Record::Wcr(Wcr {
        wafr_siz: 150.0f32.to_bits(),
        die_ht: 5200.0f32.to_bits(),
        die_wid: 4100.0f32.to_bits(),
        wf_units: 3, // mil
        wf_flat: 0b100,
        center_x: 0,
        center_y: 0,
        pos_x: b'R',
        pos_y: b'T',
    }));
    roundtrip(Record::Wrr(Wrr {
        head_num: 1,
        site_grp: 0,
        finish_t: 1_700_000_900,
        part_cnt: 441,
        rtst_cnt: 0,
        abrt_cnt: 1,
        good_cnt: 400,
        func_cnt: 0,
        wafer_id: "W01".into(),
        fabwf_id: String::new(),
        frame_id: String::new(),
        mask_id: String::new(),
        usr_desc: String::new(),
        exc_desc: String::new(),
    }));
}

#[test]
fn bin_records_roundtrip() {
    roundtrip(Record::Hbr(Hbr {
        head_num: 1,
        site_num: 255,
        hbin_num: 1,
        hbin_cnt: 400,
        hbin_pf: b'P',
        hbin_nam: "PASS".into(),
    }));
    roundtrip(Record::Sbr(Sbr {
        head_num: 1,
        site_num: 255,
        sbin_num: 12,
        sbin_cnt: 7,
        sbin_pf: b'F',
        sbin_nam: "VDD_MIN_SHORT".into(),
    }));
    roundtrip(Record::Pcr(Pcr {
        head_num: 1,
        site_num: 255,
        part_cnt: 441,
        rtst_cnt: 0,
        abrt_cnt: 1,
        good_cnt: 400,
        func_cnt: 0,
    }));
    roundtrip(Record::Mrr(Mrr {
        finish_t: 1_700_000_999,
        disp_cod: b' ',
        usr_cod: 0,
        exc_cod: 0,
        usr_desc: String::new(),
        exc_desc: String::new(),
    }));
}

#[test]
fn unknown_record_preserved_verbatim() {
    // Type 99/sub 5 is not modeled; body must survive byte-for-byte.
    let data = vec![0x02, 0x00, 99, 5, 0xDE, 0xAD];
    let parsed = Record::parse(99, 5, &[0xDE, 0xAD], Endian::Little).expect("parse");
    assert_eq!(parsed, Record::Unknown { typ: 99, sub: 5, data: vec![0xDE, 0xAD] });
    assert_eq!(parsed.to_bytes(), data);
}

#[test]
fn gdr_dtr_bps_eps_roundtrip() {
    roundtrip(Record::Gdr(Gdr { gen_data: vec![1, 2, 3, 4] }));
    roundtrip(Record::Dtr(Dtr { text_dat: "note".into() }));
    roundtrip(Record::Bps(Bps));
    roundtrip(Record::Eps(Eps));
}

#[test]
fn type_subtype_of_known_records() {
    assert_eq!(Record::Far(Far { cpu_type: cpu_type::X86, stdf_ver: 4 }).type_subtype(), (0, 10));
    assert_eq!(Record::Ptr(Ptr::verdict(1, 1, 1, true)).type_subtype(), (15, 10));
    assert_eq!(Record::Gdr(Gdr { gen_data: vec![] }).type_subtype(), (20, 10));
}

#[test]
fn verdict_and_pattern_failure_flags() {
    assert!(Ptr::verdict(1, 1, 1, false).failed());
    assert!(!Ptr::verdict(1, 1, 1, true).failed());
    assert!(Ftr::pattern(1, 1, 1, false, "P").failed());
    assert!(!Ftr::pattern(1, 1, 1, true, "P").failed());
}

#[test]
fn truncated_ptr_body_is_rejected() {
    let body = vec![0x05u8, 0x00];
    assert!(Record::parse(15, 10, &body, Endian::Little).is_err());
}

#[test]
fn encodability_follows_field_prefixes() {
    assert!(Record::Dtr(Dtr { text_dat: "x".repeat(255) }).is_encodable());
    assert!(!Record::Dtr(Dtr { text_dat: "x".repeat(256) }).is_encodable());
    assert!(!Record::Gdr(Gdr { gen_data: vec![0u8; 65536] }).is_encodable());
    assert!(Record::Unknown { typ: 99, sub: 1, data: vec![0u8; 70_000] }.is_encodable());
    let mut ftr = Ftr::pattern(1, 1, 1, true, "P");
    ftr.rtn_nam = vec!["y".repeat(300)];
    assert!(!Record::Ftr(ftr).is_encodable());
}

#[test]
fn far_trailing_bytes_kept_as_tail() {
    let r = Record::parse(0, 10, &[3, 4, 0xFF], Endian::Little).unwrap();
    assert_eq!(
        r,
        Record::Tailed {
            record: Box::new(Record::Far(Far { cpu_type: cpu_type::X86, stdf_ver: 4 })),
            tail: vec![0xFF],
        }
    );
    assert_eq!(r.to_bytes(), vec![3, 0, 0, 10, 3, 4, 0xFF]);
}

#[test]
fn hbr_tail_roundtrips_through_bytes() {
    let body = [1u8, 2, 11, 0, 3, 0, 0, 0, b'F', 4, b'F', b'A', b'I', b'L', 0xAA, 0xBB];
    let r = Record::parse(1, 40, &body, Endian::Little).unwrap();
    match &r {
        Record::Tailed { record, tail } => {
            assert!(matches!(**record, Record::Hbr(_)));
            assert_eq!(tail, &vec![0xAAu8, 0xBB]);
        }
        other => panic!("expected a tailed HBR, got {other:?}"),
    }
    let bytes = r.to_bytes();
    assert_eq!(&bytes[4..], &body[..]);
    assert_eq!(u16::from_le_bytes([bytes[0], bytes[1]]) as usize, body.len());
    roundtrip(r);
}

#[test]
fn complete_body_has_no_tail() {
    let r = Record::parse(0, 10, &[3, 4], Endian::Little).unwrap();
    assert_eq!(r, Record::Far(Far { cpu_type: cpu_type::X86, stdf_ver: 4 }));
}

#[test]
fn bps_with_sequence_name_stays_typed() {
    let r = Record::parse(20, 15, &[3, b'S', b'E', b'Q'], Endian::Little).unwrap();
    assert_eq!(r, Record::Tailed { record: Box::new(Record::Bps(Bps)), tail: vec![3, b'S', b'E', b'Q'] });
    assert_eq!(r.to_bytes(), vec![4, 0, 20, 15, 3, b'S', b'E', b'Q']);
    assert_eq!(Record::parse(20, 20, &[], Endian::Little).unwrap(), Record::Eps(Eps));
    assert!(matches!(Record::parse(20, 99, &[1, 2], Endian::Little).unwrap(), Record::Unknown { typ: 20, sub: 99, .. }));
}
