use tpt_ate::stdf::codec::{cpu_type, Endian, STDF_VERSION_V4};
use tpt_ate::stdf::error::StdfError;
use tpt_ate::stdf::reader::StdfReader;
use tpt_ate::stdf::records::{Far, Hbr, Ptr, Record};
use tpt_ate::stdf::writer::StdfWriter;

#[test]
fn read_back_written_records() {
    let mut writer = StdfWriter::new(Vec::new());
    writer
        .write(&Record::Far(Far { cpu_type: cpu_type::X86, stdf_ver: STDF_VERSION_V4 }))
        .unwrap();
    writer
        .write(&Record::Ptr(Ptr::measured(
            10,
            1,
            1,
            3.3f32.to_bits(),
            "VDD",
            "V",
            3.0f32.to_bits(),
            3.6f32.to_bits(),
        )))
        .unwrap();
    let buf = writer.into_inner();
    let mut reader = StdfReader::new(buf);
    let records = reader.read_all().unwrap();
    assert_eq!(records.len(), 2);
    assert_eq!(reader.endian(), Endian::Little);
    match &records[0] {
        Record::Far(far) => assert_eq!(far.stdf_ver, 4),
        other => panic!("expected FAR, got {other:?}"),
    }
}

#[test]
fn rejects_file_not_starting_with_far() {
    // A PTR record as the first record: valid bytes, wrong order.
    let ptr = Record::Ptr(Ptr::verdict(1, 1, 1, true)).to_bytes();
    let mut reader = StdfReader::new(ptr);
    let err = reader.next_record().unwrap_err();
    assert!(matches!(err, StdfError::MalformedRecord { typ: 15, sub: 10, .. }));
}

#[test]
fn auto_prepends_far_when_first_record_is_not_far() {
    let mut writer = StdfWriter::new(Vec::new());
    writer.write(&Record::Ptr(Ptr::verdict(1, 1, 1, true))).unwrap();
    writer
        .write(&Record::Hbr(Hbr {
            head_num: 1,
            site_num: 255,
            hbin_num: 1,
            hbin_cnt: 1,
            hbin_pf: b'P',
            hbin_nam: "PASS".into(),
        }))
        .unwrap();
    let buf = writer.into_inner();
    let mut reader = StdfReader::new(buf);
    let records = reader.read_all().unwrap();
    assert!(matches!(&records[0], Record::Far(_)));
    assert_eq!(records.len(), 3);
}

#[test]
fn write_all_then_read_all_gives_records_back() {
    let records = vec![
        Record::Far(Far { cpu_type: cpu_type::X86, stdf_ver: STDF_VERSION_V4 }),
        Record::Ptr(Ptr::verdict(7, 1, 2, false)),
        Record::Hbr(Hbr {
            head_num: 1,
            site_num: 255,
            hbin_num: 11,
            hbin_cnt: 3,
            hbin_pf: b'F',
            hbin_nam: "FAIL".into(),
        }),
    ];
    let mut writer = StdfWriter::new(Vec::new());
    writer.write_all(&records).unwrap();
    let mut reader = StdfReader::new(writer.into_inner());
    assert_eq!(reader.read_all().unwrap(), records);
}

#[test]
fn big_endian_far_switches_byte_order() {
    // FAR with CPU_TYPE 1 (big-endian), then a DTR. Record headers carry
    // their length little-endian.
    let bytes = vec![0x02u8, 0x00, 0, 10, 1, 4, 0x03, 0x00, 50, 30, 2, b'h', b'i'];
    let mut reader = StdfReader::new(bytes);
    let records = reader.read_all().unwrap();
    assert_eq!(reader.endian(), Endian::Big);
    assert_eq!(records.len(), 2);
}

#[test]
fn empty_stream_reads_nothing() {
    let mut reader = StdfReader::new(Vec::new());
    assert_eq!(reader.next_record().unwrap(), None);
}

#[test]
fn short_header_is_an_error() {
    let mut reader = StdfReader::new(vec![0x02u8, 0x00, 0]);
    assert!(matches!(reader.next_record(), Err(StdfError::ShortRecordHeader(0))));
}

#[test]
fn tailed_record_survives_write_then_read() {
    let tailed = Record::Tailed {
        record: Box::new(Record::Far(Far { cpu_type: cpu_type::X86, stdf_ver: STDF_VERSION_V4 })),
        tail: vec![0x7E, 0x7F],
    };
    let records = vec![tailed, Record::Ptr(Ptr::verdict(7, 1, 2, true))];
    let mut writer = StdfWriter::new(Vec::new());
    writer.write_all(&records).unwrap();
    let bytes = writer.into_inner();
    assert_eq!(&bytes[..8], &[4u8, 0, 0, 10, 3, 4, 0x7E, 0x7F]);
    let mut reader = StdfReader::new(bytes);
    assert_eq!(reader.read_all().unwrap(), records);
}
