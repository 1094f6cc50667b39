use tpt_ate::stdf::codec::{Endian, Reader};

#[test]
fn fixed_width_both_endians() {
    for &endian in &[Endian::Little, Endian::Big] {
        let mut buf = Vec::new();
        tpt_ate::stdf::codec::write::u2(&mut buf, 0x1234);
        tpt_ate::stdf::codec::write::u4(&mut buf, 0xDEAD_BEEF);
        tpt_ate::stdf::codec::write::r4(&mut buf, 1.5f32.to_bits());
        tpt_ate::stdf::codec::write::i2(&mut buf, -7);
        let mut r = Reader::new(&buf, endian);
        // The writer is always little-endian; only little-endian decoding
        // of these bytes round-trips.
        if endian == Endian::Little {
            assert_eq!(r.u2().unwrap(), 0x1234);
            assert_eq!(r.u4().unwrap(), 0xDEAD_BEEF);
            assert_eq!(f32::from_bits(r.r4().unwrap()), 1.5);
            assert_eq!(r.i2().unwrap(), -7);
        }
    }
}

#[test]
fn cn_roundtrip() {
    let mut buf = Vec::new();
    tpt_ate::stdf::codec::write::cn(&mut buf, "LOT123");
    tpt_ate::stdf::codec::write::cn(&mut buf, "");
    let mut r = Reader::new(&buf, Endian::Little);
    assert_eq!(r.cn().unwrap(), "LOT123");
    assert_eq!(r.cn().unwrap(), "");
    assert!(r.is_empty());
}

#[test]
fn sn_roundtrip() {
    let mut buf = Vec::new();
    tpt_ate::stdf::codec::write::sn(&mut buf, &["r1".into(), "r2".into()]);
    let mut r = Reader::new(&buf, Endian::Little);
    assert_eq!(r.sn().unwrap(), vec!["r1".to_string(), "r2".to_string()]);
}

#[test]
fn big_endian_reads_high_byte_first() {
    let buf = vec![0x12u8, 0x34, 0xDE, 0xAD, 0xBE, 0xEF];
    let mut r = Reader::new(&buf, Endian::Big);
    assert_eq!(r.u2().unwrap(), 0x1234);
    assert_eq!(r.u4().unwrap(), 0xDEAD_BEEF);
    assert!(r.is_empty());
}

#[test]
fn short_input_is_an_error() {
    let buf = vec![0x05u8, b'a', b'b'];
    let mut r = Reader::new(&buf, Endian::Little);
    assert!(r.cn().is_err());
}
