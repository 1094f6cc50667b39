use tpt_ate::secs::error::SecsError;
use tpt_ate::secs::item::SecsItem;

fn roundtrip(item: SecsItem) {
    let bytes = item.to_bytes();
    let (decoded, used) = SecsItem::from_bytes(&bytes).expect("decode");
    assert_eq!(used, bytes.len());
    assert_eq!(decoded, item);
}

#[test]
fn empty_list() {
    // SEMI E5 zero-length list: header 0x01, length byte 0x00.
    roundtrip(SecsItem::List(vec![]));
    assert_eq!(SecsItem::List(vec![]).to_bytes(), vec![0x01, 0x00]);
}

#[test]
fn nested_list_mixed_items() {
    roundtrip(SecsItem::List(vec![
        SecsItem::U4(vec![42, 7]),
        SecsItem::a("hello"),
        SecsItem::List(vec![
            SecsItem::Binary(vec![0xDE, 0xAD]),
            SecsItem::Boolean(vec![true, false, true]),
        ]),
        SecsItem::F4(vec![1.5f32.to_bits(), (-2.25f32).to_bits()]),
    ]));
}

#[test]
fn all_numeric_formats() {
    roundtrip(SecsItem::I8(vec![-5]));
    roundtrip(SecsItem::I1(vec![-5]));
    roundtrip(SecsItem::I2(vec![-500]));
    roundtrip(SecsItem::I4(vec![-50000]));
    roundtrip(SecsItem::F8(vec![3.25f64.to_bits()]));
    roundtrip(SecsItem::U8(vec![u64::MAX]));
    roundtrip(SecsItem::U1(vec![255]));
    roundtrip(SecsItem::U2(vec![65535]));
    roundtrip(SecsItem::U4(vec![4_000_000_000]));
    roundtrip(SecsItem::Jis(vec![0x81, 0x40]));
}

#[test]
fn three_byte_length_encoding() {
    let long = vec![0xABu8; 70_000];
    let bytes = SecsItem::Binary(long.clone()).to_bytes();
    // 70000 = 0x011170 → length bytes 01 11 70.
    assert_eq!(&bytes[..4], &[0x20 | 3, 0x01, 0x11, 0x70]);
    let (decoded, _) = SecsItem::from_bytes(&bytes).expect("decode");
    assert_eq!(decoded, SecsItem::Binary(long));
}

#[test]
fn bad_header_rejected() {
    // 0x04 = format 0x01, which is not a defined SECS-II format.
    let err = SecsItem::from_bytes(&[0x04, 0x00]).unwrap_err();
    assert!(matches!(err, SecsError::InvalidItemHeader(0x04)));
}

#[test]
fn zero_length_bits_rejected() {
    let err = SecsItem::from_bytes(&[0x20]).unwrap_err();
    assert!(matches!(err, SecsError::InvalidItemLengthBits(0)));
}

#[test]
fn scalar_builders_and_accessors() {
    assert_eq!(SecsItem::u4(7).as_u4(), Some(7));
    assert_eq!(SecsItem::u2(9).as_u2(), Some(9));
    assert_eq!(SecsItem::U1(vec![3]).as_u1(), Some(3));
    assert_eq!(SecsItem::U4(vec![1, 2]).as_u4(), Some(1));
    assert_eq!(SecsItem::U4(vec![]).as_u4(), None);
    assert_eq!(SecsItem::a("x").as_ascii(), Some("x"));
    assert_eq!(SecsItem::u4(1).as_ascii(), None);
    assert_eq!(SecsItem::F4(vec![2.5f32.to_bits()]).as_f4(), Some(2.5f32.to_bits()));
    let list = SecsItem::List(vec![SecsItem::u4(1)]);
    assert_eq!(list.as_list().map(|l| l.len()), Some(1));
    assert_eq!(list.duplicate(), list);
}

#[test]
fn one_byte_length_header_layout() {
    // U2 with one element: format 0o52 << 2 | 1 length byte, length 2.
    assert_eq!(SecsItem::u2(0x1234).to_bytes(), vec![0xA9, 0x02, 0x12, 0x34]);
    assert_eq!(SecsItem::a("hi").to_bytes(), vec![0x41, 0x02, b'h', b'i']);
}

#[test]
fn trailing_bytes_rejected() {
    let err = SecsItem::from_bytes(&[0x01, 0x00, 0xFF]).unwrap_err();
    assert!(matches!(err, SecsError::TrailingBytesAfterItem { count: 1 }));
}

#[test]
fn encodability_follows_the_length_field() {
    assert!(SecsItem::List(vec![SecsItem::u4(1), SecsItem::a("x")]).is_encodable());
    assert!(SecsItem::Binary(vec![0u8; 0xFF_FFFF]).is_encodable());
    assert!(!SecsItem::Binary(vec![0u8; 0x100_0000]).is_encodable());
    assert!(SecsItem::U4(vec![0u32; 0x3F_FFFF]).is_encodable());
    assert!(!SecsItem::U4(vec![0u32; 0x40_0000]).is_encodable());
    assert!(!SecsItem::List(vec![SecsItem::U2(vec![0u16; 0x80_0000])]).is_encodable());
}
