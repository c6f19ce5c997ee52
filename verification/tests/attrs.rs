use fdo_db::attr_codec::{bool_from_text_attr, i64_from_le_attr};

#[test]
fn le_attr_decodes_exact_values() {
    assert_eq!(i64_from_le_attr(&2000i64.to_le_bytes()), Some(2000));
    assert_eq!(i64_from_le_attr(&0i64.to_le_bytes()), Some(0));
    assert_eq!(i64_from_le_attr(&(-1i64).to_le_bytes()), Some(-1));
    assert_eq!(i64_from_le_attr(&i64::MIN.to_le_bytes()), Some(i64::MIN));
    assert_eq!(i64_from_le_attr(&i64::MAX.to_le_bytes()), Some(i64::MAX));
    // a raw byte pattern: 32 little-endian
    assert_eq!(i64_from_le_attr(&[32, 0, 0, 0, 0, 0, 0, 0]), Some(32));
}

#[test]
fn le_attr_rejects_wrong_lengths() {
    assert_eq!(i64_from_le_attr(&[]), None);
    assert_eq!(i64_from_le_attr(&[1, 2, 3, 4]), None);
    assert_eq!(i64_from_le_attr(&[0; 9]), None);
}

#[test]
fn text_attr_decodes_booleans() {
    assert!(bool_from_text_attr(b"true"));
    assert!(!bool_from_text_attr(b"false"));
    assert!(!bool_from_text_attr(b"True"));
    assert!(!bool_from_text_attr(b""));
    assert!(!bool_from_text_attr(b"truex"));
}
