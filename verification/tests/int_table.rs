use rage_of_mages::int_table::IntTable;
use rage_of_mages::FormatError;

/// Build a synthetic, hand-authored table.
fn build(values: &[i16]) -> Vec<u8> {
    values.iter().flat_map(|v| v.to_be_bytes()).collect()
}

#[test]
fn parses_big_endian_signed_shorts_to_eof() {
    let t = IntTable::parse(&build(&[0, 7071, -175, i16::MAX, i16::MIN])).unwrap();
    assert_eq!(t.len(), 5);
    assert_eq!(t.values(), &[0, 7071, -175, i16::MAX, i16::MIN]);
    assert_eq!(t.get(1), Some(7071));
    assert_eq!(t.get(5), None);
}

#[test]
fn empty_blob_is_an_empty_table() {
    assert!(IntTable::parse(&[]).unwrap().is_empty());
}

#[test]
fn rejects_an_odd_byte_length() {
    let mut blob = build(&[1234, 5678]);
    blob.push(0x42); // one stray byte cannot be an i16
    assert_eq!(
        IntTable::parse(&blob),
        Err(FormatError::Invalid {
            at: 4,
            reason: "int table byte length is odd (not a whole number of i16)",
        })
    );
    // A one-byte blob is the minimal odd case.
    assert!(IntTable::parse(&[0x01]).is_err());
}

#[test]
fn int_table_values_follow_the_byte_pairs() {
    let t = IntTable::parse(&[0x1b, 0x9f, 0xff, 0x51, 0x80, 0x00]).unwrap();
    assert_eq!(t.values(), &[7071, -175, i16::MIN]);
    assert!(!t.is_empty());
}

#[test]
fn one_byte_blob_is_rejected_at_offset_zero() {
    assert_eq!(
        IntTable::parse(&[0x01]),
        Err(FormatError::Invalid {
            at: 0,
            reason: "int table byte length is odd (not a whole number of i16)",
        })
    );
}
