use rage_of_mages::jio::{
    parse_int_radix10, DataInput, NFE_EMPTY, NFE_NON_DIGIT, NFE_OVERFLOW, NFE_SIGN_ONLY,
};
use rage_of_mages::jvm::JavaError;
use rage_of_mages::utf::Utf;

fn is_io(r: &JavaError, name: &str) -> bool {
    matches!(r, JavaError::Io(s) if s == name)
}

#[test]
fn null_stream_constructs_then_npes_on_read() {
    let mut s = DataInput::new(None);
    assert_eq!(s.read_byte(), Err(JavaError::NullPointer));
    assert_eq!(s.read_int(), Err(JavaError::NullPointer));
    assert_eq!(s.close(), Err(JavaError::NullPointer));
}

#[test]
fn big_endian_primitives_and_eof() {
    let mut s = DataInput::new(Some(vec![0x01, 0x02, 0x03, 0x04, 0xFF]));
    assert_eq!(s.read_int(), Ok(0x0102_0304));
    assert_eq!(s.read_byte(), Ok(-1));
    assert!(matches!(s.read_byte(), Err(JavaError::Io(_))));
}

#[test]
fn read_utf_decodes_modified_utf8_cyrillic() {
    let mut s = DataInput::new(Some(vec![0x00, 0x04, 0xD0, 0x90, 0xD0, 0x91]));
    assert_eq!(s.read_utf().unwrap(), "АБ");
}

#[test]
fn read_utf_rejects_malformed_sequences() {
    let mut s = DataInput::new(Some(vec![0x00, 0x01, 0x80]));
    assert!(matches!(s.read_utf(), Err(JavaError::Io(_))));
}

#[test]
fn skip_bytes_clamps_and_reports() {
    let mut s = DataInput::new(Some(vec![1, 2, 3]));
    assert_eq!(s.skip_bytes(2), Ok(2));
    assert_eq!(s.skip_bytes(5), Ok(1));
    assert_eq!(s.skip_bytes(5), Ok(0));
}

#[test]
fn parse_int_matches_java_radix10() {
    assert_eq!(parse_int_radix10("42"), Ok(42));
    assert_eq!(parse_int_radix10("-7"), Ok(-7));
    assert_eq!(parse_int_radix10("2147483647"), Ok(i32::MAX));
    assert_eq!(parse_int_radix10("-2147483648"), Ok(i32::MIN));
    assert!(parse_int_radix10("2147483648").is_err());
    assert!(parse_int_radix10("12a").is_err());
    assert!(parse_int_radix10("").is_err());
}

#[test]
fn parse_int_accepts_a_plus_sign_and_rejects_a_lone_sign() {
    assert_eq!(parse_int_radix10("+15"), Ok(15));
    assert!(parse_int_radix10("-").is_err());
    assert!(parse_int_radix10("+").is_err());
    assert!(parse_int_radix10("-2147483649").is_err());
}

#[test]
fn eof_leaves_the_cursor_where_it_was() {
    let mut s = DataInput::new(Some(vec![0x00, 0x07, 0x01]));
    assert!(is_io(&s.read_int().unwrap_err(), "EOFException"));
    assert_eq!(s.position(), 0);
    assert_eq!(s.read_short(), Ok(7));
    assert_eq!(s.position(), 2);
    assert!(is_io(&s.read_short().unwrap_err(), "EOFException"));
    assert_eq!(s.read_byte(), Ok(1));
}

#[test]
fn unsigned_short_and_short_differ_on_the_sign_bit() {
    let mut s = DataInput::new(Some(vec![0xFF, 0xFE, 0xFF, 0xFE]));
    assert_eq!(s.read_unsigned_short(), Ok(0xFFFE));
    assert_eq!(s.read_short(), Ok(-2));
}

#[test]
fn read_fully_fills_or_leaves_the_buffer() {
    let mut s = DataInput::new(Some(vec![0x80, 0x01, 0x7F]));
    let mut buf = [9i8; 2];
    assert_eq!(s.read_fully(&mut buf), Ok(()));
    assert_eq!(buf, [-128, 1]);
    let mut big = [9i8; 2];
    assert!(is_io(&s.read_fully(&mut big).unwrap_err(), "EOFException"));
    assert_eq!(big, [9, 9]);
    assert_eq!(s.read_byte(), Ok(0x7F));
}

#[test]
fn skip_bytes_on_null_and_negative_counts() {
    let mut n = DataInput::new(None);
    assert_eq!(n.skip_bytes(3), Err(JavaError::NullPointer));
    let mut s = DataInput::new(Some(vec![1, 2]));
    assert_eq!(s.skip_bytes(-4), Ok(0));
    assert_eq!(s.position(), 0);
}

#[test]
fn read_utf_reports_each_failure_by_name() {
    // Length prefix runs past the end: EOF after the two prefix bytes.
    let mut s = DataInput::new(Some(vec![0x00, 0x05, b'a']));
    assert!(is_io(&s.read_utf().unwrap_err(), "EOFException"));
    assert_eq!(s.position(), 2);
    // A bad continuation byte.
    let mut s = DataInput::new(Some(vec![0x00, 0x02, 0xC3, 0x41]));
    assert!(is_io(&s.read_utf().unwrap_err(), "UTFDataFormatException"));
    assert_eq!(s.position(), 4);
    // A lone high surrogate (ED A0 80) a Rust string cannot hold.
    let mut s = DataInput::new(Some(vec![0x00, 0x03, 0xED, 0xA0, 0x80]));
    assert!(matches!(s.read_utf(), Err(JavaError::Io(_))));
}

#[test]
fn read_utf_units_yields_the_java_code_units() {
    // U+10437 as a CESU pair, then "A".
    let mut s = DataInput::new(Some(vec![
        0x00, 0x07, 0xED, 0xA0, 0x81, 0xED, 0xB0, 0xB7, b'A',
    ]));
    assert_eq!(s.read_utf_units(), Ok(vec![0xD801, 0xDC37, 0x41]));
    let mut z = DataInput::new(Some(vec![0x00, 0x02, 0xC0, 0x80]));
    assert_eq!(z.read_utf_units(), Ok(vec![0]));
    let mut bad = DataInput::new(Some(vec![0x00, 0x03, 0xED, 0xA0, 0x80]));
    assert!(bad.read_utf_units().is_err());
}

#[test]
fn close_is_a_no_op_on_a_payload() {
    let mut s = DataInput::new(Some(vec![5]));
    assert_eq!(s.close(), Ok(()));
    assert_eq!(s.read_byte(), Ok(5));
}

#[test]
fn number_format_errors_name_their_cause() {
    assert_eq!(parse_int_radix10(""), Err(JavaError::IllegalArgument(NFE_EMPTY)));
    assert_eq!(parse_int_radix10("-"), Err(JavaError::IllegalArgument(NFE_SIGN_ONLY)));
    assert_eq!(parse_int_radix10("1x"), Err(JavaError::IllegalArgument(NFE_NON_DIGIT)));
    assert_eq!(parse_int_radix10("99999999999"), Err(JavaError::IllegalArgument(NFE_OVERFLOW)));
}

#[test]
fn read_utf_walks_the_records_the_strict_reader_parses() {
    let mut blob = Vec::new();
    for rec in ["Hello", "", "Аллоды", "end"] {
        blob.extend_from_slice(&(rec.len() as u16).to_be_bytes());
        blob.extend_from_slice(rec.as_bytes());
    }
    // U+10437 as a CESU pair, which both readers combine.
    blob.extend_from_slice(&[0x00, 0x06, 0xED, 0xA0, 0x81, 0xED, 0xB0, 0xB7]);
    let strict = Utf::parse(&blob).expect("well-formed table");
    let mut s = DataInput::new(Some(blob.clone()));
    for r in strict.records() {
        assert_eq!(&s.read_utf().expect("readUTF"), r);
    }
    assert_eq!(s.position(), blob.len());
}

#[test]
fn read_utf_and_the_strict_decoder_agree_body_by_body() {
    let bodies: [&[u8]; 6] = [
        b"plain",
        &[0xC0, 0x80],
        &[0xE2, 0x82, 0xAC],
        &[0xC3],             // a partial character
        &[0xED, 0xA0, 0x81], // an unpaired high surrogate
        &[0xFF],             // not a lead byte
    ];
    for body in bodies {
        let mut framed = (body.len() as u16).to_be_bytes().to_vec();
        framed.extend_from_slice(body);
        let strict = Utf::parse(&framed).map(|t| t.records()[0].clone());
        let mut s = DataInput::new(Some(framed.clone()));
        let read = s.read_utf();
        assert_eq!(read.is_ok(), strict.is_ok(), "{body:?}");
        if let (Ok(a), Ok(b)) = (&read, &strict) {
            assert_eq!(a, b);
        }
        assert_eq!(s.position(), framed.len());
    }
}
