use rage_of_mages::{FormatError, Reader};

#[test]
fn bounded_reads_never_panic_on_truncation() {
    let mut r = Reader::new(&[0x01]);
    assert_eq!(r.u8(), Ok(1));
    // Reading past the end returns an error, never panics.
    assert_eq!(
        r.u16_be(),
        Err(FormatError::Truncated {
            at: 1,
            needed: 2,
            have: 0
        })
    );
}

#[test]
fn big_endian_matches_java_datainput() {
    let mut r = Reader::new(&[0x12, 0x34, 0x00, 0x00, 0x00, 0x2a]);
    assert_eq!(r.u16_be(), Ok(0x1234));
    assert_eq!(r.i32_be(), Ok(42));
}

#[test]
fn signed_and_little_endian_reads() {
    let mut r = Reader::new(&[0xFF, 0xFF, 0xFE, 0x34, 0x12, 0x80, 0x00, 0x00, 0x00]);
    assert_eq!(r.i8(), Ok(-1));
    assert_eq!(r.i16_be(), Ok(-2));
    assert_eq!(r.u16_le(), Ok(0x1234));
    assert_eq!(r.u32_be(), Ok(0x8000_0000));
    assert_eq!(r.remaining(), 0);
    assert_eq!(r.len(), 9);
    assert!(!r.is_empty());
}

#[test]
fn failed_reads_leave_the_cursor_in_place() {
    let mut r = Reader::new(&[1, 2, 3]);
    assert_eq!(r.skip(1), Ok(()));
    assert_eq!(
        r.i32_be(),
        Err(FormatError::Truncated { at: 1, needed: 4, have: 2 })
    );
    assert_eq!(r.position(), 1);
    assert_eq!(r.bytes(2), Ok(&[2u8, 3][..]));
    assert_eq!(r.seek(4), Err(FormatError::Truncated { at: 3, needed: 1, have: 0 }));
    assert_eq!(r.seek(0), Ok(()));
    assert_eq!(r.position(), 0);
    let copy = r.clone();
    assert_eq!(copy.remaining(), 3);
}

#[test]
fn oversized_request_reports_the_length_overflow() {
    let mut r = Reader::new(&[1, 2, 3]);
    assert_eq!(r.u8(), Ok(1));
    assert_eq!(
        r.bytes(usize::MAX),
        Err(FormatError::Truncated { at: 3, needed: usize::MAX, have: 0 })
    );
}
