use rage_of_mages::utf::Utf;
use rage_of_mages::FormatError;

/// Append one record (`u16 BE len` + raw payload bytes) to a stream.
fn push_record(out: &mut Vec<u8>, payload: &[u8]) {
    out.extend_from_slice(&(payload.len() as u16).to_be_bytes());
    out.extend_from_slice(payload);
}

/// Build a synthetic stream.
fn build(payloads: &[&[u8]]) -> Vec<u8> {
    let mut out = Vec::new();
    for p in payloads {
        push_record(&mut out, p);
    }
    out
}

#[test]
fn parses_ascii_cyrillic_and_empty_delimiter_records() {
    let blob = build(&[b"Hello", "Аллоды".as_bytes(), b"", b"end"]);
    let t = Utf::parse(&blob).unwrap();
    assert_eq!(t.len(), 4);
    assert_eq!(t.get(0), Some("Hello"));
    assert_eq!(t.get(1), Some("Аллоды"));
    assert_eq!(t.get(2), Some("")); // empty record kept as a delimiter
    assert_eq!(t.get(3), Some("end"));
    assert_eq!(t.get(4), None);
}

#[test]
fn empty_stream_is_zero_records() {
    assert!(Utf::parse(&[]).unwrap().is_empty());
}

#[test]
fn decodes_the_two_byte_nul_form_and_a_raw_nul() {
    let blob = build(&[&[0xC0, 0x80], &[0x00]]);
    let t = Utf::parse(&blob).unwrap();
    assert_eq!(t.get(0), Some("\u{0}"));
    assert_eq!(t.get(1), Some("\u{0}"));
}

#[test]
fn combines_a_surrogate_pair_into_the_supplementary_character() {
    // U+10437 = UTF-16 D801 DC37 = modified UTF-8 ED A0 81 ED B0 B7.
    let blob = build(&[&[0xED, 0xA0, 0x81, 0xED, 0xB0, 0xB7]]);
    assert_eq!(Utf::parse(&blob).unwrap().get(0), Some("\u{10437}"));
}

#[test]
fn rejects_a_final_record_that_overruns_eof() {
    let mut blob = build(&[b"ok"]);
    push_record(&mut blob, b"tail");
    assert!(matches!(
        Utf::parse(&blob[..blob.len() - 1]),
        Err(FormatError::Truncated { .. })
    ));
}

#[test]
fn rejects_a_stray_trailing_byte() {
    let mut blob = build(&[b"ok"]);
    blob.push(0x07);
    assert!(matches!(
        Utf::parse(&blob),
        Err(FormatError::Truncated { .. })
    ));
}

#[test]
fn rejects_an_invalid_lead_byte() {
    for lead in [0x80u8, 0xBF, 0xF0, 0xFF] {
        let blob = build(&[&[lead]]);
        assert_eq!(
            Utf::parse(&blob),
            Err(FormatError::Invalid {
                at: 2,
                reason: "modified-UTF-8: invalid lead byte",
            }),
            "lead byte {lead:#04x}"
        );
    }
}

#[test]
fn rejects_a_bad_continuation_byte() {
    let blob = build(&[&[0xD0, 0x28]]);
    assert_eq!(
        Utf::parse(&blob),
        Err(FormatError::Invalid {
            at: 3,
            reason: "modified-UTF-8: bad continuation byte",
        })
    );
}

#[test]
fn rejects_a_partial_character_at_record_end() {
    for payload in [&[0xD0u8][..], &[0xE2, 0x82][..]] {
        let blob = build(&[payload]);
        assert!(matches!(
            Utf::parse(&blob),
            Err(FormatError::Invalid {
                reason: "modified-UTF-8: partial character at end of record",
                ..
            })
        ));
    }
}

#[test]
fn rejects_unpaired_surrogates() {
    for (payload, reason) in [
        (
            &[0xEDu8, 0xA0, 0x81][..],
            "modified-UTF-8: unpaired high surrogate",
        ),
        (
            &[0xEDu8, 0xB0, 0xB7][..],
            "modified-UTF-8: unpaired low surrogate",
        ),
    ] {
        let blob = build(&[payload]);
        assert_eq!(
            Utf::parse(&blob),
            Err(FormatError::Invalid { at: 2, reason })
        );
    }
}

#[test]
fn three_byte_bad_continuation_points_at_the_bad_byte() {
    // Second continuation bad: reported at the third byte of the body.
    let blob = build(&[&[0xE2, 0x82, 0x28]]);
    assert_eq!(
        Utf::parse(&blob),
        Err(FormatError::Invalid { at: 4, reason: "modified-UTF-8: bad continuation byte" })
    );
    // First continuation bad.
    let blob = build(&[&[0xE2, 0x28, 0x82]]);
    assert_eq!(
        Utf::parse(&blob),
        Err(FormatError::Invalid { at: 3, reason: "modified-UTF-8: bad continuation byte" })
    );
}

#[test]
fn records_tile_the_stream_and_keep_order() {
    let blob = build(&[b"a", b"", "Ж€".as_bytes()]);
    let t = Utf::parse(&blob).unwrap();
    assert_eq!(t.records(), &["a".to_string(), String::new(), "Ж€".to_string()]);
    let total: usize = t.records().iter().map(|r| 2 + r.len()).sum();
    assert_eq!(total, blob.len());
}

#[test]
fn overrunning_record_reports_offset_need_and_have() {
    // len=5 at offset 0, body starts at 2 with only 3 bytes.
    let blob = vec![0x00, 0x05, b'a', b'b', b'c'];
    assert_eq!(
        Utf::parse(&blob),
        Err(FormatError::Truncated { at: 2, needed: 5, have: 3 })
    );
}

/// Java's `writeUTF` body for a string: each UTF-16 unit in one, two or
/// three bytes, U+0000 as `C0 80`.
fn write_utf_body(s: &str) -> Vec<u8> {
    let mut out = Vec::new();
    for u in s.encode_utf16() {
        if (1..=0x7F).contains(&u) {
            out.push(u as u8);
        } else if u <= 0x7FF {
            out.push(0xC0 | (u >> 6) as u8);
            out.push(0x80 | (u & 0x3F) as u8);
        } else {
            out.push(0xE0 | (u >> 12) as u8);
            out.push(0x80 | ((u >> 6) & 0x3F) as u8);
            out.push(0x80 | (u & 0x3F) as u8);
        }
    }
    out
}

#[test]
fn a_written_table_parses_back_to_its_records() {
    let records = ["Hello", "", "Аллоды", "a\u{0}b", "\u{1F600} and \u{FFFF}", "end"];
    let bodies: Vec<Vec<u8>> = records.iter().map(|r| write_utf_body(r)).collect();
    let refs: Vec<&[u8]> = bodies.iter().map(|b| b.as_slice()).collect();
    let t = Utf::parse(&build(&refs)).unwrap();
    let expected: Vec<String> = records.iter().map(|r| r.to_string()).collect();
    assert_eq!(t.records(), expected.as_slice());
}

#[test]
fn standard_utf8_of_bmp_text_reads_as_itself() {
    for text in ["plain ascii", "Аллоды: Печать тайны", "\u{0}nul\u{0}", "€ ✓ \u{FFFD}"] {
        let t = Utf::parse(&build(&[text.as_bytes()])).unwrap();
        assert_eq!(t.get(0), Some(text));
    }
}
