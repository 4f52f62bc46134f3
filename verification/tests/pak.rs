use rage_of_mages::pak::{Pak, XOR_KEY};
use rage_of_mages::FormatError;

/// Build a synthetic pack from plaintext entries — the builder XOR-encrypts,
/// the parser decrypts.
fn build(entries: &[&[u8]]) -> Vec<u8> {
    let mut out = Vec::new();
    out.extend_from_slice(&(entries.len() as i32).to_be_bytes());
    for e in entries {
        out.extend_from_slice(&(e.len() as i32).to_be_bytes());
    }
    for e in entries {
        out.extend(e.iter().map(|&b| b ^ XOR_KEY));
    }
    out
}

#[test]
fn parses_and_decrypts_entries_in_directory_order() {
    let blob = build(&[b"first entry", b"", b"third"]);
    let pak = Pak::parse(&blob).unwrap();
    assert_eq!(pak.len(), 3);
    assert_eq!(pak.entry(0), Some(&b"first entry"[..]));
    assert_eq!(pak.entry(1), Some(&b""[..]));
    assert_eq!(pak.entry(2), Some(&b"third"[..]));
    assert_eq!(pak.entry(3), None);
}

#[test]
fn empty_pack_is_valid() {
    let pak = Pak::parse(&build(&[])).unwrap();
    assert!(pak.is_empty());
}

#[test]
fn rejects_a_corrupted_length_that_breaks_the_total_invariant() {
    let mut blob = build(&[b"abc", b"defg"]);
    // Bump entry 0's length from 3 to 4: the body now over-runs EOF.
    blob[7] = 4;
    assert!(matches!(
        Pak::parse(&blob),
        Err(FormatError::Truncated { .. })
    ));
}

#[test]
fn rejects_trailing_bytes_after_the_last_entry() {
    let mut blob = build(&[b"abc"]);
    blob.push(0x99);
    assert!(matches!(
        Pak::parse(&blob),
        Err(FormatError::Invalid {
            reason: "trailing bytes after the last pak entry",
            ..
        })
    ));
}

#[test]
fn rejects_a_negative_count_and_a_negative_length() {
    let mut blob = build(&[b"abc"]);
    blob[0] = 0xFF; // count sign bit
    assert_eq!(
        Pak::parse(&blob),
        Err(FormatError::Invalid {
            at: 0,
            reason: "negative pak entry count",
        })
    );

    let mut blob = build(&[b"abc"]);
    blob[4] = 0xFF; // length[0] sign bit
    assert_eq!(
        Pak::parse(&blob),
        Err(FormatError::Invalid {
            at: 4,
            reason: "negative pak entry length",
        })
    );
}

#[test]
fn rejects_a_truncated_directory() {
    let blob = build(&[b"abc", b"def"]);
    // Cut inside the second directory word.
    assert!(matches!(
        Pak::parse(&blob[..10]),
        Err(FormatError::Truncated { .. })
    ));
}

#[test]
fn pak_error_offsets_are_exact() {
    // Directory cut: the second word starts at 8, two of its bytes remain.
    let blob = build(&[b"abc", b"def"]);
    assert_eq!(
        Pak::parse(&blob[..10]),
        Err(FormatError::Truncated { at: 8, needed: 4, have: 2 })
    );
    // Body over-run: entry 1 (4 bytes) starts at 12 + 4 = 16 with 3 left.
    let mut blob = build(&[b"abc", b"defg"]);
    blob[7] = 4;
    assert_eq!(
        Pak::parse(&blob),
        Err(FormatError::Truncated { at: 16, needed: 4, have: 3 })
    );
    // Trailing byte after one 3-byte entry: reported at 4 + 4 + 3 = 11.
    let mut blob = build(&[b"abc"]);
    blob.push(0x99);
    assert_eq!(
        Pak::parse(&blob),
        Err(FormatError::Invalid { at: 11, reason: "trailing bytes after the last pak entry" })
    );
}

#[test]
fn pak_length_law_on_a_concrete_pack() {
    let blob = build(&[b"one", b"two2", b"three"]);
    let pak = Pak::parse(&blob).unwrap();
    let total: usize = pak.entries().iter().map(|e| e.len()).sum();
    assert_eq!(blob.len(), 4 + 4 * pak.len() + total);
    // Re-applying the key gives back the stored bytes.
    let stored: Vec<u8> = pak.entry(1).unwrap().iter().map(|&b| b ^ XOR_KEY).collect();
    assert_eq!(stored, blob[4 + 12 + 3..4 + 12 + 7].to_vec());
}

#[test]
fn empty_blob_is_a_truncated_count() {
    assert_eq!(
        Pak::parse(&[]),
        Err(FormatError::Truncated { at: 0, needed: 4, have: 0 })
    );
}
