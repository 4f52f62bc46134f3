use rage_of_mages::pak::Pak;
use rage_of_mages::loader::{close_pak, open_pak, open_pak_stream, read_entry, skip_entries, ResourceLoader};
use rage_of_mages::resource::Resources;

struct FakePak(Vec<u8>);
impl Resources for FakePak {
    fn resource_as_stream(&self, name: &str) -> Option<Vec<u8>> {
        if name == "/fake.pak" {
            Some(self.0.clone())
        } else {
            None
        }
    }
}

fn pak_with(entries: &[&[u8]], key: u8) -> Vec<u8> {
    let mut out = Vec::new();
    out.extend_from_slice(&(entries.len() as i32).to_be_bytes());
    for e in entries {
        out.extend_from_slice(&(e.len() as i32).to_be_bytes());
    }
    for e in entries {
        out.extend(e.iter().map(|&b| b ^ key));
    }
    out
}

fn signed(b: &[u8]) -> Vec<i8> {
    b.iter().map(|&x| x as i8).collect()
}

#[test]
fn open_read_skip_read_walks_the_directory() {
    let res = FakePak(pak_with(&[b"one", b"two2", b"three"], 0x53));
    let mut l = ResourceLoader::default();
    open_pak(&mut l, &res, "/fake.pak", 0x53);
    assert_eq!(l.f119a.as_deref(), Some(&[3i32, 4, 5][..]));
    let e0 = read_entry(&mut l);
    assert_eq!(e0, signed(b"one"));
    skip_entries(&mut l, 1);
    let e2 = read_entry(&mut l);
    assert_eq!(e2, signed(b"three"));
    close_pak(&mut l);
    assert!(l.a.is_none() && l.f119a.is_none());
}

#[test]
fn missing_resource_leaves_a_null_directory() {
    let res = FakePak(Vec::new());
    let mut l = ResourceLoader::default();
    open_pak(&mut l, &res, "/absent.pak", 0x53);
    assert!(l.f119a.is_none(), "the catch arm leaves f119a null");
}

#[test]
fn a_failed_open_keeps_the_previous_directory() {
    let mut l = ResourceLoader::default();
    open_pak_stream(&mut l, Some(pak_with(&[b"ab"], 1)), 1);
    assert_eq!(l.f119a.as_deref(), Some(&[2i32][..]));
    // A truncated directory (count 3, one length) is swallowed.
    let mut broken = 3i32.to_be_bytes().to_vec();
    broken.extend_from_slice(&9i32.to_be_bytes());
    open_pak_stream(&mut l, Some(broken), 7);
    assert_eq!(l.f119a.as_deref(), Some(&[2i32][..]));
    assert_eq!((l.f120a, l.f121a), (7, 0));
    // A negative count is swallowed too.
    open_pak_stream(&mut l, Some((-1i32).to_be_bytes().to_vec()), 7);
    assert_eq!(l.f119a.as_deref(), Some(&[2i32][..]));
    assert_eq!(l.a.as_ref().map(|s| s.position()), Some(4));
}

#[test]
fn a_short_entry_reads_zeros_past_the_end() {
    let mut bytes = 1i32.to_be_bytes().to_vec();
    bytes.extend_from_slice(&4i32.to_be_bytes());
    bytes.extend_from_slice(&[b'x' ^ 0x53, b'y' ^ 0x53]);
    let mut l = ResourceLoader::default();
    open_pak_stream(&mut l, Some(bytes), 0x53);
    assert_eq!(read_entry(&mut l), vec![b'x' as i8, b'y' as i8, 0, 0]);
    assert_eq!(l.f121a, 1);
}

#[test]
fn the_key_is_applied_to_signed_bytes() {
    let mut l = ResourceLoader::default();
    open_pak_stream(&mut l, Some(pak_with(&[&[0x00, 0xFF, 0x80]], 0x53)), 0x53);
    assert_eq!(read_entry(&mut l), vec![0x00, -1, -128]);
}

#[test]
fn skipping_stops_at_the_end_of_the_directory() {
    let mut l = ResourceLoader::default();
    open_pak_stream(&mut l, Some(pak_with(&[b"a", b"bb"], 0)), 0);
    skip_entries(&mut l, 5);
    assert_eq!(l.f121a, 2);
    assert_eq!(l.a.as_ref().map(|s| s.position()), Some(12 + 3));
    skip_entries(&mut l, -3);
    assert_eq!(l.f121a, 2);
}

#[test]
fn skipping_without_a_directory_does_nothing() {
    let mut l = ResourceLoader::default();
    skip_entries(&mut l, 2);
    assert_eq!(l.f121a, 0);
    assert!(l.a.is_none());
    open_pak_stream(&mut l, None, 9);
    assert!(l.f119a.is_none());
    skip_entries(&mut l, 2);
    assert_eq!(l.f121a, 0);
}

#[test]
fn close_without_a_stream_still_clears() {
    let mut l = ResourceLoader::default();
    l.f121a = 3;
    close_pak(&mut l);
    assert!(l.a.is_none() && l.f119a.is_none());
    assert_eq!(l.f121a, 3);
}

#[test]
fn the_loader_reads_what_the_strict_reader_parses() {
    let bytes = pak_with(&[b"first entry", b"", b"third", &[0x00, 0xFF, 0x80, 0x7F]], 0x53);
    let strict = Pak::parse(&bytes).expect("well-formed pack");
    let mut l = ResourceLoader::default();
    open_pak_stream(&mut l, Some(bytes.clone()), 0x53);
    let dir: Vec<i32> = strict.entries().iter().map(|e| e.len() as i32).collect();
    assert_eq!(l.f119a.as_deref(), Some(&dir[..]));
    for e in strict.entries() {
        assert_eq!(read_entry(&mut l), e.iter().map(|&b| b as i8).collect::<Vec<_>>());
    }
    assert_eq!(l.a.as_ref().map(|s| s.position()), Some(bytes.len()));
}

#[test]
fn skipping_reaches_each_entry() {
    let bytes = pak_with(&[b"zero", b"one", b"", b"three"], 0x53);
    let strict = Pak::parse(&bytes).expect("well-formed pack");
    for k in 0..strict.len() {
        let mut l = ResourceLoader::default();
        open_pak_stream(&mut l, Some(bytes.clone()), 0x53);
        skip_entries(&mut l, k as i32);
        assert_eq!(l.f121a, k as i32);
        let e = read_entry(&mut l);
        assert_eq!(e, strict.entries()[k].iter().map(|&b| b as i8).collect::<Vec<_>>());
    }
}
