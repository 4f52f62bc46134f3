use rage_of_mages::int_table::IntTable;
use rage_of_mages::resource::Resources;
use rage_of_mages::trig::{o_abs, o_cos, o_init, o_load, o_nearest_cos_index, o_scale, o_sin};

struct NoResources;
impl Resources for NoResources {
    fn resource_as_stream(&self, _name: &str) -> Option<Vec<u8>> {
        None
    }
}

fn table(base: i16) -> Vec<u8> {
    let mut out = Vec::new();
    for i in 0..90i16 {
        out.extend_from_slice(&(base + i).to_be_bytes());
    }
    out
}

struct FakeSincos;
impl Resources for FakeSincos {
    fn resource_as_stream(&self, name: &str) -> Option<Vec<u8>> {
        Some(table(if name.ends_with("sin.int") { 0 } else { 1000 }))
    }
}

#[test]
fn missing_resource_takes_the_catch_arm() {
    let t = o_init(&NoResources);
    assert!(!t.f312a);
    assert_eq!(o_sin(&t, 45), 0);
}

#[test]
fn quadrant_folding_matches_the_java_sign_pattern() {
    let t = o_init(&FakeSincos);
    assert!(t.f312a);
    assert_eq!(o_sin(&t, 10), 10);
    assert_eq!(o_sin(&t, 100), 1010);
    assert_eq!(o_sin(&t, 190), -10);
    assert_eq!(o_sin(&t, 280), -1010);
    assert_eq!(o_cos(&t, 10), 1010);
    assert_eq!(o_cos(&t, 100), -10);
    assert_eq!(o_cos(&t, 190), -1010);
    assert_eq!(o_cos(&t, 280), 10);
    assert_eq!(o_sin(&t, -350), o_sin(&t, 10));
    assert_eq!(o_sin(&t, 730), o_sin(&t, 10));
    assert_eq!(o_scale(), 10000);
}

#[test]
fn a_short_table_fills_what_it_read_and_marks_the_tables_unavailable() {
    let mut sin = table(0);
    sin.truncate(10); // five shorts
    let t = o_load(Some(sin), Some(table(1000)));
    assert!(!t.f312a);
    assert_eq!(&t.a[..5], &[0, 1, 2, 3, 4]);
    assert_eq!(t.a[5], 0);
    // The cosine entry of the round whose sine read failed is never read.
    assert_eq!(&t.b[..5], &[1000, 1001, 1002, 1003, 1004]);
    assert_eq!(t.b[5], 0);
    assert_eq!(o_cos(&t, 0), 0);
}

#[test]
fn normalization_covers_the_whole_short_range() {
    let t = o_load(Some(table(0)), Some(table(1000)));
    assert_eq!(o_sin(&t, i16::MIN), o_sin(&t, ((i16::MIN as i32).rem_euclid(360)) as i16));
    assert_eq!(o_cos(&t, i16::MAX), o_cos(&t, ((i16::MAX as i32).rem_euclid(360)) as i16));
    assert_eq!(o_sin(&t, 359), -1089);
    assert_eq!(o_cos(&t, 359), 89);
}

#[test]
fn abs_wraps_at_int_min_like_java() {
    assert_eq!(o_abs(-5), 5);
    assert_eq!(o_abs(7), 7);
    assert_eq!(o_abs(i32::MIN), i32::MIN);
}

#[test]
fn nearest_cos_index_takes_the_first_minimum() {
    let t = o_load(Some(table(0)), Some(table(1000)));
    assert_eq!(o_nearest_cos_index(&t, 1042), 42);
    assert_eq!(o_nearest_cos_index(&t, 0), 0);
    assert_eq!(o_nearest_cos_index(&t, 5000), 89);
    // Ties keep the earlier entry: 1000 and 1001 are both 0.5 away from nothing,
    // but a table with repeats resolves to the first.
    let mut rep = Vec::new();
    for _ in 0..90 {
        rep.extend_from_slice(&7i16.to_be_bytes());
    }
    let t2 = o_load(Some(table(0)), Some(rep));
    assert_eq!(o_nearest_cos_index(&t2, 7), 0);
    // Every entry 100000 or more away: the index stays 0.
    assert_eq!(o_nearest_cos_index(&t, i32::MAX), 0);
}

#[test]
fn cosine_is_the_sine_a_quarter_turn_on() {
    let t = o_load(Some(table(0)), Some(table(1000)));
    for s in -720i16..=720 {
        assert_eq!(o_cos(&t, s), o_sin(&t, s + 90), "s = {s}");
        assert_eq!(o_sin(&t, s), o_sin(&t, s + 360), "s = {s}");
    }
}

#[test]
fn the_table_load_agrees_with_the_int_table_reader() {
    let sin: Vec<u8> = (0..95i16).flat_map(|i| (i * 111 - 5000).to_be_bytes()).collect();
    let cos = table(1000);
    let t = o_load(Some(sin.clone()), Some(cos.clone()));
    assert!(t.f312a);
    assert_eq!(&t.a[..], &IntTable::parse(&sin).unwrap().values()[..90]);
    assert_eq!(&t.b[..], &IntTable::parse(&cos).unwrap().values()[..90]);
}
