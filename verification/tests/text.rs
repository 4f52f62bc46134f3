use rage_of_mages::game::ImageInfo;
use rage_of_mages::jio::DataInput;
use rage_of_mages::text::{
    ae_close_stream, ae_init, ae_line_height, ae_open_stream, ae_read_font_descriptor,
    ae_read_record, ae_set_font,
};

fn records(recs: &[&str]) -> Vec<u8> {
    let mut out = Vec::new();
    for rec in recs {
        out.extend_from_slice(&(rec.len() as u16).to_be_bytes());
        out.extend_from_slice(rec.as_bytes());
    }
    out
}

const ATLAS: ImageInfo = ImageInfo { width: 8, height: 8 };

fn descriptor() -> Vec<i8> {
    records(&["AB!", "7", "9", "16", "5 6 4 "])
        .into_iter()
        .map(|b| b as i8)
        .collect()
}

#[test]
fn descriptor_parses_the_five_records() {
    let mut t = ae_init();
    assert_eq!((t.j, t.k), (200000, 200000));
    ae_set_font(&mut t, &descriptor(), ATLAS);
    assert_eq!(t.e, 3);
    assert_eq!(t.f10a, 7);
    assert_eq!(t.b, 9);
    assert_eq!(t.c, 16);
    assert_eq!(t.f12a.as_deref(), Some(&[5, 6, 4][..]));
    assert_eq!(t.d, 2);
    assert!(t.a.is_some());
    assert_eq!(t.f11a.as_deref(), Some(&[0x41u16, 0x42, 0x21][..]));
}

#[test]
fn setting_a_font_binds_its_atlas() {
    let mut t = ae_init();
    assert_eq!(t.a, None);
    ae_set_font(&mut t, &descriptor(), ImageInfo { width: 128, height: 64 });
    assert_eq!(t.a, Some(ImageInfo { width: 128, height: 64 }));
    // A second font replaces the atlas even where its descriptor is empty.
    ae_set_font(&mut t, &[], ATLAS);
    assert_eq!(t.a, Some(ATLAS));
    assert_eq!(t.e, 3);
}

#[test]
fn decimals_are_read_without_a_digit_check() {
    // "1a" reads as 10*1 + ('a' - '0') = 59; "-" reads as '-' - '0' = -3.
    let bytes: Vec<i8> = records(&["xy", "1a", "-", "99999999999", "12 3"])
        .into_iter()
        .map(|b| b as i8)
        .collect();
    let mut t = ae_init();
    ae_set_font(&mut t, &bytes, ATLAS);
    assert_eq!(t.f10a, 59);
    assert_eq!(t.b, -3);
    // 99999999999 mod 2^32 = 1215752191, as a Java int.
    assert_eq!(t.c, 1215752191);
    assert_eq!(t.f12a.as_deref(), Some(&[12, 3][..]));
}

#[test]
fn advances_past_the_record_end_read_as_zero() {
    let bytes: Vec<i8> = records(&["abcd", "1", "2", "3", "8"])
        .into_iter()
        .map(|b| b as i8)
        .collect();
    let mut t = ae_init();
    ae_set_font(&mut t, &bytes, ATLAS);
    assert_eq!(t.f12a.as_deref(), Some(&[8, 0, 0, 0][..]));
    assert_eq!(t.d, 3);
}

#[test]
fn a_truncated_descriptor_keeps_what_it_read() {
    let bytes: Vec<i8> = records(&["abc", "5"]).into_iter().map(|b| b as i8).collect();
    let mut t = ae_init();
    t.b = 77;
    ae_set_font(&mut t, &bytes, ATLAS);
    assert_eq!(t.e, 3);
    assert_eq!(t.f10a, 5);
    assert_eq!(t.b, 77);
    assert_eq!(t.f12a.as_deref(), Some(&[0, 0, 0][..]));
    assert_eq!(t.d, 2);
}

#[test]
fn a_later_empty_descriptor_keeps_the_earlier_glyphs() {
    let mut t = ae_init();
    ae_set_font(&mut t, &descriptor(), ATLAS);
    ae_set_font(&mut t, &[], ATLAS);
    assert_eq!(t.e, 3);
    assert_eq!(t.d, 2);
    let mut s = DataInput::new(None);
    ae_read_font_descriptor(&mut t, &mut s);
    assert_eq!(t.f10a, 7);
}

#[test]
fn the_glyph_string_counts_code_units() {
    // "Ж" (one unit) and U+10437 (two units, a CESU pair).
    let mut bytes = vec![0x00, 0x08, 0xD0, 0x96, 0xED, 0xA0, 0x81, 0xED, 0xB0, 0xB7];
    bytes.extend(records(&["1", "1", "1", "4 5 6"]));
    let mut s = ae_open_stream(Some(bytes));
    let mut t = ae_init();
    ae_read_font_descriptor(&mut t, &mut s);
    assert_eq!(t.e, 3);
    assert_eq!(t.f11a.as_deref(), Some(&[0x0416u16, 0xD801, 0xDC37][..]));
    assert_eq!(t.f12a.as_deref(), Some(&[4, 5, 6][..]));
}

#[test]
fn line_height_wraps() {
    let mut t = ae_init();
    t.b = 12;
    t.g = 3;
    assert_eq!(ae_line_height(&t), 15);
    t.b = i32::MAX;
    t.g = 1;
    assert_eq!(ae_line_height(&t), i32::MIN);
}

#[test]
fn records_read_until_the_first_failure() {
    let mut s = ae_open_stream(Some(records(&["one", "two"])));
    assert_eq!(ae_read_record(&mut s).as_deref(), Some("one"));
    assert_eq!(ae_read_record(&mut s).as_deref(), Some("two"));
    assert_eq!(ae_read_record(&mut s), None);
    ae_close_stream(&mut s);
    let mut n = ae_open_stream(None);
    assert_eq!(ae_read_record(&mut n), None);
}
