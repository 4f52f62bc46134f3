use rage_of_mages::common::{aj_init, aj_next_record, aj_parse, aj_read_group};
use rage_of_mages::jio::parse_int_radix10;
use rage_of_mages::resource::Resources;
use rage_of_mages::text::ae_open_stream;

fn utf_record(s: &str) -> Vec<u8> {
    let mut out = Vec::new();
    out.extend_from_slice(&(s.len() as u16).to_be_bytes());
    out.extend_from_slice(s.as_bytes());
    out
}

#[test]
fn groups_parse_counts_and_skip_comments() {
    let mut bytes = Vec::new();
    for rec in ["2", "// header", "first", "second", "1", "only"] {
        bytes.extend(utf_record(rec));
    }
    let mut s = ae_open_stream(Some(bytes));
    let count = parse_int_radix10(&aj_next_record(&mut s)).unwrap();
    let mut g1 = vec![String::new(); count as usize];
    aj_read_group(&mut s, &mut g1);
    assert_eq!(g1, vec!["first".to_string(), "second".to_string()]);
    let count2 = parse_int_radix10(&aj_next_record(&mut s)).unwrap();
    let mut g2 = vec![String::new(); count2 as usize];
    aj_read_group(&mut s, &mut g2);
    assert_eq!(g2, vec!["only".to_string()]);
}

/// 28 groups: group `i` holds `i % 3` records named `g{i}.{k}`, with a
/// comment record before every count.
fn common_utf() -> Vec<u8> {
    let mut bytes = Vec::new();
    for i in 0..28 {
        bytes.extend(utf_record("// next group"));
        bytes.extend(utf_record(&format!("{}", i % 3)));
        for k in 0..(i % 3) {
            bytes.extend(utf_record(&format!("g{i}.{k}")));
        }
    }
    bytes
}

#[test]
fn a_whole_table_parses_in_field_order() {
    let t = aj_parse(Some(common_utf())).expect("well-formed table");
    assert!(t.a.is_empty());
    assert_eq!(t.b, vec!["g1.0".to_string()]);
    assert_eq!(t.c, vec!["g2.0".to_string(), "g2.1".to_string()]);
    assert_eq!(t.q, vec!["g16.0".to_string()]);
    assert_eq!(t.A, vec!["g26.0".to_string(), "g26.1".to_string()]);
    assert!(t.B.is_empty());
}

#[test]
fn a_missing_or_broken_table_is_where_the_game_dies() {
    assert!(aj_parse(None).is_none());
    let mut short = common_utf();
    short.truncate(short.len() - 3);
    assert!(aj_parse(Some(short)).is_none());
    let mut bad = utf_record("x");
    bad.extend(common_utf());
    assert!(aj_parse(Some(bad)).is_none());
    let neg = utf_record("-1");
    assert!(aj_parse(Some(neg)).is_none());
}

struct OneFile(Vec<u8>);
impl Resources for OneFile {
    fn resource_as_stream(&self, name: &str) -> Option<Vec<u8>> {
        if name == "/res/common.utf" {
            Some(self.0.clone())
        } else {
            None
        }
    }
}

#[test]
fn aj_init_reads_res_common_utf() {
    let t = aj_init(&OneFile(common_utf()));
    assert_eq!(t.b, vec!["g1.0".to_string()]);
    // A missing file is where the game dies; the payload test reports it.
    assert!(aj_parse(None).is_none());
}
