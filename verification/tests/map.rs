use rage_of_mages::map::LevelMap;
use rage_of_mages::FormatError;

/// Build a synthetic, hand-authored map blob.
fn build(width: u16, height: u16, cells: &[u8]) -> Vec<u8> {
    let mut out = Vec::new();
    out.extend_from_slice(&width.to_le_bytes());
    out.extend_from_slice(&height.to_le_bytes());
    out.extend_from_slice(cells);
    out
}

#[test]
fn parses_a_row_major_grid_with_le_header() {
    // 3 wide, 2 tall: rows [128,129,130] then [140,141,142].
    let blob = build(3, 2, &[128, 129, 130, 140, 141, 142]);
    let map = LevelMap::parse(&blob).unwrap();
    assert_eq!((map.width(), map.height()), (3, 2));
    assert_eq!(map.cells(), &[128, 129, 130, 140, 141, 142]);
    assert_eq!(map.cell(0, 0), Some(128));
    assert_eq!(map.cell(2, 0), Some(130));
    assert_eq!(map.cell(0, 1), Some(140));
    assert_eq!(map.cell(2, 1), Some(142));
}

#[test]
fn cell_getter_rejects_out_of_range_coordinates() {
    let map = LevelMap::parse(&build(2, 1, &[150, 151])).unwrap();
    assert_eq!(map.cell(2, 0), None);
    assert_eq!(map.cell(0, 1), None);
}

#[test]
fn header_is_little_endian() {
    // width 0x0102 stored low byte first: 02 01.
    let mut blob = vec![0x02, 0x01, 0x01, 0x00];
    blob.resize(4 + 0x0102, 128u8);
    let map = LevelMap::parse(&blob).unwrap();
    assert_eq!(map.width(), 0x0102);
    assert_eq!(map.height(), 1);
}

#[test]
fn rejects_a_blob_one_byte_short() {
    let blob = build(3, 2, &[128, 129, 130, 140, 141, 142]);
    assert_eq!(
        LevelMap::parse(&blob[..blob.len() - 1]),
        Err(FormatError::Invalid {
            at: 0,
            reason: "map blob length is not 4 + width*height",
        })
    );
}

#[test]
fn rejects_a_blob_one_byte_long() {
    let mut blob = build(2, 2, &[128, 129, 130, 131]);
    blob.push(0x99);
    assert_eq!(
        LevelMap::parse(&blob),
        Err(FormatError::Invalid {
            at: 0,
            reason: "map blob length is not 4 + width*height",
        })
    );
}

#[test]
fn rejects_a_truncated_header() {
    assert!(matches!(
        LevelMap::parse(&[0x03]),
        Err(FormatError::Truncated { .. })
    ));
    assert!(matches!(
        LevelMap::parse(&[0x03, 0x00, 0x02]),
        Err(FormatError::Truncated { .. })
    ));
}

#[test]
fn truncated_header_reports_offset_need_and_have() {
    assert_eq!(
        LevelMap::parse(&[0x03]),
        Err(FormatError::Truncated { at: 0, needed: 2, have: 1 })
    );
    assert_eq!(
        LevelMap::parse(&[0x03, 0x00, 0x02]),
        Err(FormatError::Truncated { at: 2, needed: 2, have: 1 })
    );
}

#[test]
fn empty_grid_is_four_header_bytes() {
    let map = LevelMap::parse(&build(0, 5, &[])).unwrap();
    assert_eq!((map.width(), map.height()), (0, 5));
    assert!(map.cells().is_empty());
    assert_eq!(map.cell(0, 0), None);
}

#[test]
fn cloned_map_keeps_its_cells() {
    let map = LevelMap::parse(&build(2, 2, &[1, 2, 3, 4])).unwrap();
    let copy = map.clone();
    assert_eq!(copy, map);
    assert_eq!(copy.cell(1, 1), Some(4));
}
