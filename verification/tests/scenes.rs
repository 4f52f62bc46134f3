use rage_of_mages::scenes::Scenes;
use rage_of_mages::FormatError;

fn push_i32(out: &mut Vec<u8>, v: i32) {
    out.extend_from_slice(&v.to_be_bytes());
}

/// Append one group (`rows`, then each row as `len; ints`).
fn push_group(out: &mut Vec<u8>, rows: &[&[i32]]) {
    push_i32(out, rows.len() as i32);
    for row in rows {
        push_i32(out, row.len() as i32);
        for &v in *row {
            push_i32(out, v);
        }
    }
}

/// Build a synthetic blob of scenes; each scene is three groups.
fn build(scenes: &[[&[&[i32]]; 3]]) -> Vec<u8> {
    let mut out = Vec::new();
    for scene in scenes {
        for group in scene {
            push_group(&mut out, group);
        }
    }
    out
}

#[test]
fn parses_scenes_of_three_ragged_groups_to_exact_eof() {
    let blob = build(&[
        [&[&[0, 3, 0, 8], &[7]], &[], &[&[1, -2, 3]]],
        [&[], &[&[42]], &[]],
    ]);
    let s = Scenes::parse(&blob).unwrap();
    assert_eq!(s.len(), 2);
    let scene0 = s.get(0).unwrap();
    assert_eq!(scene0[0], vec![vec![0, 3, 0, 8], vec![7]]);
    assert!(scene0[1].is_empty());
    assert_eq!(scene0[2], vec![vec![1, -2, 3]]);
    let scene1 = s.get(1).unwrap();
    assert_eq!(scene1[1], vec![vec![42]]);
    assert_eq!(s.get(2), None);
}

#[test]
fn empty_blob_is_zero_scenes() {
    assert!(Scenes::parse(&[]).unwrap().is_empty());
}

#[test]
fn rejects_truncation_mid_scene() {
    let blob = build(&[[&[&[1, 2]], &[&[3]], &[]]]);
    // Cut one byte off the final group's rows word.
    assert!(matches!(
        Scenes::parse(&blob[..blob.len() - 1]),
        Err(FormatError::Truncated { .. })
    ));
    // Cut a whole trailing group: the scene is no longer three groups.
    assert!(matches!(
        Scenes::parse(&blob[..blob.len() - 4]),
        Err(FormatError::Truncated { .. })
    ));
}

#[test]
fn rejects_trailing_bytes_that_do_not_tile_into_a_scene() {
    let mut blob = build(&[[&[], &[], &[]]]);
    blob.extend_from_slice(&[0, 0]); // 2 bytes cannot start a new scene
    assert!(matches!(
        Scenes::parse(&blob),
        Err(FormatError::Truncated { .. })
    ));
}

#[test]
fn rejects_negative_row_count_and_row_length() {
    let mut blob = build(&[[&[&[5]], &[], &[]]]);
    blob[0] = 0xFF; // group 0's rows word sign bit
    assert_eq!(
        Scenes::parse(&blob),
        Err(FormatError::Invalid {
            at: 0,
            reason: "negative row count in scenes group",
        })
    );

    let mut blob = build(&[[&[&[5]], &[], &[]]]);
    blob[4] = 0xFF; // row 0's len word sign bit
    assert_eq!(
        Scenes::parse(&blob),
        Err(FormatError::Invalid {
            at: 4,
            reason: "negative row length in scenes group",
        })
    );
}

#[test]
fn every_scene_holds_three_groups_and_tiles_exactly() {
    let blob = build(&[[&[&[9]], &[&[], &[1, 2]], &[]], [&[], &[], &[&[3]]]]);
    let s = Scenes::parse(&blob).unwrap();
    assert_eq!(s.scenes().len(), 2);
    for scene in s.scenes() {
        assert_eq!(scene.len(), 3);
    }
    assert_eq!(s.get(0).unwrap()[1], vec![vec![], vec![1, 2]]);
}

#[test]
fn truncated_row_reports_the_missing_int() {
    // rows=1, len=2, one int present, then EOF: the second int is at 12.
    let mut blob = Vec::new();
    push_i32(&mut blob, 1);
    push_i32(&mut blob, 2);
    push_i32(&mut blob, 7);
    assert_eq!(
        Scenes::parse(&blob),
        Err(FormatError::Truncated { at: 12, needed: 4, have: 0 })
    );
}

#[test]
fn a_parsed_file_is_its_scenes_written_back() {
    let blob = build(&[
        [&[&[5, -1], &[]], &[&[i32::MIN, i32::MAX]], &[]],
        [&[], &[], &[&[9, 9, 9]]],
    ]);
    let s = Scenes::parse(&blob).unwrap();
    let mut written = Vec::new();
    for scene in s.scenes() {
        for group in scene.iter() {
            let rows: Vec<&[i32]> = group.iter().map(|r| r.as_slice()).collect();
            push_group(&mut written, &rows);
        }
    }
    assert_eq!(written, blob);
}
