//! The constant tables `m`'s field initializers hold, each with the
//! function that builds it.
use crate::screens::rows;
use vstd::prelude::*;

verus! {

/// The rows of a three-level int table as sequences.
pub open spec fn rows3(v: Vec<Vec<Vec<i32>>>) -> Seq<Seq<Seq<i32>>> {
    v@.map_values(|r: Vec<Vec<i32>>| rows(r))
}

/// `m.f209h` — the 15 ambient-sound pattern rows.
pub open spec fn ambient_patterns() -> Seq<Seq<i32>> {
    seq![
        seq![52, 52, 52, 54, 54, 54, 55, 55, 55, 55, 56],
        seq![55, 55, 55, 55, 56, 50, 56],
        seq![55, 55, 55, 55, 53, 53, 52, 52, 52, 53, 53, 53, 53, 53, 53],
        seq![55, 55, 55, 55, 53, 53, 52, 52, 52, 56, 56, 56],
        seq![51, 51, 51, 54, 54, 54, 55, 55, 55, 50, 50, 50, 51, 51],
        seq![52, 52, 52, 51, 51, 55, 55, 51],
        seq![51, 51, 51, 51, 51, 51, 52, 51, 51, 56, 56, 56, 51, 51, 55, 55, 55],
        seq![52, 52, 52, 51, 53, 53, 51, 51, 51, 50],
        seq![52, 54, 54, 54, 55, 55, 55, 51, 51],
        seq![51, 51, 51, 51, 51, 51, 55],
        seq![51, 51, 51, 52, 52, 52, 52, 52, 52, 56],
        seq![35, 54, 54, 54],
        seq![52, 55, 51, 51, 51],
        seq![55, 56, 50, 55, 54, 52],
        seq![51, 49, 51, 51, 55, 51, 49, 51, 51, 55, 51, 49, 51, 51, 55],
    ]
}

/// Builds [`ambient_patterns`].
pub fn ambient_patterns_table() -> (r: Vec<Vec<i32>>)
    ensures
        rows(r) == ambient_patterns(),
{
    let r = vec![
        vec![52, 52, 52, 54, 54, 54, 55, 55, 55, 55, 56],
        vec![55, 55, 55, 55, 56, 50, 56],
        vec![55, 55, 55, 55, 53, 53, 52, 52, 52, 53, 53, 53, 53, 53, 53],
        vec![55, 55, 55, 55, 53, 53, 52, 52, 52, 56, 56, 56],
        vec![51, 51, 51, 54, 54, 54, 55, 55, 55, 50, 50, 50, 51, 51],
        vec![52, 52, 52, 51, 51, 55, 55, 51],
        vec![51, 51, 51, 51, 51, 51, 52, 51, 51, 56, 56, 56, 51, 51, 55, 55, 55],
        vec![52, 52, 52, 51, 53, 53, 51, 51, 51, 50],
        vec![52, 54, 54, 54, 55, 55, 55, 51, 51],
        vec![51, 51, 51, 51, 51, 51, 55],
        vec![51, 51, 51, 52, 52, 52, 52, 52, 52, 56],
        vec![35, 54, 54, 54],
        vec![52, 55, 51, 51, 51],
        vec![55, 56, 50, 55, 54, 52],
        vec![51, 49, 51, 51, 55, 51, 49, 51, 51, 55, 51, 49, 51, 51, 55],
    ];
    assert(rows(r) =~~= ambient_patterns());
    r
}

/// `m.f234j` — 27 rows, three of them non-empty.
pub open spec fn event_keys() -> Seq<Seq<i32>> {
    Seq::new(
        27,
        |i: int|
            if i == 1 {
                seq![10, 26]
            } else if i == 4 {
                seq![10, 56]
            } else if i == 14 {
                seq![8, 27]
            } else {
                Seq::empty()
            },
    )
}

/// Builds [`event_keys`].
pub fn event_keys_table() -> (r: Vec<Vec<i32>>)
    ensures
        rows(r) == event_keys(),
{
    let mut r: Vec<Vec<i32>> = Vec::new();
    let mut i: usize = 0;
    while i < 27
        invariant
            0 <= i <= 27,
            r@.len() == i,
            rows(r) =~~= event_keys().subrange(0, i as int),
        decreases 27 - i,
    {
        let row: Vec<i32> = if i == 1 {
            vec![10, 26]
        } else if i == 4 {
            vec![10, 56]
        } else if i == 14 {
            vec![8, 27]
        } else {
            Vec::new()
        };
        r.push(row);
        proof {
            assert(r@[i as int]@ =~= event_keys()[i as int]);
            assert(rows(r) =~~= event_keys().subrange(0, i + 1));
        }
        i = i + 1;
    }
    assert(event_keys().subrange(0, 27) =~= event_keys());
    r
}

/// `m.f251o` — the 46-entry glyph remap row.
pub open spec fn glyph_remap() -> Seq<i8> {
    seq![
        26, 44, 46, 33, 47, 48, 27, 28, 29, 30, 31, 36, 37, 38, 39, 40, 41, 42, 43, 36, 37, 38,
        39, 40, 41, 42, 43, 49, 50, 51, 60, 61, 52, 53, 55, 32, 56, 45, 36, 58, 54, 59, 26, 57,
        35, 34,
    ]
}

/// Builds [`glyph_remap`].
pub fn glyph_remap_table() -> (r: Vec<i8>)
    ensures
        r@ == glyph_remap(),
{
    let r: Vec<i8> = vec![
        26, 44, 46, 33, 47, 48, 27, 28, 29, 30, 31, 36, 37, 38, 39, 40, 41, 42, 43, 36, 37, 38,
        39, 40, 41, 42, 43, 49, 50, 51, 60, 61, 52, 53, 55, 32, 56, 45, 36, 58, 54, 59, 26, 57,
        35, 34,
    ];
    assert(r@ =~= glyph_remap());
    r
}

/// `m.f252k` — 13 rows of `{3, 3, 3, 5}`.
pub open spec fn stat_rows() -> Seq<Seq<i32>> {
    Seq::new(13, |i: int| seq![3, 3, 3, 5])
}

/// Builds [`stat_rows`].
pub fn stat_rows_table() -> (r: Vec<Vec<i32>>)
    ensures
        rows(r) == stat_rows(),
{
    let mut r: Vec<Vec<i32>> = Vec::new();
    let mut i: usize = 0;
    while i < 13
        invariant
            0 <= i <= 13,
            r@.len() == i,
            rows(r) =~~= stat_rows().subrange(0, i as int),
        decreases 13 - i,
    {
        let row: Vec<i32> = vec![3, 3, 3, 5];
        assert(row@ =~= seq![3i32, 3, 3, 5]);
        r.push(row);
        proof {
            assert(r@[i as int]@ =~= stat_rows()[i as int]);
            assert(rows(r) =~~= stat_rows().subrange(0, i + 1));
        }
        i = i + 1;
    }
    assert(stat_rows().subrange(0, 13) =~= stat_rows());
    r
}

/// `m.f253l` — 13 rows.
pub open spec fn level_rows() -> Seq<Seq<i32>> {
    seq![
        seq![1, 1, 0, 1, 1, 0, 1, 2, 0],
        seq![1, 1, 1, 1, 0],
        seq![1, 1, 2, 1, 0],
        seq![1, 1, 3, 1, 0],
        seq![1, 1, 4, 1, 0],
        seq![1, 1, 5, 1, 0],
        seq![1, 1, 6, 1, 0],
        seq![1, 1, 7, 1, 0],
        seq![1, 1, 8, 1, 1, 0, 8, 2, 0],
        seq![1, 1, 9, 1, 1, 0, 9, 2, 0],
        seq![1, 1, 10, 1, 0],
        seq![1, 1, 11, 1, 0],
        seq![1, 1, 12, 1, 0],
    ]
}

/// Builds [`level_rows`].
pub fn level_rows_table() -> (r: Vec<Vec<i32>>)
    ensures
        rows(r) == level_rows(),
{
    let r = vec![
        vec![1, 1, 0, 1, 1, 0, 1, 2, 0],
        vec![1, 1, 1, 1, 0],
        vec![1, 1, 2, 1, 0],
        vec![1, 1, 3, 1, 0],
        vec![1, 1, 4, 1, 0],
        vec![1, 1, 5, 1, 0],
        vec![1, 1, 6, 1, 0],
        vec![1, 1, 7, 1, 0],
        vec![1, 1, 8, 1, 1, 0, 8, 2, 0],
        vec![1, 1, 9, 1, 1, 0, 9, 2, 0],
        vec![1, 1, 10, 1, 0],
        vec![1, 1, 11, 1, 0],
        vec![1, 1, 12, 1, 0],
    ];
    assert(rows(r) =~~= level_rows());
    r
}

/// `m.f254m` — 13 rows.
pub open spec fn reward_rows() -> Seq<Seq<i32>> {
    seq![
        seq![20, 12],
        seq![30, 12],
        seq![30, 12, 10, 13],
        seq![30, 12, 20, 13],
        seq![30, 12, 30, 9, 30, 6],
        seq![10, 12, 40, 13, 5, 10],
        seq![10, 12, 40, 13, 15, 10],
        seq![5, 12, 45, 13, 40, 10],
        seq![5, 12, 50, 13, 25, 10],
        seq![5, 12, 45, 13, 30, 10],
        seq![5, 12, 45, 13, 40, 10],
        seq![5, 12, 45, 13, 45, 10],
        seq![5, 12, 50, 13, 50, 10],
    ]
}

/// Builds [`reward_rows`].
pub fn reward_rows_table() -> (r: Vec<Vec<i32>>)
    ensures
        rows(r) == reward_rows(),
{
    let r = vec![
        vec![20, 12],
        vec![30, 12],
        vec![30, 12, 10, 13],
        vec![30, 12, 20, 13],
        vec![30, 12, 30, 9, 30, 6],
        vec![10, 12, 40, 13, 5, 10],
        vec![10, 12, 40, 13, 15, 10],
        vec![5, 12, 45, 13, 40, 10],
        vec![5, 12, 50, 13, 25, 10],
        vec![5, 12, 45, 13, 30, 10],
        vec![5, 12, 45, 13, 40, 10],
        vec![5, 12, 45, 13, 45, 10],
        vec![5, 12, 50, 13, 50, 10],
    ];
    assert(rows(r) =~~= reward_rows());
    r
}

/// `m.f273q` — the 4-neighbour step table.
pub open spec fn neighbour_steps() -> Seq<i8> {
    seq![0i8, -1i8, 0, 1, -1i8, 0, 1, 0]
}

/// `m.f276o` — the 8 player colours as RGB rows.
pub open spec fn player_colours() -> Seq<Seq<i32>> {
    seq![
        seq![255, 0, 0],
        seq![124, 124, 124],
        seq![0, 255, 0],
        seq![0, 173, 239],
        seq![0, 0, 255],
        seq![75, 0, 73],
        seq![236, 0, 140],
        seq![242, 151, 34],
    ]
}

/// Builds [`player_colours`].
pub fn player_colours_table() -> (r: Vec<Vec<i32>>)
    ensures
        rows(r) == player_colours(),
{
    let r = vec![
        vec![255, 0, 0],
        vec![124, 124, 124],
        vec![0, 255, 0],
        vec![0, 173, 239],
        vec![0, 0, 255],
        vec![75, 0, 73],
        vec![236, 0, 140],
        vec![242, 151, 34],
    ];
    assert(rows(r) =~~= player_colours());
    r
}

/// `m.f279e` — the per-level scripted-event tables.
pub open spec fn level_events() -> Seq<Seq<Seq<i32>>> {
    seq![
        seq![seq![]],
        seq![seq![27, 1, 5, 2, 0, 22, 1, 8]],
        seq![seq![]],
        seq![seq![]],
        seq![seq![60, 3, 43, 1, 16, 2, 0, 162, 1, 8]],
        seq![seq![]],
        seq![seq![]],
        seq![seq![116, 0, 165, 1, 1, 13, 2, 8]],
        seq![seq![]],
        seq![seq![]],
        seq![seq![]],
        seq![seq![153, 11, 11, 1], seq![154, 3, 80, 3, 81, 8]],
    ]
}

/// Builds [`level_events`].
pub fn level_events_table() -> (r: Vec<Vec<Vec<i32>>>)
    ensures
        rows3(r) == level_events(),
{
    let r: Vec<Vec<Vec<i32>>> = vec![
        vec![vec![]],
        vec![vec![27, 1, 5, 2, 0, 22, 1, 8]],
        vec![vec![]],
        vec![vec![]],
        vec![vec![60, 3, 43, 1, 16, 2, 0, 162, 1, 8]],
        vec![vec![]],
        vec![vec![]],
        vec![vec![116, 0, 165, 1, 1, 13, 2, 8]],
        vec![vec![]],
        vec![vec![]],
        vec![vec![]],
        vec![vec![153, 11, 11, 1], vec![154, 3, 80, 3, 81, 8]],
    ];
    assert(rows3(r) =~~= level_events());
    r
}

/// `m.f280f` — the per-level placement tables.
pub open spec fn level_placements() -> Seq<Seq<Seq<i32>>> {
    seq![
        seq![seq![0, 528, 64, -1i32, 21, 39, -200i32]],
        seq![seq![3, 32, 336, -1i32, -500i32]],
        seq![seq![1, 16, 16, 40, 33], seq![2, 32, 416, -1i32, 15]],
        seq![],
        seq![seq![6, 16, 816, 6, -1i32, 27], seq![7, 32, 32, -1i32, 4], seq![8, 624, 32, -1i32, -700i32]],
        seq![
            seq![9, 288, 208, -1i32, 7, -4000i32],
            seq![10, 384, 288, -1i32, 10, -2000i32],
            seq![11, 560, 416, -1i32, -3000i32],
            seq![12, 304, 416, -1i32, 19, -1000i32],
        ],
        seq![],
        seq![],
        seq![],
        seq![seq![13, 288, 208, -1i32, 5, -10i32], seq![14, 384, 288, -1i32, -5000i32]],
        seq![],
        seq![],
        seq![seq![15, 0, 0, -1i32, -300i32, 15]],
        seq![seq![16, 0, 0, -1i32, 6]],
        seq![],
        seq![],
        seq![seq![26, 0, 0, 60, 10, 7, 40]],
        seq![],
        seq![seq![20, 0, 0, -1i32, 1, -1000i32]],
        seq![seq![17, 0, 0, 116, 22], seq![17, 0, 0, 116, 16], seq![17, 0, 0, 116, 34]],
        seq![seq![21, 0, 0, -1i32, 25, 28], seq![22, 0, 0, -1i32, 10]],
        seq![seq![23, 0, 0, -1i32, 14, 20], seq![24, 0, 0, -1i32, 5]],
        seq![seq![25, 0, 0, -1i32, 11]],
        seq![],
    ]
}

/// Builds [`level_placements`].
pub fn level_placements_table() -> (r: Vec<Vec<Vec<i32>>>)
    ensures
        rows3(r) == level_placements(),
{
    let r: Vec<Vec<Vec<i32>>> = vec![
        vec![vec![0, 528, 64, -1, 21, 39, -200]],
        vec![vec![3, 32, 336, -1, -500]],
        vec![vec![1, 16, 16, 40, 33], vec![2, 32, 416, -1, 15]],
        vec![],
        vec![vec![6, 16, 816, 6, -1, 27], vec![7, 32, 32, -1, 4], vec![8, 624, 32, -1, -700]],
        vec![
            vec![9, 288, 208, -1, 7, -4000],
            vec![10, 384, 288, -1, 10, -2000],
            vec![11, 560, 416, -1, -3000],
            vec![12, 304, 416, -1, 19, -1000],
        ],
        vec![],
        vec![],
        vec![],
        vec![vec![13, 288, 208, -1, 5, -10], vec![14, 384, 288, -1, -5000]],
        vec![],
        vec![],
        vec![vec![15, 0, 0, -1, -300, 15]],
        vec![vec![16, 0, 0, -1, 6]],
        vec![],
        vec![],
        vec![vec![26, 0, 0, 60, 10, 7, 40]],
        vec![],
        vec![vec![20, 0, 0, -1, 1, -1000]],
        vec![vec![17, 0, 0, 116, 22], vec![17, 0, 0, 116, 16], vec![17, 0, 0, 116, 34]],
        vec![vec![21, 0, 0, -1, 25, 28], vec![22, 0, 0, -1, 10]],
        vec![vec![23, 0, 0, -1, 14, 20], vec![24, 0, 0, -1, 5]],
        vec![vec![25, 0, 0, -1, 11]],
        vec![],
    ];
    assert(rows3(r) =~~= level_placements());
    r
}

/// The alpha nibble of column `c` of the baked gradient, shifted into the
/// top of a 4444 pixel: `(15 - c) << 12` as a `short`.
pub open spec fn gradient_pixel(c: int) -> i16 {
    if 15 - c >= 8 {
        ((15 - c) * 4096 - 0x1_0000) as i16
    } else {
        ((15 - c) * 4096) as i16
    }
}

/// `m.f233b` — 20 rows of the 16-step gradient.
pub open spec fn alpha_gradient() -> Seq<i16> {
    Seq::new(320, |k: int| gradient_pixel(k % 16))
}

/// Bakes [`alpha_gradient`]: row by row, the nibble `s` falls from 15 and
/// each pixel is `s << 12` narrowed to a `short`.
pub fn alpha_gradient_table() -> (r: Vec<i16>)
    ensures
        r@ == alpha_gradient(),
{
    let mut r: Vec<i16> = vec![0i16; 320];
    let mut i: usize = 0;
    while i < 20
        invariant
            0 <= i <= 20,
            r@.len() == 320,
            forall|k: int| 0 <= k < 16 * i ==> r@[k] == gradient_pixel(k % 16),
        decreases 20 - i,
    {
        let mut s: i32 = 15;
        let mut c: usize = 0;
        while c < 16
            invariant
                0 <= i < 20,
                0 <= c <= 16,
                s == 15 - c,
                r@.len() == 320,
                forall|k: int| 0 <= k < 16 * i + c ==> r@[k] == gradient_pixel(k % 16),
            decreases 16 - c,
        {
            let v: i32 = s * 4096;
            let px: i16 = if v >= 0x8000 {
                (v - 0x1_0000) as i16
            } else {
                v as i16
            };
            r.set(i * 16 + c, px);
            proof {
                assert((16 * i + c) % 16 == c as int) by (nonlinear_arith)
                    requires
                        0 <= c < 16,
                        i >= 0,
                ;
            }
            s = s - 1;
            c = c + 1;
        }
        i = i + 1;
    }
    assert(r@ =~= alpha_gradient());
    r
}

} // verus!
