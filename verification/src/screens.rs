//! Class `g` — a screen/overlay object pushed on the game canvas's screen
//! stack; 22 instances are built at boot with distinct kinds. Only the
//! constructor is modelled: the field initializers, then the per-kind arm.
pub mod g_tables;

use crate::game::Unmodeled;
use vstd::prelude::*;

verus! {

/// The number of level-select flags a kind-8 screen allocates.
pub const LEVEL_FLAGS: usize = 280;

/// One `g` instance — the fields the constructor and the field initializers
/// touch.
#[derive(Debug, Clone)]
pub struct GScreen {
    /// `g.b` — the screen kind selector (constructor argument).
    pub b: i32,
    /// `g.f56h` — zeroed by the constructor.
    pub f56h: i32,
    /// `g.f57i` — zeroed by the constructor.
    pub f57i: i32,
    /// `g.j` — zeroed by the constructor.
    pub j: i32,
    /// `g.f67a` — the kind-8 (level select) 280-slot flag array.
    pub f67a: Option<Vec<i8>>,
    /// `g.x` / `g.y` / `g.z` / `g.A` / `g.B` / `g.C` — kind-8 cursor/bounds
    /// state.
    pub x: i32,
    pub y: i32,
    pub z: i32,
    pub a_upper: i32,
    pub b_upper: i32,
    pub c_upper: i32,
    /// `g.f65h` — 13 map-node coordinates.
    pub f65h: Vec<Vec<i32>>,
    /// `g.f68k` — init true.
    pub f68k: bool,
    /// `g.G` / `g.H` — init 0.
    pub g_upper: i32,
    pub h_upper: i32,
    /// `g.f72a` — empty at boot.
    pub f72a: Vec<Unmodeled>,
    /// `g.f76i` — 16 sprite-run descriptors.
    pub f76i: Vec<Vec<i32>>,
    /// `g.f83q` — `int[5]`.
    pub f83q: Vec<i32>,
    /// `g.N` / `g.V` / `g.W` / `g.X` — init 0.
    pub n_upper: i32,
    pub v_upper: i32,
    pub w_upper: i32,
    pub x_upper: i32,
    /// `g.f95a` — 8 spaces (the name-entry buffer), as UTF-16 units.
    pub f95a: Vec<u16>,
    /// `g.f99r`.
    pub f99r: Vec<i32>,
    /// `g.f100s`.
    pub f100s: Vec<i32>,
    /// `g.f101t` — `int[4]`.
    pub f101t: Vec<i32>,
    /// `g.f102c` — `byte[13]`.
    pub f102c: Vec<i8>,
    /// `g.f103e` — init 15.
    pub f103e: i8,
    /// `g.f104f` / `g.f105g` — init 0.
    pub f104f: i8,
    pub f105g: i8,
    /// `g.f108c` — init null.
    pub f108c: Option<Unmodeled>,
    /// `g.ar` — init 0.
    pub ar: i32,
    /// `g.f114w` — the campaign act boundaries.
    pub f114w: Vec<i32>,
}

/// The rows of an int table as sequences.
pub open spec fn rows(v: Vec<Vec<i32>>) -> Seq<Seq<i32>> {
    v@.map_values(|r: Vec<i32>| r@)
}

/// The 13 map-node coordinates.
pub open spec fn map_nodes() -> Seq<Seq<i32>> {
    seq![
        seq![10, 42, 0], seq![60, 26, 0], seq![26, 55, 0], seq![34, 77, 0], seq![95, 75, 0],
        seq![139, 101, 0], seq![126, 113, 0], seq![85, 103, 0], seq![74, 138, 0],
        seq![102, 138, 0], seq![111, 39, 0], seq![49, 121, 0], seq![33, 101, 0],
    ]
}

/// The 16 sprite-run descriptors.
pub open spec fn sprite_runs() -> Seq<Seq<i32>> {
    seq![
        seq![0, 3], seq![4, 3], seq![8, 3], seq![12, 3], seq![16, 3], seq![20, 3], seq![0, 0],
        seq![24, 2], seq![27, 2], seq![0, 0], seq![30, 3], seq![34, 4], seq![0, 0], seq![0, 0],
        seq![39, 4], seq![0, 0],
    ]
}

/// The field initializers' values, common to every kind.
pub open spec fn initialized(s: GScreen) -> bool {
    &&& rows(s.f65h) == map_nodes()
    &&& s.f68k
    &&& s.g_upper == 0 && s.h_upper == 0
    &&& s.f72a@.len() == 0
    &&& rows(s.f76i) == sprite_runs()
    &&& s.f83q@ == seq![0i32, 0, 0, 0, 0]
    &&& s.n_upper == 0 && s.v_upper == 0 && s.w_upper == 0 && s.x_upper == 0
    &&& s.f95a@ == Seq::new(8, |i: int| 0x20u16)
    &&& s.f99r@ == seq![0i32, 2, 3, 4]
    &&& s.f100s@ == seq![0i32, 1, 3, 4]
    &&& s.f101t@ == seq![0i32, 0, 0, 0]
    &&& s.f102c@ == Seq::new(13, |i: int| 0i8)
    &&& s.f103e == 15 && s.f104f == 0 && s.f105g == 0
    &&& s.f108c is None
    &&& s.ar == 0
    &&& s.f114w@ == seq![53i32, 94, 147, 204, 279]
    &&& s.f56h == 0 && s.f57i == 0 && s.j == 0
}

/// `s` is a screen of kind `kind` as the constructor builds it: the field
/// initializers, and for kind 8 the level-select flags and bounds.
pub open spec fn built_screen(s: GScreen, kind: i32) -> bool {
    &&& s.b == kind
    &&& initialized(s)
    &&& kind == 8 ==> (s.f67a matches Some(flags) && flags@ == Seq::new(
        LEVEL_FLAGS as nat,
        |i: int| 0i8,
    )) && s.z == 279 && s.a_upper == 0 && s.y == 0 && s.x == 0 && s.b_upper == 0 && s.c_upper
        == 100
    &&& kind != 8 ==> s.f67a is None && s.x == 0 && s.y == 0 && s.z == 0 && s.a_upper == 0
        && s.b_upper == 0 && s.c_upper == 0
}

/// `g.<init>(Lm;I)V` — new_screen: the field initializers, then the per-kind
/// arm (kind 0 re-zeroes the scroll state; kind 8 allocates the 280-slot flag
/// array and its cursor bounds; every other kind keeps the defaults).
pub fn g_init(kind: i32) -> (s: GScreen)
    ensures
        built_screen(s, kind),
{
    let mut s = GScreen {
        b: kind,
        f56h: 0,
        f57i: 0,
        j: 0,
        f67a: None,
        x: 0,
        y: 0,
        z: 0,
        a_upper: 0,
        b_upper: 0,
        c_upper: 0,
        f65h: vec![
            vec![10, 42, 0],
            vec![60, 26, 0],
            vec![26, 55, 0],
            vec![34, 77, 0],
            vec![95, 75, 0],
            vec![139, 101, 0],
            vec![126, 113, 0],
            vec![85, 103, 0],
            vec![74, 138, 0],
            vec![102, 138, 0],
            vec![111, 39, 0],
            vec![49, 121, 0],
            vec![33, 101, 0],
        ],
        f68k: true,
        g_upper: 0,
        h_upper: 0,
        f72a: Vec::new(),
        f76i: vec![
            vec![0, 3],
            vec![4, 3],
            vec![8, 3],
            vec![12, 3],
            vec![16, 3],
            vec![20, 3],
            vec![0, 0],
            vec![24, 2],
            vec![27, 2],
            vec![0, 0],
            vec![30, 3],
            vec![34, 4],
            vec![0, 0],
            vec![0, 0],
            vec![39, 4],
            vec![0, 0],
        ],
        f83q: vec![0; 5],
        n_upper: 0,
        v_upper: 0,
        w_upper: 0,
        x_upper: 0,
        f95a: vec![0x20u16; 8],
        f99r: vec![0, 2, 3, 4],
        f100s: vec![0, 1, 3, 4],
        f101t: vec![0; 4],
        f102c: vec![0; 13],
        f103e: 15,
        f104f: 0,
        f105g: 0,
        f108c: None,
        ar: 0,
        f114w: vec![53, 94, 147, 204, 279],
    };
    proof {
        assert(rows(s.f65h) =~= map_nodes());
        assert(rows(s.f76i) =~= sprite_runs());
        assert(s.f83q@ =~= seq![0i32, 0, 0, 0, 0]);
        assert(s.f95a@ =~= Seq::new(8, |i: int| 0x20u16));
        assert(s.f101t@ =~= seq![0i32, 0, 0, 0]);
        assert(s.f102c@ =~= Seq::new(13, |i: int| 0i8));
    }
    if s.b == 0 {
        s.f56h = 0;
        s.f57i = 0;
        s.j = 0;
    } else if s.b == 8 {
        let mut f67a: Vec<i8> = vec![0i8; LEVEL_FLAGS];
        let mut i2: usize = 0;
        while i2 < LEVEL_FLAGS
            invariant
                f67a@ == Seq::new(LEVEL_FLAGS as nat, |i: int| 0i8),
            decreases LEVEL_FLAGS - i2,
        {
            f67a[i2] = 0;  // the shipped redundant zero-fill loop
            proof {
                assert(f67a@ =~= Seq::new(LEVEL_FLAGS as nat, |i: int| 0i8));
            }
            i2 = i2 + 1;
        }
        s.f67a = Some(f67a);
        s.z = 279;
        s.a_upper = 0;
        s.y = 0;
        s.x = 0;
        s.b_upper = 0;
        s.c_upper = 100;
    }
    s
}

} // verus!
