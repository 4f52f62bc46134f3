//! Class `m` — the game canvas: the boot constructor, the run-loop
//! decisions and the logo screen, the first thing the game shows.
//!
//! The host owns the clock, the display and the images: it samples the time
//! and hands it in, decodes the images whose bytes the boot returns, and
//! draws what the painters decide.
pub mod paint;
pub mod run;
pub mod tables;

use crate::canvas_m::tables::{
    alpha_gradient, alpha_gradient_table, ambient_patterns, ambient_patterns_table, event_keys,
    event_keys_table, glyph_remap, glyph_remap_table, level_events, level_events_table,
    level_placements, level_placements_table, level_rows, level_rows_table, neighbour_steps,
    player_colours, player_colours_table, reward_rows, reward_rows_table, rows3, stat_rows,
    stat_rows_table,
};
use crate::common::{aj_parse, common_spec, COMMON_TABLE};
use crate::game::{ImageInfo, Keys, Lifecycle, Music, PaintState, Timing, Unmodeled, World, M};
use crate::jrandom::{lcg_next, next_int_value, scramble, JavaRandom};
use crate::loader::{
    close_pak, entry_bytes, entry_end, open_pak_stream, pak_directory, pak_directory_end,
    read_entry, ResourceLoader,
};
use crate::jio::payload;
use crate::resource::Resources;
use crate::screens::{built_screen, g_init, rows, GScreen};
use crate::text::{
    ae_close_stream, ae_init, ae_open_stream, ae_read_font_descriptor, descriptor_loaded,
    descriptor_walk, fallback_index, fresh_engine, glyph_record_reads, to_unsigned,
    unsigned_bytes, TextEngine,
};
use crate::trig::{loaded_tables_ok, o_load, usable, TrigTables, COS_TABLE, SIN_TABLE};
use vstd::prelude::*;

verus! {

/// The key the boot's pak walk decrypts with: `'S'`.
pub const RES0_KEY: i8 = 83;

/// The container holding the logo, the font atlas and the font descriptor.
pub const RES0_PAK: &'static str = "/res/res0.pak";


/// The kinds of the 22 screens the boot builds, in creation order.
pub open spec fn screen_kinds() -> Seq<i32> {
    seq![0, 3, 1, 2, 4, 5, 6, 7, 8, 9, 10, 11, 12, 13, 14, 15, 16, 17, 18, 19, 21, 22]
}

/// The fields of `m` that the boot sets to fixed values: the field
/// initializers and the constructor's own constants.
pub open spec fn boot_constants(m: M) -> bool {
    &&& m.lifecycle.f135a == 0 && !m.lifecycle.b && !m.lifecycle.paused && !m.lifecycle.quit_flag && !m.lifecycle.multiplayer
    &&& m.world.f142a@ == Seq::new(15, |i: int| None::<Vec<i16>>)
    &&& m.lifecycle.g == 1
    &&& m.timing.f154a == 0 && m.timing.f155b == 0 && m.timing.f156c == 0 && m.timing.f157d == 0 && m.timing.f158e == 0
    &&& !m.keys.f159e && !m.keys.f160f && !m.keys.f161g && !m.keys.f162h
    &&& !m.keys.f163i && !m.keys.f164j && !m.keys.f165k && !m.keys.f166l && !m.keys.f167m && !m.keys.f168n && !m.keys.f169o
        && !m.keys.f170p
    &&& m.keys.f171h == 0
    &&& m.world.f172a@ == Seq::new(280, |i: int| None::<ImageInfo>)
    &&& m.world.f174b == Some(ImageInfo { width: 176, height: 208 })
    &&& m.world.f176a@ == Seq::new(24, |i: int| 0i8)
    &&& m.world.f177b@ == Seq::new(169, |i: int| 0i8)
    &&& m.world.f178a@ == Seq::new(12, |i: int| 0i64)
    &&& m.world.f179c@ == Seq::new(27, |i: int| 0i8)
    &&& m.world.f180d@ == Seq::new(50, |i: int| 0i8)
    &&& m.world.f181e@ == Seq::new(13, |i: int| 0i8)
    &&& m.world.f182f@ == Seq::new(20, |i: int| 0i8)
    &&& m.world.f189f == 0
    &&& m.f193a@.len() == 0 && m.world.f194b@.len() == 0 && m.world.f195c@.len() == 0
    &&& m.world.f196d@.len() == 0 && m.world.f197e@.len() == 0 && m.world.f198f@.len() == 0
    &&& m.world.f199g@.len() == 0 && m.world.f200h@.len() == 0
    &&& m.world.f201a is None
    &&& rows(m.world.f209h) == ambient_patterns()
    &&& m.world.f210g@ == Seq::new(15, |i: int| 0i8)
    &&& m.world.f211k@ == Seq::new(15, |i: int| 0i32)
    &&& m.paint.f212r == 0
    &&& m.music.music_players@ == seq![None::<Unmodeled>, None]
    &&& m.world.f215b@ == Seq::new(5, |i: int| None::<Vec<i16>>)
    &&& !m.world.f216r && m.world.f217s == 0 && m.world.f218t == 0
    &&& m.world.f219i@.len() == 0 && m.world.f220c is None
    &&& m.world.f221u == 0 && m.world.f222v == 0 && m.world.w == 0 && m.world.x == 0 && m.world.y == 15 && m.world.z == 15
    &&& m.world.f223A == 0 && m.world.B == 0 && m.world.C == 0 && m.world.D == 0 && m.world.G == 0 && m.world.H == 0
    &&& m.world.f226b == 0 && m.world.M == 0 && m.world.P == 0
    &&& m.world.f227h@ == Seq::new(280, |i: int| 0i8)
    &&& m.world.f228i@ == Seq::new(280, |i: int| 0i8)
    &&& m.paint.Q == 0 && m.timing.f229g == 0 && m.paint.f231a == 15 && m.world.V == 183 && !m.world.f232s
    &&& m.world.f233b@ == alpha_gradient()
    &&& m.world.W == 10
    &&& rows(m.world.f234j) == event_keys()
    &&& m.world.X == -1 && m.world.f236d is None && m.world.aa == -1 && !m.world.f238u && m.world.ab == 0
    &&& m.world.f239j@.len() == 0 && m.world.f240k@.len() == 0 && m.world.f241l@.len() == 0
    &&& m.world.f242m@.len() == 0
    &&& m.world.f244l is None && m.world.f245j is None
    &&& m.world.f246b@ == Seq::new(5, |i: int| None::<String>)
    &&& m.music.f247k is None
    &&& m.world.f251o@ == glyph_remap()
    &&& rows(m.world.f252k) == stat_rows()
    &&& rows(m.world.f253l) == level_rows()
    &&& rows(m.world.f254m) == reward_rows()
    &&& m.music.active_music_track == -1 && m.music.music_volume == 40
    &&& m.world.f255n@.len() == 0
    &&& m.world.f258n@ == Seq::new(14, |i: int| 0i32)
    &&& m.world.f260n@ == Seq::new(18, |i: int| None::<Vec<i32>>)
    &&& m.world.f264o@.len() == 0
    &&& !m.world.f265x && m.world.f266y && m.world.f267p is None && !m.world.f268z
    &&& m.world.f271p@.len() == 0 && m.world.ao == 0
    &&& m.world.f273q@ == neighbour_steps()
    &&& rows(m.world.f276o) == player_colours()
    &&& rows3(m.world.f279e) == level_events()
    &&& rows3(m.world.f280f) == level_placements()
    &&& m.world.f284o@ == Seq::new(100, |i: int| 0i32)
    &&& m.world.f285p@ == Seq::new(100, |i: int| 0i32)
    &&& m.world.f286q@ == Seq::new(100, |i: int| 0i32)
    &&& m.world.f287r@ == Seq::new(100, |i: int| 0i32)
    &&& m.world.f288a@ == Seq::new(100, |i: int| false)
    &&& m.world.f289s@ == Seq::new(100, |i: int| 0i32)
    &&& m.world.f290t@ == Seq::new(100, |i: int| 0i32)
    &&& m.world.f291u@ == Seq::new(100, |i: int| 0i32)
    &&& m.world.aq == 0 && m.world.ar == 20 && m.world.f_as == 0 && m.world.at == 2 && m.world.au == 100
}

/// A fresh `m` with the boot's fixed values and the given owned objects;
/// the common table, the screens and the logo are not there yet.
fn boot_fields(rng: JavaRandom, text: TextEngine, loader: ResourceLoader, trig: TrigTables) -> (m: M)
    ensures
        boot_constants(m),
        m.rng == rng,
        m.text == text,
        m.loader == loader,
        m.trig == trig,
        m.common is None,
        m.screens@.len() == 0,
        m.paint.f173a is None,
        m.paint.T == 0 && m.paint.U == 0 && m.paint.R == 0 && m.paint.S == 0,
        m.paint.f230a is None,
{
    let mut f142a: Vec<Option<Vec<i16>>> = Vec::new();
    let mut i: usize = 0;
    while i < 15
        invariant
            0 <= i <= 15,
            f142a@ =~= Seq::new(i as nat, |k: int| None::<Vec<i16>>),
        decreases 15 - i,
    {
        f142a.push(None);
        i = i + 1;
    }
    let mut f172a: Vec<Option<ImageInfo>> = Vec::new();
    let mut i: usize = 0;
    while i < 280
        invariant
            0 <= i <= 280,
            f172a@ =~= Seq::new(i as nat, |k: int| None::<ImageInfo>),
        decreases 280 - i,
    {
        f172a.push(None);
        i = i + 1;
    }
    let mut f215b: Vec<Option<Vec<i16>>> = Vec::new();
    let mut i: usize = 0;
    while i < 5
        invariant
            0 <= i <= 5,
            f215b@ =~= Seq::new(i as nat, |k: int| None::<Vec<i16>>),
        decreases 5 - i,
    {
        f215b.push(None);
        i = i + 1;
    }
    let mut f246b: Vec<Option<String>> = Vec::new();
    let mut i: usize = 0;
    while i < 5
        invariant
            0 <= i <= 5,
            f246b@ =~= Seq::new(i as nat, |k: int| None::<String>),
        decreases 5 - i,
    {
        f246b.push(None);
        i = i + 1;
    }
    let mut f260n: Vec<Option<Vec<i32>>> = Vec::new();
    let mut i: usize = 0;
    while i < 18
        invariant
            0 <= i <= 18,
            f260n@ =~= Seq::new(i as nat, |k: int| None::<Vec<i32>>),
        decreases 18 - i,
    {
        f260n.push(None);
        i = i + 1;
    }
    let lifecycle = Lifecycle {
        f135a: 0,
        b: false,
        paused: false,
        quit_flag: false,
        multiplayer: false,
        g: 1,
    };
    let timing = Timing {
        f154a: 0,
        f155b: 0,
        f156c: 0,
        f157d: 0,
        f158e: 0,
        f229g: 0,
    };
    let keys = Keys {
        f159e: false,
        f160f: false,
        f161g: false,
        f162h: false,
        f163i: false,
        f164j: false,
        f165k: false,
        f166l: false,
        f167m: false,
        f168n: false,
        f169o: false,
        f170p: false,
        f171h: 0,
    };
    let paint = PaintState {
        f212r: 0,
        Q: 0,
        f231a: 15,
        f173a: None,
        T: 0,
        U: 0,
        R: 0,
        S: 0,
        f230a: None,
    };
    let music = Music {
        music_players: [None, None],
        f247k: None,
        active_music_track: -1,
        music_volume: 40,
    };
    let world = World {
        f142a,
        f172a,
        f174b: Some(ImageInfo { width: 176, height: 208 }),
        f176a: vec![0i8; 24],
        f177b: vec![0i8; 169],
        f178a: vec![0i64; 12],
        f179c: vec![0i8; 27],
        f180d: vec![0i8; 50],
        f181e: vec![0i8; 13],
        f182f: vec![0i8; 20],
        f189f: 0,
        f194b: Vec::new(),
        f195c: Vec::new(),
        f196d: Vec::new(),
        f197e: Vec::new(),
        f198f: Vec::new(),
        f199g: Vec::new(),
        f200h: Vec::new(),
        f201a: None,
        f209h: ambient_patterns_table(),
        f210g: vec![0i8; 15],
        f211k: vec![0i32; 15],
        f215b,
        f216r: false,
        f217s: 0,
        f218t: 0,
        f219i: Vec::new(),
        f220c: None,
        f221u: 0,
        f222v: 0,
        w: 0,
        x: 0,
        y: 15,
        z: 15,
        f223A: 0,
        B: 0,
        C: 0,
        D: 0,
        G: 0,
        H: 0,
        f226b: 0,
        M: 0,
        P: 0,
        f227h: vec![0i8; 280],
        f228i: vec![0i8; 280],
        V: 183,
        f232s: false,
        f233b: alpha_gradient_table(),
        W: 10,
        f234j: event_keys_table(),
        X: -1,
        f236d: None,
        aa: -1,
        f238u: false,
        ab: 0,
        f239j: Vec::new(),
        f240k: Vec::new(),
        f241l: Vec::new(),
        f242m: Vec::new(),
        f244l: None,
        f245j: None,
        f246b,
        f251o: glyph_remap_table(),
        f252k: stat_rows_table(),
        f253l: level_rows_table(),
        f254m: reward_rows_table(),
        f255n: Vec::new(),
        f258n: vec![0i32; 14],
        f260n,
        f264o: Vec::new(),
        f265x: false,
        f266y: true,
        f267p: None,
        f268z: false,
        f271p: Vec::new(),
        ao: 0,
        f273q: vec![0, -1, 0, 1, -1, 0, 1, 0],
        f276o: player_colours_table(),
        f279e: level_events_table(),
        f280f: level_placements_table(),
        f284o: vec![0i32; 100],
        f285p: vec![0i32; 100],
        f286q: vec![0i32; 100],
        f287r: vec![0i32; 100],
        f288a: vec![false; 100],
        f289s: vec![0i32; 100],
        f290t: vec![0i32; 100],
        f291u: vec![0i32; 100],
        aq: 0,
        ar: 20,
        f_as: 0,
        at: 2,
        au: 100,
    };
    let m = M {
        rng,
        text,
        loader,
        trig,
        f193a: Vec::new(),
        common: None,
        screens: Vec::new(),
        lifecycle,
        timing,
        keys,
        paint,
        music,
        world,
    };
    proof {
        assert(m.world.f176a@ =~= Seq::new(24, |i: int| 0i8));
        assert(m.world.f177b@ =~= Seq::new(169, |i: int| 0i8));
        assert(m.world.f178a@ =~= Seq::new(12, |i: int| 0i64));
        assert(m.world.f179c@ =~= Seq::new(27, |i: int| 0i8));
        assert(m.world.f180d@ =~= Seq::new(50, |i: int| 0i8));
        assert(m.world.f181e@ =~= Seq::new(13, |i: int| 0i8));
        assert(m.world.f182f@ =~= Seq::new(20, |i: int| 0i8));
        assert(m.world.f210g@ =~= Seq::new(15, |i: int| 0i8));
        assert(m.world.f211k@ =~= Seq::new(15, |i: int| 0i32));
        assert(m.music.music_players@ =~= seq![None::<Unmodeled>, None]);
        assert(m.world.f227h@ =~= Seq::new(280, |i: int| 0i8));
        assert(m.world.f228i@ =~= Seq::new(280, |i: int| 0i8));
        assert(m.world.f258n@ =~= Seq::new(14, |i: int| 0i32));
        assert(m.world.f273q@ =~= neighbour_steps());
        assert(m.world.f284o@ =~= Seq::new(100, |i: int| 0i32));
        assert(m.world.f285p@ =~= Seq::new(100, |i: int| 0i32));
        assert(m.world.f286q@ =~= Seq::new(100, |i: int| 0i32));
        assert(m.world.f287r@ =~= Seq::new(100, |i: int| 0i32));
        assert(m.world.f288a@ =~= Seq::new(100, |i: int| false));
        assert(m.world.f289s@ =~= Seq::new(100, |i: int| 0i32));
        assert(m.world.f290t@ =~= Seq::new(100, |i: int| 0i32));
        assert(m.world.f291u@ =~= Seq::new(100, |i: int| 0i32));
    }
    m
}

/// The 22 screens in creation order.
fn boot_screens() -> (r: Vec<GScreen>)
    ensures
        r@.len() == 22,
        forall|i: int| 0 <= i < 22 ==> built_screen(#[trigger] r@[i], screen_kinds()[i]),
{
    let kinds: [i32; 22] = [0, 3, 1, 2, 4, 5, 6, 7, 8, 9, 10, 11, 12, 13, 14, 15, 16, 17, 18, 19, 21, 22];
    assert(kinds@ =~= screen_kinds());
    let mut r: Vec<GScreen> = Vec::new();
    let mut i: usize = 0;
    while i < 22
        invariant
            0 <= i <= 22,
            kinds@ == screen_kinds(),
            r@.len() == i,
            forall|k: int| 0 <= k < i ==> built_screen(#[trigger] r@[k], screen_kinds()[k]),
        decreases 22 - i,
    {
        r.push(g_init(kinds[i]));
        i = i + 1;
    }
    r
}

/// The first three `res0.pak` entries as the boot reads them — the logo,
/// the font atlas and the font descriptor — or `None` where the read dies:
/// no directory, fewer than three entries, or a negative length.
pub open spec fn boot_entries(res0: Option<Seq<u8>>) -> Option<(Seq<i8>, Seq<i8>, Seq<i8>)> {
    match pak_directory(res0) {
        None => None,
        Some(dir) => if dir.len() < 3 || dir[0] < 0 || dir[1] < 0 || dir[2] < 0 {
            None
        } else {
            let d = res0->Some_0;
            let p0 = pak_directory_end(res0);
            let p1 = entry_end(d, p0, dir[0] as int);
            let p2 = entry_end(d, p1, dir[1] as int);
            Some(
                (
                    entry_bytes(d, p0, dir[0] as int, RES0_KEY),
                    entry_bytes(d, p1, dir[1] as int, RES0_KEY),
                    entry_bytes(d, p2, dir[2] as int, RES0_KEY),
                ),
            )
        },
    }
}

/// Whether the boot gets through on these payloads: the common table
/// parses, the three entries read, and the font's glyph string reads.
pub open spec fn boot_survives(common: Option<Seq<u8>>, res0: Option<Seq<u8>>) -> bool {
    &&& common_spec(common) is Some
    &&& boot_entries(res0) matches Some(es) && descriptor_walk(
        Some(unsigned_bytes(es.2)),
        0,
        1,
    ).0.len() == 1
}

/// `m` after a boot on these payloads, before the decoded images are bound.
pub open spec fn boot_state(
    m: M,
    sin: Option<Seq<u8>>,
    cos: Option<Seq<u8>>,
    common: Option<Seq<u8>>,
    res0: Option<Seq<u8>>,
    seed_millis: i64,
) -> bool {
    &&& boot_constants(m)
    &&& m.rng@ == scramble(seed_millis)
    &&& loaded_tables_ok(m.trig, sin, cos) && usable(m.trig)
    &&& m.common matches Some(t) && common_spec(common) == Some(t@)
    &&& m.loader.a is None && m.loader.f119a is None
    &&& m.loader.f120a == RES0_KEY && m.loader.f121a == 3
    &&& descriptor_loaded(
        fresh_engine(),
        m.text,
        descriptor_walk(Some(unsigned_bytes(boot_entries(res0)->Some_0.2)), 0, 5).0,
    )
    &&& m.text.f == -1
    &&& m.text.f11a matches Some(gs) && m.text.d == fallback_index(gs@.len())
    &&& m.screens@.len() == 22
    &&& forall|i: int| 0 <= i < 22 ==> built_screen(#[trigger] m.screens@[i], screen_kinds()[i])
    &&& m.paint.f173a is None && m.paint.T == 0 && m.paint.U == 0 && m.paint.R == 0 && m.paint.S == 0 && m.paint.f230a is None
}

/// `m.<init>` on given payloads, up to the image decodes: the field
/// initializers, the trig tables, the common table, the re-seed, then the
/// `res0.pak` walk — the logo and atlas entries are returned for the host to
/// decode, the descriptor entry loads the font — and the 22 screens. `None`
/// where the game dies: for a host that holds payloads it has not checked.
pub fn m_try_init_with(
    m: &mut M,
    sin: Option<Vec<u8>>,
    cos: Option<Vec<u8>>,
    common: Option<Vec<u8>>,
    res0: Option<Vec<u8>>,
    boot_millis: i64,
    seed_millis: i64,
) -> (r: Option<(Vec<i8>, Vec<i8>)>)
    ensures
        r is Some <==> boot_survives(payload(common), payload(res0)),
        r matches Some((logo, atlas)) ==> {
            &&& boot_state(
                *final(m),
                payload(sin),
                payload(cos),
                payload(common),
                payload(res0),
                seed_millis,
            )
            &&& logo@ == boot_entries(payload(res0))->Some_0.0
            &&& atlas@ == boot_entries(payload(res0))->Some_0.1
        },
{
    let ghost res0_bytes = payload(res0);
    let rng = JavaRandom::with_seed(boot_millis);
    let text = ae_init();
    let loader = ResourceLoader::default();
    let trig = o_load(sin, cos);
    *m = boot_fields(rng, text, loader, trig);
    let table = match aj_parse(common) {
        Some(t) => t,
        None => return None,
    };
    m.common = Some(table);
    m.rng.set_seed(seed_millis);
    open_pak_stream(&mut m.loader, res0, RES0_KEY);
    let readable = match &m.loader.f119a {
        Some(dir) => dir.len() >= 3 && dir[0] >= 0 && dir[1] >= 0 && dir[2] >= 0,
        None => false,
    };
    if !readable {
        return None;
    }
    let logo = read_entry(&mut m.loader);
    let atlas = read_entry(&mut m.loader);
    let descriptor = read_entry(&mut m.loader);
    assert(boot_entries(res0_bytes) == Some((logo@, atlas@, descriptor@)));
    if !glyph_record_reads(&descriptor) {
        return None;
    }
    let mut dis = ae_open_stream(Some(to_unsigned(&descriptor)));
    ae_read_font_descriptor(&mut m.text, &mut dis);
    ae_close_stream(&mut dis);
    m.text.f = -1;
    close_pak(&mut m.loader);
    m.screens = boot_screens();
    Some((logo, atlas))
}

/// `m.<init>` on given payloads on which the game survives its boot (it
/// dies on any other): the boot state, and the logo and atlas entries for
/// the host to decode.
pub fn m_init_with(
    m: &mut M,
    sin: Option<Vec<u8>>,
    cos: Option<Vec<u8>>,
    common: Option<Vec<u8>>,
    res0: Option<Vec<u8>>,
    boot_millis: i64,
    seed_millis: i64,
) -> (r: (Vec<i8>, Vec<i8>))
    requires
        boot_survives(payload(common), payload(res0)),
    ensures
        boot_state(*final(m), payload(sin), payload(cos), payload(common), payload(res0), seed_millis),
        r.0@ == boot_entries(payload(res0))->Some_0.0,
        r.1@ == boot_entries(payload(res0))->Some_0.1,
{
    m_try_init_with(m, sin, cos, common, res0, boot_millis, seed_millis).unwrap()
}

/// `m.<init>`, reading its resources: the sine and cosine tables, the
/// common table and `res0.pak`, in that order, from a provider on whose
/// entries the game survives its boot (it dies on any other). The logo and
/// atlas entries are returned for the host to decode.
pub fn m_init(m: &mut M, resources: &dyn Resources, boot_millis: i64, seed_millis: i64) -> (r: (
    Vec<i8>,
    Vec<i8>,
))
    requires
        boot_survives(resources.entry(COMMON_TABLE@), resources.entry(RES0_PAK@)),
    ensures
        boot_state(
            *final(m),
            resources.entry(SIN_TABLE@),
            resources.entry(COS_TABLE@),
            resources.entry(COMMON_TABLE@),
            resources.entry(RES0_PAK@),
            seed_millis,
        ),
        r.0@ == boot_entries(resources.entry(RES0_PAK@))->Some_0.0,
        r.1@ == boot_entries(resources.entry(RES0_PAK@))->Some_0.1,
{
    let sin = resources.resource_as_stream(SIN_TABLE);
    let cos = resources.resource_as_stream(COS_TABLE);
    let common = resources.resource_as_stream(COMMON_TABLE);
    let res0 = resources.resource_as_stream(RES0_PAK);
    m_init_with(m, sin, cos, common, res0, boot_millis, seed_millis)
}

/// `m.<init>` from a provider whose entries the host has not checked: the
/// same reads, then the boot, or `None` where the game dies — the common
/// table does not parse, `res0.pak` holds no three readable entries, or the
/// font's glyph string does not read.
pub fn m_try_init(m: &mut M, resources: &dyn Resources, boot_millis: i64, seed_millis: i64) -> (r:
    Option<(Vec<i8>, Vec<i8>)>)
    ensures
        r is Some <==> boot_survives(
            resources.entry(COMMON_TABLE@),
            resources.entry(RES0_PAK@),
        ),
        r matches Some((logo, atlas)) ==> {
            &&& boot_state(
                *final(m),
                resources.entry(SIN_TABLE@),
                resources.entry(COS_TABLE@),
                resources.entry(COMMON_TABLE@),
                resources.entry(RES0_PAK@),
                seed_millis,
            )
            &&& logo@ == boot_entries(resources.entry(RES0_PAK@))->Some_0.0
            &&& atlas@ == boot_entries(resources.entry(RES0_PAK@))->Some_0.1
        },
{
    let sin = resources.resource_as_stream(SIN_TABLE);
    let cos = resources.resource_as_stream(COS_TABLE);
    let common = resources.resource_as_stream(COMMON_TABLE);
    let res0 = resources.resource_as_stream(RES0_PAK);
    m_try_init_with(m, sin, cos, common, res0, boot_millis, seed_millis)
}

/// The end of `m.<init>`, once the host has decoded the logo and the font
/// atlas: bind the atlas to the text engine, keep the logo's size, centre it
/// on the 176×208 field (`R = 88 - T/2`, `S = 104 - U/2`) and allocate its
/// `short[T*U]` fade overlay.
pub fn m_bind_images(m: &mut M, logo: ImageInfo, atlas: ImageInfo)
    requires
        0 <= logo.width,
        0 <= logo.height,
        logo.width * logo.height <= i32::MAX,
    ensures
        *final(m) == (M {
            paint: final(m).paint,
            text: (TextEngine { a: Some(atlas), ..old(m).text }),
            ..*old(m)
        }),
        final(m).paint == (PaintState {
            f173a: Some(logo),
            T: logo.width,
            U: logo.height,
            R: (88 - logo.width / 2) as i32,
            S: (104 - logo.height / 2) as i32,
            f230a: final(m).paint.f230a,
            ..old(m).paint
        }),
        final(m).paint.f230a matches Some(buf) && buf@ == Seq::new(
            (logo.width * logo.height) as nat,
            |i: int| 0i16,
        ),
{
    m.text.a = Some(atlas);
    let n: i32 = logo.width * logo.height;
    let buf: Vec<i16> = vec![0i16; n as usize];
    assert(buf@ =~= Seq::new((logo.width * logo.height) as nat, |i: int| 0i16));
    m.paint.f173a = Some(logo);
    m.paint.T = logo.width;
    m.paint.U = logo.height;
    m.paint.R = 88 - logo.width / 2;
    m.paint.S = 104 - logo.height / 2;
    m.paint.f230a = Some(buf);
}

} // verus!
