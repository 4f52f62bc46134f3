//! The game's ownership backbone: class `m`'s fields and the small shared
//! types every owner uses.
//!
//! Every field of the `m` singleton has one owner here; the game's methods
//! are free functions over it (see [`crate::canvas_m`]). Images are decoded
//! and drawn by the host: the state holds only what the game logic reads of
//! one, its size.
pub mod screen;

use crate::common::CommonTable;
use crate::jrandom::JavaRandom;
use crate::loader::ResourceLoader;
use crate::screens::GScreen;
use crate::text::TextEngine;
use crate::trig::TrigTables;
use vstd::prelude::*;

verus! {

/// What the game reads of a decoded image: its size in pixels.
#[derive(Debug, Clone, Copy, PartialEq, Eq)]
pub struct ImageInfo {
    /// `getWidth()`.
    pub width: i32,
    /// `getHeight()`.
    pub height: i32,
}

/// A Java object reference whose behaviour is not modelled (entities,
/// projectiles, the cursor object, media players, …). It gives the owning
/// field a home; nothing dereferences it.
#[derive(Debug, Clone, Copy, PartialEq, Eq)]
pub struct Unmodeled;

/// The mutable statics of class `g` (the per-instance state lives in
/// [`crate::screens::GScreen`]).
#[derive(Debug)]
pub struct GStatics {
    /// `g.n` — a shared scratch table (`None` = null until a screen builds it).
    pub n: Option<Vec<i32>>,
}

impl Default for GStatics {
    fn default() -> (g: Self)
        ensures
            g.n is None,
    {
        GStatics { n: None }
    }
}

/// `m`'s lifecycle and state-machine fields.
#[allow(non_snake_case)]
#[derive(Debug)]
pub struct Lifecycle {
    /// `m.f135a` — init 0.
    pub f135a: i8,
    /// `m.b` — the current state's backdrop is ready.
    pub b: bool,
    /// `m.c` — paused (focus lost).
    pub paused: bool,
    /// `m.A` — the run loop exits on it.
    pub quit_flag: bool,
    /// `m.d` — multiplayer.
    pub multiplayer: bool,
    /// `m.g` — the game state: 1 logo, 5 map, 9 battle, 100 quitting,
    /// 101/102 load prompts, 104/106 in-level.
    pub g: i32,
}

/// `m`'s run-loop clock samples and timers.
#[allow(non_snake_case)]
#[derive(Debug)]
pub struct Timing {
    /// `m.f154a` — the loop's clock sample.
    pub f154a: i64,
    /// `m.f155b` — the frame deadline.
    pub f155b: i64,
    /// `m.f156c` — the sleep remainder.
    pub f156c: i64,
    /// `m.f157d` — the frame counter, mod 10.
    pub f157d: i64,
    /// `m.f158e` — the time latched each time the counter wraps.
    pub f158e: i64,
    /// `m.f229g` — when the logo state was entered.
    pub f229g: i64,
}

/// `m`'s key flags.
#[allow(non_snake_case)]
#[derive(Debug)]
pub struct Keys {
    /// `m.f159e`..`m.f162h` — held directional keys.
    pub f159e: bool,
    pub f160f: bool,
    pub f161g: bool,
    pub f162h: bool,
    /// `m.f163i`..`m.f170p` — edge-latched keys (`f170p`: any key).
    pub f163i: bool,
    pub f164j: bool,
    pub f165k: bool,
    pub f166l: bool,
    pub f167m: bool,
    pub f168n: bool,
    pub f169o: bool,
    pub f170p: bool,
    /// `m.f171h` — the last raw key code.
    pub f171h: i32,
}

/// `m`'s painter state: the blink counter, the shake, and the logo with
/// its fade.
#[allow(non_snake_case)]
#[derive(Debug)]
pub struct PaintState {
    /// `m.Q` — the paint blink counter (wraps at 6).
    pub Q: i32,
    /// `m.f212r` — the screen-shake countdown.
    pub f212r: i32,
    /// `m.f231a` — the logo fade's alpha nibble (15 = opaque).
    pub f231a: i16,
    /// `m.f173a` — the Nival logo.
    pub f173a: Option<ImageInfo>,
    /// `m.T` / `m.U` — the logo's size.
    pub T: i32,
    pub U: i32,
    /// `m.R` / `m.S` — the logo's top-left corner.
    pub R: i32,
    pub S: i32,
    /// `m.f230a` — the logo fade overlay, `short[T*U]`.
    pub f230a: Option<Vec<i16>>,
}

/// `m`'s music fields and the options record that holds the volume.
#[allow(non_snake_case)]
#[derive(Debug)]
pub struct Music {
    /// `m.f214a` — the two looping music players (absent: no audio here).
    pub music_players: [Option<Unmodeled>; 2],
    /// `m.ak` — the active music track (-1: none).
    pub active_music_track: i32,
    /// `m.al` — the music volume (init 40).
    pub music_volume: i32,
    /// `m.f247k` — the options record (byte 2 is the music volume).
    pub f247k: Option<Vec<i8>>,
}

/// The rest of `m`: the world, the interface tables and the caches the
/// game logic here never touches after the boot.
#[allow(non_snake_case)]
#[derive(Debug)]
pub struct World {
    /// `m.f142a` — `short[15][]` sprite-pixel rows.
    pub f142a: Vec<Option<Vec<i16>>>,
    /// `m.f172a` — the 280-slot sprite image cache.
    pub f172a: Vec<Option<ImageInfo>>,
    /// `m.f174b` — the 176×208 off-screen backdrop.
    pub f174b: Option<ImageInfo>,
    /// `m.f176a` — `byte[24]`.
    pub f176a: Vec<i8>,
    /// `m.f177b` — `byte[169]`, the 13×13 fog grid.
    pub f177b: Vec<i8>,
    /// `m.f178a` — `long[12]`.
    pub f178a: Vec<i64>,
    /// `m.f179c` — `byte[27]`.
    pub f179c: Vec<i8>,
    /// `m.f180d` — `byte[50]`.
    pub f180d: Vec<i8>,
    /// `m.f181e` — `byte[13]`.
    pub f181e: Vec<i8>,
    /// `m.f182f` — `byte[20]`, the one-shot event flags.
    pub f182f: Vec<i8>,
    /// `m.f189f` — init 0.
    pub f189f: i64,
    /// `m.f194b`..`m.f200h` — world entity lists.
    pub f194b: Vec<Unmodeled>,
    pub f195c: Vec<Unmodeled>,
    pub f196d: Vec<Unmodeled>,
    pub f197e: Vec<Unmodeled>,
    pub f198f: Vec<Unmodeled>,
    pub f199g: Vec<Unmodeled>,
    pub f200h: Vec<Unmodeled>,
    /// `m.f201a` — the cursor object.
    pub f201a: Option<Unmodeled>,
    /// `m.f209h` — the 15 ambient-sound pattern rows.
    pub f209h: Vec<Vec<i32>>,
    /// `m.f210g` — one byte per pattern row.
    pub f210g: Vec<i8>,
    /// `m.f211k` — one int per pattern row.
    pub f211k: Vec<i32>,
    /// `m.f215b` — `short[5][]` baked overlay pixel runs.
    pub f215b: Vec<Option<Vec<i16>>>,
    /// `m.f216r`.
    pub f216r: bool,
    /// `m.f217s` / `m.f218t` — the tile cursor.
    pub f217s: i32,
    pub f218t: i32,
    /// `m.f219i`.
    pub f219i: Vec<Unmodeled>,
    /// `m.f220c` — the selected unit.
    pub f220c: Option<Unmodeled>,
    pub f221u: i32,
    pub f222v: i32,
    pub w: i32,
    pub x: i32,
    /// `m.y` — init 15.
    pub y: i32,
    /// `m.z` — init 15.
    pub z: i32,
    pub f223A: i32,
    pub B: i32,
    pub C: i32,
    pub D: i32,
    pub G: i32,
    pub H: i32,
    pub f226b: i8,
    pub M: i32,
    pub P: i32,
    /// `m.f227h` — `byte[280]`, the sprite-pack residency map.
    pub f227h: Vec<i8>,
    /// `m.f228i` — `byte[280]`, its in-level sibling.
    pub f228i: Vec<i8>,
    /// `m.V` — init 183.
    pub V: i32,
    pub f232s: bool,
    /// `m.f233b` — the 20×16 baked alpha gradient.
    pub f233b: Vec<i16>,
    /// `m.W` — init 10.
    pub W: i32,
    /// `m.f234j` — 27 rows.
    pub f234j: Vec<Vec<i32>>,
    /// `m.X` — init -1.
    pub X: i32,
    pub f236d: Option<Unmodeled>,
    /// `m.aa` — init -1.
    pub aa: i32,
    pub f238u: bool,
    pub ab: i32,
    /// `m.f239j` — the party list.
    pub f239j: Vec<Unmodeled>,
    pub f240k: Vec<Unmodeled>,
    pub f241l: Vec<Unmodeled>,
    pub f242m: Vec<Unmodeled>,
    pub f244l: Option<Vec<i32>>,
    pub f245j: Option<Vec<i8>>,
    /// `m.f246b` — `String[5]`.
    pub f246b: Vec<Option<String>>,
    /// `m.f251o` — the 46-entry glyph remap row.
    pub f251o: Vec<i8>,
    /// `m.f252k` — 13×4.
    pub f252k: Vec<Vec<i32>>,
    pub f253l: Vec<Vec<i32>>,
    pub f254m: Vec<Vec<i32>>,
    pub f255n: Vec<Unmodeled>,
    /// `m.f258n` — `int[14]`.
    pub f258n: Vec<i32>,
    /// `m.f260n` — `int[18][]`, the reward rows.
    pub f260n: Vec<Option<Vec<i32>>>,
    pub f264o: Vec<Unmodeled>,
    pub f265x: bool,
    /// `m.f266y` — init true.
    pub f266y: bool,
    pub f267p: Option<Vec<i8>>,
    pub f268z: bool,
    pub f271p: Vec<Unmodeled>,
    pub ao: i32,
    /// `m.f273q` — the 4-neighbour step table.
    pub f273q: Vec<i8>,
    /// `m.f276o` — the 8 player colours.
    pub f276o: Vec<Vec<i32>>,
    /// `m.f279e` — per-level scripted-event tables.
    pub f279e: Vec<Vec<Vec<i32>>>,
    /// `m.f280f` — per-level placement tables.
    pub f280f: Vec<Vec<Vec<i32>>>,
    /// `m.f284o`..`m.f291u` — the 100-slot particle pool.
    pub f284o: Vec<i32>,
    pub f285p: Vec<i32>,
    pub f286q: Vec<i32>,
    pub f287r: Vec<i32>,
    pub f288a: Vec<bool>,
    pub f289s: Vec<i32>,
    pub f290t: Vec<i32>,
    pub f291u: Vec<i32>,
    pub aq: i32,
    /// `m.ar` — init 20.
    pub ar: i32,
    /// `m.as`.
    pub f_as: i32,
    /// `m.at` — init 2.
    pub at: i32,
    /// `m.au` — init 100.
    pub au: i32,
}

/// Class `m`'s fields — the canvas, the world and the game loop — grouped by
/// the part of the game that uses them. Field names are the Java ones where
/// they carry no established meaning.
#[derive(Debug)]
pub struct M {
    /// The lifecycle and the state machine.
    pub lifecycle: Lifecycle,
    /// The run loop's clock samples and timers.
    pub timing: Timing,
    /// The key flags.
    pub keys: Keys,
    /// `m.f138a` — the gameplay random generator.
    pub rng: JavaRandom,
    /// `m.f139a` — the text engine.
    pub text: TextEngine,
    /// `m.f140a` — the resource loader.
    pub loader: ResourceLoader,
    /// `m.f141a` — the sine/cosine tables.
    pub trig: TrigTables,
    /// `m.f153a` — the `common.utf` table.
    pub common: Option<CommonTable>,
    /// The 22 screen objects (see [`screen`] for their names).
    pub screens: Vec<GScreen>,
    /// `m.f193a` — the screen stack, as indices into [`M::screens`].
    pub f193a: Vec<usize>,
    /// The painters' state.
    pub paint: PaintState,
    /// Music and options.
    pub music: Music,
    /// Everything else.
    pub world: World,
}

impl Default for Lifecycle {
    /// The JVM's zeroed fields.
    fn default() -> (r: Self)
        ensures
            r.f135a == 0 && !r.b && !r.paused && !r.quit_flag,
            !r.multiplayer && r.g == 0,
    {
        Lifecycle {
            f135a: 0,
            b: false,
            paused: false,
            quit_flag: false,
            multiplayer: false,
            g: 0,
        }
    }
}

impl Default for Timing {
    /// The JVM's zeroed fields.
    fn default() -> (r: Self)
        ensures
            r.f154a == 0 && r.f155b == 0 && r.f156c == 0 && r.f157d == 0,
            r.f158e == 0 && r.f229g == 0,
    {
        Timing {
            f154a: 0,
            f155b: 0,
            f156c: 0,
            f157d: 0,
            f158e: 0,
            f229g: 0,
        }
    }
}

impl Default for Keys {
    /// The JVM's zeroed fields.
    fn default() -> (r: Self)
        ensures
            !r.f159e && !r.f160f && !r.f161g && !r.f162h,
            !r.f163i && !r.f164j && !r.f165k && !r.f166l,
            !r.f167m && !r.f168n && !r.f169o && !r.f170p,
            r.f171h == 0,
    {
        Keys {
            f159e: false,
            f160f: false,
            f161g: false,
            f162h: false,
            f163i: false,
            f164j: false,
            f165k: false,
            f166l: false,
            f167m: false,
            f168n: false,
            f169o: false,
            f170p: false,
            f171h: 0,
        }
    }
}

impl Default for PaintState {
    /// The JVM's zeroed fields.
    fn default() -> (r: Self)
        ensures
            r.Q == 0 && r.f212r == 0 && r.f231a == 0 && r.f173a is None,
            r.T == 0 && r.U == 0 && r.R == 0 && r.S == 0,
            r.f230a is None,
    {
        PaintState {
            Q: 0,
            f212r: 0,
            f231a: 0,
            f173a: None,
            T: 0,
            U: 0,
            R: 0,
            S: 0,
            f230a: None,
        }
    }
}

impl Default for Music {
    /// The JVM's zeroed fields.
    fn default() -> (r: Self)
        ensures
            r.music_players@ == seq![None::<Unmodeled>, None] && r.active_music_track == 0 && r.music_volume == 0 && r.f247k is None,
    {
        Music {
            music_players: [None, None],
            active_music_track: 0,
            music_volume: 0,
            f247k: None,
        }
    }
}

impl Default for World {
    /// The JVM's zeroed fields.
    fn default() -> (r: Self)
        ensures
            r.f142a@.len() == 0 && r.f172a@.len() == 0 && r.f174b is None && r.f176a@.len() == 0,
            r.f177b@.len() == 0 && r.f178a@.len() == 0 && r.f179c@.len() == 0 && r.f180d@.len() == 0,
            r.f181e@.len() == 0 && r.f182f@.len() == 0 && r.f189f == 0 && r.f194b@.len() == 0,
            r.f195c@.len() == 0 && r.f196d@.len() == 0 && r.f197e@.len() == 0 && r.f198f@.len() == 0,
            r.f199g@.len() == 0 && r.f200h@.len() == 0 && r.f201a is None && r.f209h@.len() == 0,
            r.f210g@.len() == 0 && r.f211k@.len() == 0 && r.f215b@.len() == 0 && !r.f216r,
            r.f217s == 0 && r.f218t == 0 && r.f219i@.len() == 0 && r.f220c is None,
            r.f221u == 0 && r.f222v == 0 && r.w == 0 && r.x == 0,
            r.y == 0 && r.z == 0 && r.f223A == 0 && r.B == 0,
            r.C == 0 && r.D == 0 && r.G == 0 && r.H == 0,
            r.f226b == 0 && r.M == 0 && r.P == 0 && r.f227h@.len() == 0,
            r.f228i@.len() == 0 && r.V == 0 && !r.f232s && r.f233b@.len() == 0,
            r.W == 0 && r.f234j@.len() == 0 && r.X == 0 && r.f236d is None,
            r.aa == 0 && !r.f238u && r.ab == 0 && r.f239j@.len() == 0,
            r.f240k@.len() == 0 && r.f241l@.len() == 0 && r.f242m@.len() == 0 && r.f244l is None,
            r.f245j is None && r.f246b@.len() == 0 && r.f251o@.len() == 0 && r.f252k@.len() == 0,
            r.f253l@.len() == 0 && r.f254m@.len() == 0 && r.f255n@.len() == 0 && r.f258n@.len() == 0,
            r.f260n@.len() == 0 && r.f264o@.len() == 0 && !r.f265x && !r.f266y,
            r.f267p is None && !r.f268z && r.f271p@.len() == 0 && r.ao == 0,
            r.f273q@.len() == 0 && r.f276o@.len() == 0 && r.f279e@.len() == 0 && r.f280f@.len() == 0,
            r.f284o@.len() == 0 && r.f285p@.len() == 0 && r.f286q@.len() == 0 && r.f287r@.len() == 0,
            r.f288a@.len() == 0 && r.f289s@.len() == 0 && r.f290t@.len() == 0 && r.f291u@.len() == 0,
            r.aq == 0 && r.ar == 0 && r.f_as == 0 && r.at == 0,
            r.au == 0,
    {
        World {
            f142a: Vec::new(),
            f172a: Vec::new(),
            f174b: None,
            f176a: Vec::new(),
            f177b: Vec::new(),
            f178a: Vec::new(),
            f179c: Vec::new(),
            f180d: Vec::new(),
            f181e: Vec::new(),
            f182f: Vec::new(),
            f189f: 0,
            f194b: Vec::new(),
            f195c: Vec::new(),
            f196d: Vec::new(),
            f197e: Vec::new(),
            f198f: Vec::new(),
            f199g: Vec::new(),
            f200h: Vec::new(),
            f201a: None,
            f209h: Vec::new(),
            f210g: Vec::new(),
            f211k: Vec::new(),
            f215b: Vec::new(),
            f216r: false,
            f217s: 0,
            f218t: 0,
            f219i: Vec::new(),
            f220c: None,
            f221u: 0,
            f222v: 0,
            w: 0,
            x: 0,
            y: 0,
            z: 0,
            f223A: 0,
            B: 0,
            C: 0,
            D: 0,
            G: 0,
            H: 0,
            f226b: 0,
            M: 0,
            P: 0,
            f227h: Vec::new(),
            f228i: Vec::new(),
            V: 0,
            f232s: false,
            f233b: Vec::new(),
            W: 0,
            f234j: Vec::new(),
            X: 0,
            f236d: None,
            aa: 0,
            f238u: false,
            ab: 0,
            f239j: Vec::new(),
            f240k: Vec::new(),
            f241l: Vec::new(),
            f242m: Vec::new(),
            f244l: None,
            f245j: None,
            f246b: Vec::new(),
            f251o: Vec::new(),
            f252k: Vec::new(),
            f253l: Vec::new(),
            f254m: Vec::new(),
            f255n: Vec::new(),
            f258n: Vec::new(),
            f260n: Vec::new(),
            f264o: Vec::new(),
            f265x: false,
            f266y: false,
            f267p: None,
            f268z: false,
            f271p: Vec::new(),
            ao: 0,
            f273q: Vec::new(),
            f276o: Vec::new(),
            f279e: Vec::new(),
            f280f: Vec::new(),
            f284o: Vec::new(),
            f285p: Vec::new(),
            f286q: Vec::new(),
            f287r: Vec::new(),
            f288a: Vec::new(),
            f289s: Vec::new(),
            f290t: Vec::new(),
            f291u: Vec::new(),
            aq: 0,
            ar: 0,
            f_as: 0,
            at: 0,
            au: 0,
        }
    }
}

impl Default for M {
    /// The JVM's zeroed object, before `m.<init>` runs.
    fn default() -> (r: Self)
        ensures
            r.common is None && r.screens@.len() == 0 && r.f193a@.len() == 0,
            !r.lifecycle.b && r.lifecycle.g == 0 && r.timing.f154a == 0,
            r.paint.f173a is None && r.paint.f230a is None,
    {
        M {
            lifecycle: Lifecycle::default(),
            timing: Timing::default(),
            keys: Keys::default(),
            rng: JavaRandom::default(),
            text: TextEngine::default(),
            loader: ResourceLoader::default(),
            trig: TrigTables::default(),
            common: None,
            screens: Vec::new(),
            f193a: Vec::new(),
            paint: PaintState::default(),
            music: Music::default(),
            world: World::default(),
        }
    }
}

} // verus!
