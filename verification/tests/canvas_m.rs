use rage_of_mages::canvas_m::paint::{m_paint, paint_logo, paint_shake, paint_state, Draw};
use rage_of_mages::canvas_m::run::{
    clear_key_held, clear_key_latches, enter_state, hide_notify, m_start, m_stop, rand_below,
    run_prologue, select_music_track, set_music_volume, show_notify, tick_sleep, tick_update,
};
use rage_of_mages::canvas_m::{m_bind_images, m_init, m_init_with, m_try_init, m_try_init_with};
use rage_of_mages::game::{ImageInfo, M};
use rage_of_mages::jrandom::JavaRandom;
use rage_of_mages::resource::Resources;

const ATLAS: ImageInfo = ImageInfo { width: 64, height: 32 };

fn logo_frame(r: i32, s: i32, t: i32, u: i32) -> Vec<Draw> {
    vec![
        Draw::SetColor(0xFFFFFF),
        Draw::FillRect { x: 0, y: 0, width: 176, height: 208 },
        Draw::Logo { x: r, y: s, anchor: 20 },
        Draw::Overlay {
            transparency: true,
            offset: 0,
            scanlength: t,
            x: r,
            y: s,
            width: t,
            height: u,
            manipulation: 0,
            format: 4444,
        },
    ]
}

fn utf_record(s: &str) -> Vec<u8> {
    let mut out = (s.len() as u16).to_be_bytes().to_vec();
    out.extend_from_slice(s.as_bytes());
    out
}

fn trig_table(base: i16) -> Vec<u8> {
    (0..90i16).flat_map(|i| (base + i).to_be_bytes()).collect()
}

fn common_utf() -> Vec<u8> {
    let mut out = Vec::new();
    for i in 0..28 {
        out.extend(utf_record("1"));
        out.extend(utf_record(&format!("entry {i}")));
    }
    out
}

fn pak(entries: &[&[u8]]) -> Vec<u8> {
    let mut out = (entries.len() as i32).to_be_bytes().to_vec();
    for e in entries {
        out.extend_from_slice(&(e.len() as i32).to_be_bytes());
    }
    for e in entries {
        out.extend(e.iter().map(|&b| b ^ 0x53));
    }
    out
}

fn descriptor() -> Vec<u8> {
    let mut out = Vec::new();
    for rec in ["AB!", "7", "9", "16", "5 6 4 "] {
        out.extend(utf_record(rec));
    }
    out
}

fn res0() -> Vec<u8> {
    pak(&[b"LOGO", b"ATLAS", &descriptor()])
}

fn booted() -> M {
    let mut m = M::default();
    let (logo, atlas) = m_init_with(
        &mut m,
        Some(trig_table(0)),
        Some(trig_table(1000)),
        Some(common_utf()),
        Some(res0()),
        5,
        0,
    );
    assert_eq!(logo, b"LOGO".iter().map(|&b| b as i8).collect::<Vec<_>>());
    assert_eq!(atlas, b"ATLAS".iter().map(|&b| b as i8).collect::<Vec<_>>());
    m
}

struct Jar;
impl Resources for Jar {
    fn resource_as_stream(&self, name: &str) -> Option<Vec<u8>> {
        match name {
            "/sincos/sin.int" => Some(trig_table(0)),
            "/sincos/cos.int" => Some(trig_table(1000)),
            "/res/common.utf" => Some(common_utf()),
            "/res/res0.pak" => Some(res0()),
            _ => None,
        }
    }
}

#[test]
fn m_init_reads_the_four_resources() {
    let mut m = M::default();
    let (logo, _) = m_init(&mut m, &Jar, 1, 0);
    assert_eq!(logo, b"LOGO".iter().map(|&b| b as i8).collect::<Vec<_>>());
    assert!(m.trig.f312a);
    assert_eq!(m.text.e, 3);
}

#[test]
fn m_try_init_reports_a_boot_the_game_would_not_survive() {
    struct NoPak;
    impl Resources for NoPak {
        fn resource_as_stream(&self, name: &str) -> Option<Vec<u8>> {
            Jar.resource_as_stream(name).filter(|_| name != "/res/res0.pak")
        }
    }
    let mut m = M::default();
    assert!(m_try_init(&mut m, &NoPak, 1, 0).is_none());
    assert!(m_try_init(&mut m, &Jar, 1, 0).is_some());
    assert_eq!(m.text.e, 3);
}

#[test]
fn boot_sets_the_constructor_state() {
    let m = booted();
    assert_eq!(m.lifecycle.g, 1);
    assert!(!m.lifecycle.b && !m.lifecycle.paused && !m.lifecycle.quit_flag);
    assert_eq!(m.screens.len(), 22);
    let kinds: Vec<i32> = m.screens.iter().map(|s| s.b).collect();
    assert_eq!(
        kinds,
        vec![0, 3, 1, 2, 4, 5, 6, 7, 8, 9, 10, 11, 12, 13, 14, 15, 16, 17, 18, 19, 21, 22]
    );
    assert_eq!(m.text.f, -1);
    assert_eq!(m.text.e, 3);
    assert_eq!((m.text.f10a, m.text.b, m.text.c), (7, 9, 16));
    assert_eq!(m.text.f12a.as_deref(), Some(&[5, 6, 4][..]));
    assert!(m.loader.a.is_none() && m.loader.f119a.is_none());
    assert_eq!(m.loader.f121a, 3);
    assert!(m.trig.f312a);
    assert_eq!(m.trig.a[45], 45);
    assert_eq!(m.common.as_ref().map(|t| t.q.clone()), Some(vec!["entry 16".to_string()]));
    assert_eq!(m.paint.f231a, 15);
    assert_eq!(m.music.active_music_track, -1);
    assert_eq!(m.music.music_volume, 40);
    assert_eq!(m.world.y, 15);
    assert_eq!(m.world.f209h.len(), 15);
    assert_eq!(m.world.f209h[11], vec![35, 54, 54, 54]);
    assert_eq!(m.world.f234j[14], vec![8, 27]);
    assert_eq!(m.world.f280f[5][3], vec![12, 304, 416, -1, 19, -1000]);
    assert_eq!(m.world.f174b, Some(ImageInfo { width: 176, height: 208 }));
}

#[test]
fn the_gradient_is_baked_row_by_row() {
    let m = booted();
    assert_eq!(m.world.f233b.len(), 320);
    assert_eq!(m.world.f233b[0], (15i32 << 12) as i16); // -4096
    assert_eq!(m.world.f233b[7], (8i32 << 12) as i16);
    assert_eq!(m.world.f233b[8], 7 << 12);
    assert_eq!(m.world.f233b[15], 0);
    assert_eq!(m.world.f233b[16 * 19 + 1], 14 << 12);
}

#[test]
fn the_boot_reseeds_from_the_second_clock_sample() {
    let mut m = booted();
    let mut reference = JavaRandom::with_seed(0);
    assert_eq!(
        rand_below(&mut m, 1_000_000),
        (reference.next_int() as i64).abs() as i32 % 1_000_000
    );
}

#[test]
fn the_boot_dies_where_the_game_would() {
    let mut m = booted();
    // No common table.
    assert!(m_try_init_with(&mut m, None, None, None, Some(res0()), 0, 0).is_none());
    // A pak with only two entries.
    let two = pak(&[b"a", b"b"]);
    assert!(m_try_init_with(&mut m, None, None, Some(common_utf()), Some(two), 0, 0).is_none());
    // A descriptor whose glyph string does not read.
    let bad = pak(&[b"a", b"b", &[0x00, 0x09, b'x']]);
    assert!(m_try_init_with(&mut m, None, None, Some(common_utf()), Some(bad), 0, 0).is_none());
    // No res0.pak at all.
    assert!(m_try_init_with(&mut m, None, None, Some(common_utf()), None, 0, 0).is_none());
}

#[test]
fn missing_trig_tables_do_not_stop_the_boot() {
    let mut m = M::default();
    let _ = m_init_with(&mut m, None, None, Some(common_utf()), Some(res0()), 0, 0);
    assert!(!m.trig.f312a);
}

#[test]
fn the_logo_is_centred() {
    let mut m = booted();
    m_bind_images(&mut m, ImageInfo { width: 101, height: 40 }, ATLAS);
    assert_eq!((m.paint.T, m.paint.U), (101, 40));
    assert_eq!((m.paint.R, m.paint.S), (88 - 50, 104 - 20));
    assert_eq!(m.paint.f230a.as_ref().map(|b| b.len()), Some(4040));
    assert_eq!(m.text.a, Some(ATLAS));
}

#[test]
fn the_logo_fades_in_over_the_first_second() {
    let mut m = booted();
    m_bind_images(&mut m, ImageInfo { width: 2, height: 2 }, ATLAS);
    run_prologue(&mut m, 10_000);
    assert!(m.lifecycle.b);
    assert_eq!(m.timing.f229g, 10_000);
    for (t, alpha) in [(0i64, 15i16), (1, 14), (500, 7), (999, 0), (1000, 0), (3999, 0)] {
        m.timing.f154a = 10_000 + t;
        assert_eq!(paint_logo(&mut m), logo_frame(87, 103, 2, 2));
        assert_eq!(m.paint.f231a, alpha, "t = {t}");
        let px = ((alpha as i32) << 12).wrapping_add(4095) as i16;
        assert_eq!(m.paint.f230a.as_deref(), Some(&[px; 4][..]));
    }
    // Past 4000 ms the alpha is left as it was.
    m.paint.f231a = 9;
    m.timing.f154a = 10_000 + 4000;
    paint_logo(&mut m);
    assert_eq!(m.paint.f231a, 9);
    // A clock that went backwards: (1000 + 2000) * 15 / 1000 = 45, narrowed.
    m.timing.f154a = 10_000 - 2000;
    paint_logo(&mut m);
    assert_eq!(m.paint.f231a, 45);
}

#[test]
fn one_tick_counts_the_frame_and_sets_the_deadline() {
    let mut m = booted();
    run_prologue(&mut m, 100);
    m.keys.f163i = true;
    assert!(tick_update(&mut m, 100));
    assert_eq!(m.timing.f157d, 1);
    assert_eq!(m.timing.f158e, 100);
    assert_eq!(m.timing.f155b, 162);
    assert!(!m.keys.f163i);
    assert_eq!(tick_sleep(&mut m, 130), 32);
    assert_eq!(tick_sleep(&mut m, 500), 1);
    assert_eq!(m.timing.f156c, 1);
}

#[test]
fn the_frame_counter_wraps_after_nine() {
    let mut m = booted();
    run_prologue(&mut m, 0);
    m.timing.f157d = 9;
    assert!(tick_update(&mut m, 1));
    assert_eq!(m.timing.f157d, 0);
    assert!(tick_update(&mut m, 2));
    assert_eq!(m.timing.f157d, 1);
    assert_eq!(m.timing.f158e, 2);
}

#[test]
fn a_paused_or_quitting_loop_does_not_repaint() {
    let mut m = booted();
    run_prologue(&mut m, 0);
    hide_notify(&mut m);
    assert!(m.lifecycle.paused);
    assert!(!tick_update(&mut m, 5));
    assert_eq!(m.timing.f154a, 5);
    assert_eq!(m.timing.f157d, 0);
    show_notify(&mut m);
    assert!(!m.lifecycle.paused);
    m_stop(&mut m);
    assert_eq!(m.lifecycle.g, 100);
    assert!(!tick_update(&mut m, 6));
    m_start(&mut m);
    assert!(!m.lifecycle.quit_flag);
}

#[test]
fn focus_changes_clear_the_keys() {
    let mut m = booted();
    m.keys.f159e = true;
    m.keys.f170p = true;
    m.keys.f171h = 42;
    hide_notify(&mut m);
    assert!(!m.keys.f159e && !m.keys.f170p);
    assert_eq!(m.keys.f171h, 0);
    m.keys.f160f = true;
    clear_key_latches(&mut m);
    assert!(m.keys.f160f);
    clear_key_held(&mut m);
    assert!(!m.keys.f160f);
    m.music.f247k = Some(vec![0, 0, 30]);
    show_notify(&mut m);
    assert_eq!(m.music.music_volume, 40);
}

#[test]
fn music_selection_switches_the_track_without_players() {
    let mut m = booted();
    select_music_track(&mut m, 1);
    assert_eq!(m.music.active_music_track, 1);
    set_music_volume(&mut m, 10);
    assert_eq!(m.music.music_volume, 40);
    select_music_track(&mut m, -1);
    assert_eq!(m.music.active_music_track, -1);
}

#[test]
fn a_painted_frame_blinks_and_fades() {
    let mut m = booted();
    m_bind_images(&mut m, ImageInfo { width: 1, height: 1 }, ATLAS);
    m.timing.f154a = 0;
    enter_state(&mut m);
    m.paint.Q = 5;
    m.timing.f154a = 250;
    let plan = m_paint(&mut m);
    assert_eq!(plan.draws, logo_frame(88, 104, 1, 1));
    assert_eq!(plan.translate, None);
    assert_eq!(m.paint.Q, 0);
    assert_eq!(m.paint.f231a, 11);
    assert_eq!(paint_state(&mut m), logo_frame(88, 104, 1, 1));
    assert_eq!(m.paint.Q, 1);
}

#[test]
fn the_first_paint_before_the_backdrop_enters_the_state() {
    let mut m = booted();
    m_bind_images(&mut m, ImageInfo { width: 1, height: 1 }, ATLAS);
    m.timing.f154a = 77;
    let plan = m_paint(&mut m);
    assert!(plan.draws.is_empty());
    assert!(m.lifecycle.b);
    assert_eq!(m.timing.f229g, 77);
}

#[test]
fn the_shake_jitters_within_two_pixels() {
    let mut m = booted();
    m.paint.f212r = 3;
    let mut reference = JavaRandom::with_seed(0);
    let dx = ((reference.next_int() as i64).abs() % 5) as i32 - 2;
    let dy = ((reference.next_int() as i64).abs() % 5) as i32 - 2;
    assert_eq!(paint_shake(&mut m), Some((dx, dy)));
    assert_eq!(m.paint.f212r, 2);
    m.paint.f212r = 0;
    assert_eq!(paint_shake(&mut m), None);
}

#[test]
fn rand_below_uses_the_magnitude_of_the_bound() {
    let mut a = booted();
    let mut b = booted();
    assert_eq!(rand_below(&mut a, 7), rand_below(&mut b, -7));
    for _ in 0..50 {
        let r = rand_below(&mut a, 3);
        assert!((0..3).contains(&r));
    }
}
