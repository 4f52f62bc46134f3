//! The run loop's decisions: the state machine, the frame timing, focus,
//! music and the random draws the painters use.
use crate::game::{Keys, Lifecycle, Timing, M};
use crate::jrandom::{lcg_next, next_int_value};
use vstd::prelude::*;

verus! {

/// `m.a()V` — start: clear the quit flag; the host then runs
/// [`run_prologue`] once and the loop.
pub fn m_start(m: &mut M)
    ensures
        *final(m) == (M { lifecycle: Lifecycle { quit_flag: false, ..old(m).lifecycle }, ..*old(m) }),
{
    m.lifecycle.quit_flag = false;
}

/// `m.b()V` — stop: raise the quit flag and enter state 100.
pub fn m_stop(m: &mut M)
    ensures
        *final(m) == (M {
            lifecycle: Lifecycle { quit_flag: true, g: 100, ..old(m).lifecycle },
            ..*old(m)
        }),
{
    m.lifecycle.quit_flag = true;
    m.lifecycle.g = 100;
}

/// The state `g` is one whose entry work is modelled: every state but the
/// map, battle and in-level ones.
pub open spec fn entry_modelled(g: i32) -> bool {
    g != 5 && g != 8 && g != 9 && g != 104 && g != 106
}

/// `m` after entering its current state: the backdrop is ready, and the
/// logo state latches when it was entered.
pub open spec fn entered(m: M) -> M {
    M {
        lifecycle: Lifecycle { b: true, ..m.lifecycle },
        timing: Timing {
            f229g: if m.lifecycle.g == 1 {
                m.timing.f154a
            } else {
                m.timing.f229g
            },
            ..m.timing
        },
        ..m
    }
}

/// `m.h()V` — enter the current state: its backdrop is ready, and the logo
/// state latches when it was entered.
pub fn enter_state(m: &mut M)
    requires
        entry_modelled(old(m).lifecycle.g),
    ensures
        *final(m) == entered(*old(m)),
{
    m.lifecycle.b = true;
    if m.lifecycle.g == 1 {
        m.timing.f229g = m.timing.f154a;
    }
}

/// `m.f()V` — the loop's state (re)entry: the resume load for the map and
/// in-level states, then [`enter_state`].
pub fn resume_boot(m: &mut M)
    requires
        entry_modelled(old(m).lifecycle.g),
    ensures
        *final(m) == entered(*old(m)),
{
    enter_state(m);
}

/// `m.run()`, before the loop: sample the clock (`now`), enter the logo
/// state and run its entry.
pub fn run_prologue(m: &mut M, now: i64)
    ensures
        *final(m) == (M {
            lifecycle: Lifecycle { g: 1, b: true, ..old(m).lifecycle },
            timing: Timing { f154a: now, f229g: now, ..old(m).timing },
            ..*old(m)
        }),
{
    m.timing.f154a = now;
    m.lifecycle.g = 1;
    resume_boot(m);
}

/// The logo has been shown for 5 s, or a key was pressed: the point where
/// the game leaves the logo for the menu.
pub open spec fn logo_done(m: M) -> bool {
    m.timing.f154a.wrapping_sub(m.timing.f229g) >= 5000 || m.keys.f170p
}

/// The per-tick update is modelled for `m`: the screen stack is empty and the
/// state is the logo screen short of its exit, or a state without update
/// work.
pub open spec fn update_modelled(m: M) -> bool {
    let g = m.lifecycle.g;
    &&& m.f193a@.len() == 0
    &&& g == 1 ==> !logo_done(m)
    &&& g != 5 && g != 9 && g != 101 && g != 102 && g != 104 && g != 106
}

/// `m.d()V` — the base state machine's update. On the logo screen it waits
/// for [`logo_done`]; the states without an arm do nothing.
pub fn update_state(m: &mut M)
    requires
        update_modelled(*old(m)),
    ensures
        *final(m) == *old(m),
{
}

/// `m.c()V` — the per-tick update: the top screen's, or the base state's
/// when the stack is empty.
pub fn update(m: &mut M)
    requires
        update_modelled(*old(m)),
    ensures
        *final(m) == *old(m),
{
    update_state(m);
}

/// The key flags with the edge latches and the last key code cleared.
pub open spec fn latches_cleared(k: Keys) -> Keys {
    Keys {
        f163i: false,
        f164j: false,
        f165k: false,
        f166l: false,
        f167m: false,
        f168n: false,
        f169o: false,
        f170p: false,
        f171h: 0,
        ..k
    }
}

/// The key flags with the held keys and the last key code cleared.
pub open spec fn held_cleared(k: Keys) -> Keys {
    Keys { f159e: false, f160f: false, f161g: false, f162h: false, f171h: 0, ..k }
}

/// `m.i()V` — clear the edge-latched keys and the last key code.
pub fn clear_key_latches(m: &mut M)
    ensures
        *final(m) == (M { keys: latches_cleared(old(m).keys), ..*old(m) }),
{
    m.keys.f163i = false;
    m.keys.f164j = false;
    m.keys.f165k = false;
    m.keys.f166l = false;
    m.keys.f167m = false;
    m.keys.f168n = false;
    m.keys.f169o = false;
    m.keys.f170p = false;
    m.keys.f171h = 0;
}

/// `m.j()V` — clear the held directional keys and the last key code.
pub fn clear_key_held(m: &mut M)
    ensures
        *final(m) == (M { keys: held_cleared(old(m).keys), ..*old(m) }),
{
    m.keys.f159e = false;
    m.keys.f160f = false;
    m.keys.f161g = false;
    m.keys.f162h = false;
    m.keys.f171h = 0;
}

/// The frame counter after one tick: it counts 0..9 and wraps.
pub open spec fn next_frame_count(c: i64) -> i64 {
    let c1 = if c == 9 {
        -1i64
    } else {
        c
    };
    c1.wrapping_add(1)
}

/// Law: the frame counter cycles through 0..9.
pub proof fn law_frame_count_cycles(c: i64)
    requires
        0 <= c <= 9,
    ensures
        next_frame_count(c) == (c + 1) % 10,
{
}

/// The loop timers after the first half of a running tick at `now`: the
/// sample, the frame count (latching the time when it passes 0) and the
/// 62 ms deadline.
pub open spec fn ticked(t: Timing, now: i64) -> Timing {
    Timing {
        f154a: now,
        f158e: if t.f157d == 0 {
            now
        } else {
            t.f158e
        },
        f157d: next_frame_count(t.f157d),
        f155b: now.wrapping_add(62),
        ..t
    }
}

/// The first half of one `m.run()` iteration, at clock sample `now`: unless
/// paused, count the frame, set the 62 ms deadline, update and clear the key
/// latches. Returns whether the host repaints now (running and not
/// quitting).
pub fn tick_update(m: &mut M, now: i64) -> (repaint: bool)
    requires
        old(m).lifecycle.paused || update_modelled(
            M { timing: Timing { f154a: now, ..old(m).timing }, ..*old(m) },
        ),
    ensures
        old(m).lifecycle.paused ==> *final(m) == (M {
            timing: Timing { f154a: now, ..old(m).timing },
            ..*old(m)
        }) && !repaint,
        !old(m).lifecycle.paused ==> *final(m) == (M {
            timing: ticked(old(m).timing, now),
            keys: latches_cleared(old(m).keys),
            ..*old(m)
        }) && repaint == !old(m).lifecycle.quit_flag,
{
    m.timing.f154a = now;
    if m.lifecycle.paused {
        return false;
    }
    if m.timing.f157d == 0 {
        m.timing.f158e = m.timing.f154a;
    } else if m.timing.f157d == 9 {
        m.timing.f157d = -1;
    }
    m.timing.f157d = m.timing.f157d.wrapping_add(1);
    m.timing.f155b = m.timing.f154a.wrapping_add(62);
    update(m);
    clear_key_latches(m);
    !m.lifecycle.quit_flag
}

/// How long the loop sleeps after a tick ending at `now`: what is left of
/// the frame deadline, at least 1 ms.
pub open spec fn sleep_for(deadline: i64, now: i64) -> i64 {
    let left = deadline.wrapping_sub(now);
    if left < 1 {
        1
    } else {
        left
    }
}

/// Law: the loop sleeps until the frame deadline and no longer. When the
/// deadline is still ahead (and the distance fits a `long`), it wakes exactly
/// at it: `now + sleep == deadline`; when it has passed, it sleeps the
/// minimum 1 ms. The sleep is never shorter than 1 ms.
pub proof fn law_sleep_reaches_the_deadline(deadline: i64, now: i64)
    ensures
        sleep_for(deadline, now) >= 1,
        now < deadline && deadline - now <= i64::MAX ==> now + sleep_for(deadline, now) == deadline,
        deadline <= now && deadline - now >= i64::MIN ==> sleep_for(deadline, now) == 1,
{
}

/// The second half of one `m.run()` iteration, at clock sample `now`: the
/// sleep before the next tick, which the host performs.
pub fn tick_sleep(m: &mut M, now: i64) -> (sleep: i64)
    ensures
        *final(m) == (M {
            timing: Timing { f154a: now, f156c: sleep_for(old(m).timing.f155b, now), ..old(m).timing },
            ..*old(m)
        }),
        sleep == sleep_for(old(m).timing.f155b, now),
        sleep >= 1,
{
    m.timing.f154a = now;
    m.timing.f156c = m.timing.f155b.wrapping_sub(m.timing.f154a);
    if m.timing.f156c < 1 {
        m.timing.f156c = 1;
    }
    m.timing.f156c
}

/// No live music player sits behind the active track (the players are
/// never created: the host plays no audio).
pub open spec fn no_live_player(m: M) -> bool {
    let ak = m.music.active_music_track;
    !(0 <= ak < 2 && m.music.music_players@[ak as int] is Some)
}

/// `m.i(I)V` — set the music volume. The whole body sits in a swallowed
/// `try`: with no active track the player lookup fails, and with no player
/// the control lookup fails, so nothing changes.
pub fn set_music_volume(m: &mut M, level: i32)
    requires
        no_live_player(*old(m)),
    ensures
        *final(m) == *old(m),
{
    let ak = m.music.active_music_track;
    if ak < 0 || ak >= 2 {
        return;
    }
    assert(m.music.music_players@[ak as int] is None);
}

/// `m.h(I)V` — select a music track: re-selecting the active one does
/// nothing; otherwise mute the old track, switch, and restore the volume.
pub fn select_music_track(m: &mut M, i: i32)
    requires
        no_live_player(*old(m)),
        !(0 <= i < 2 && old(m).music.music_players@[i as int] is Some),
    ensures
        final(m).music.active_music_track == i,
        *final(m) == (M { music: final(m).music, ..*old(m) }),
        final(m).music.music_players == old(m).music.music_players,
        final(m).music.music_volume == old(m).music.music_volume,
        final(m).music.f247k == old(m).music.f247k,
{
    let volume = m.music.music_volume;
    if m.music.active_music_track != i {
        if m.music.active_music_track >= 0 {
            set_music_volume(m, 0);
        }
        m.music.active_music_track = i;
        if m.music.active_music_track >= 0 {
            set_music_volume(m, volume);
        }
    }
}

/// `m.showNotify()` — focus gained: clear both key sets and unpause; once
/// the options record exists, restore its music volume (twice).
pub fn show_notify(m: &mut M)
    requires
        no_live_player(*old(m)),
        old(m).music.f247k matches Some(opts) ==> opts@.len() >= 3,
    ensures
        *final(m) == (M {
            keys: held_cleared(latches_cleared(old(m).keys)),
            lifecycle: Lifecycle { paused: false, ..old(m).lifecycle },
            ..*old(m)
        }),
{
    clear_key_latches(m);
    clear_key_held(m);
    m.lifecycle.paused = false;
    let level: Option<i32> = match &m.music.f247k {
        Some(opts) => Some(opts[2] as i32),
        None => None,
    };
    if let Some(v) = level {
        set_music_volume(m, v);
        set_music_volume(m, v);
    }
}

/// `m.hideNotify()` — focus lost: clear both key sets, pause, and mute.
pub fn hide_notify(m: &mut M)
    requires
        no_live_player(*old(m)),
    ensures
        *final(m) == (M {
            keys: held_cleared(latches_cleared(old(m).keys)),
            lifecycle: Lifecycle { paused: true, ..old(m).lifecycle },
            ..*old(m)
        }),
{
    clear_key_latches(m);
    clear_key_held(m);
    m.lifecycle.paused = true;
    set_music_volume(m, 0);
}

/// `|x|` on integers.
pub open spec fn abs(x: int) -> int {
    if x < 0 {
        -x
    } else {
        x
    }
}

/// `m.a(I)I` — `Math.abs(rng.nextInt() % i)`: the draw's magnitude modulo
/// `|i|` (the remainder is never `Integer.MIN_VALUE`, so the `abs` never
/// overflows).
pub fn rand_below(m: &mut M, i: i32) -> (r: i32)
    requires
        i != 0,
    ensures
        *final(m) == (M { rng: final(m).rng, ..*old(m) }),
        final(m).rng@ == lcg_next(old(m).rng@),
        r == abs(next_int_value(old(m).rng@)) % abs(i as int),
        0 <= r < abs(i as int),
{
    let n = m.rng.next_int();
    let a: u64 = if n < 0 {
        (-(n as i64)) as u64
    } else {
        n as u64
    };
    let b: u64 = if i < 0 {
        (-(i as i64)) as u64
    } else {
        i as u64
    };
    let q: u64 = a % b;
    assert(q < b);
    q as i32
}

} // verus!
