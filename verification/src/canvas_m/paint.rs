//! The painters' decisions. Each returns the drawing calls the host makes,
//! in order; the state they keep (the blink counter, the shake, the logo's
//! fade) lives in `m`.
//!
//! The logo frame: a white 176×208 field, the logo at `(R, S)`, then the
//! fade overlay `f230a` (`T`×`U` ARGB4444 pixels) over it.
use crate::canvas_m::run::{abs, enter_state, entered, entry_modelled};
use crate::game::{Lifecycle, PaintState, M};
use crate::jrandom::{lcg_next, next_int_value};
use vstd::prelude::*;

verus! {

/// Java's `long` division by a positive divisor: rounds toward zero.
pub open spec fn java_div(a: int, b: int) -> int {
    if a >= 0 {
        a / b
    } else {
        -((-a) / b)
    }
}

/// The fade's alpha nibble `t` ms after the logo appeared:
/// `(short) ((1000 - t) * 15 / 1000)` in `long` arithmetic before 1000 ms,
/// 0 until 4000 ms, and afterwards whatever it was.
pub open spec fn fade_alpha(t: i64, current: i16) -> i16 {
    if t < 1000 {
        (java_div((1000i64).wrapping_sub(t).wrapping_mul(15) as int, 1000) as i32) as i16
    } else if t < 4000 {
        0
    } else {
        current
    }
}

/// Law: the logo fades in over its first second. The alpha nibble starts
/// at 15 (opaque white over the logo), is `(1000 - t) * 15 / 1000` at `t`
/// ms, never rises while it falls, is 0 from 1000 ms to 4000 ms, and is
/// left as it was after that.
pub proof fn law_fade_in(t1: i64, t2: i64, current: i16)
    ensures
        fade_alpha(0, current) == 15,
        0 <= t1 < 1000 ==> fade_alpha(t1, current) == (1000 - t1) * 15 / 1000 && 0 <= fade_alpha(
            t1,
            current,
        ) <= 15,
        0 <= t1 <= t2 < 1000 ==> fade_alpha(t2, current) <= fade_alpha(t1, current),
        1000 <= t1 < 4000 ==> fade_alpha(t1, current) == 0,
        4000 <= t1 ==> fade_alpha(t1, current) == current,
{
    assert((1000i64).wrapping_sub(0) == 1000);
    assert((1000i64).wrapping_sub(0).wrapping_mul(15) == 15000);
    if 0 <= t1 < 1000 {
        let v1 = (1000 - t1) * 15;
        assert((1000i64).wrapping_sub(t1) == 1000 - t1);
        assert((1000i64).wrapping_sub(t1).wrapping_mul(15) == v1);
        assert(0 <= v1 / 1000 <= 15) by (nonlinear_arith)
            requires
                0 < v1 <= 15000,
        ;
        if t1 <= t2 < 1000 {
            let v2 = (1000 - t2) * 15;
            assert((1000i64).wrapping_sub(t2) == 1000 - t2);
            assert((1000i64).wrapping_sub(t2).wrapping_mul(15) == v2);
            assert(v2 / 1000 <= v1 / 1000) by (nonlinear_arith)
                requires
                    0 < v2 <= v1,
            ;
        }
    }
}

/// One overlay pixel for alpha nibble `a`: `(a << 12) + 4095` as a
/// `short` — white at that opacity.
pub open spec fn overlay_pixel(a: i16) -> i16 {
    ((a as int) * 4096 + 4095) as i16
}

/// One drawing call on the frame's `Graphics`.
#[derive(Debug, Clone, Copy, PartialEq, Eq)]
pub enum Draw {
    /// `setColor(rgb)`.
    SetColor(i32),
    /// `fillRect(x, y, width, height)`.
    FillRect { x: i32, y: i32, width: i32, height: i32 },
    /// `drawImage(logo, x, y, anchor)` with the logo image `f173a`.
    Logo { x: i32, y: i32, anchor: i32 },
    /// `DirectGraphics.drawPixels(f230a, transparency, offset, scanlength,
    /// x, y, width, height, manipulation, format)` with the fade overlay.
    Overlay {
        transparency: bool,
        offset: i32,
        scanlength: i32,
        x: i32,
        y: i32,
        width: i32,
        height: i32,
        manipulation: i32,
        format: i32,
    },
}

/// The logo frame's calls: white, the 176×208 field, the logo at `(R, S)`
/// anchored top-left (20), and the `T`×`U` overlay over it in ARGB4444
/// with transparency.
pub open spec fn logo_draws(p: PaintState) -> Seq<Draw> {
    seq![
        Draw::SetColor(0xFFFFFF),
        Draw::FillRect { x: 0, y: 0, width: 176, height: 208 },
        Draw::Logo { x: p.R, y: p.S, anchor: 20 },
        Draw::Overlay {
            transparency: true,
            offset: 0,
            scanlength: p.T,
            x: p.R,
            y: p.S,
            width: p.T,
            height: p.U,
            manipulation: 0,
            format: 4444,
        },
    ]
}

/// The logo frame's calls for these painters' state.
fn logo_frame(p: &PaintState) -> (r: Vec<Draw>)
    ensures
        r@ == logo_draws(*p),
{
    let mut r: Vec<Draw> = Vec::new();
    r.push(Draw::SetColor(0xFFFFFF));
    r.push(Draw::FillRect { x: 0, y: 0, width: 176, height: 208 });
    r.push(Draw::Logo { x: p.R, y: p.S, anchor: 20 });
    r.push(
        Draw::Overlay {
            transparency: true,
            offset: 0,
            scanlength: p.T,
            x: p.R,
            y: p.S,
            width: p.T,
            height: p.U,
            manipulation: 0,
            format: 4444,
        },
    );
    assert(r@ =~= logo_draws(*p));
    r
}

/// `m.c(Graphics)` — the logo frame: the white field and the logo, then
/// the fade alpha for the time since the logo appeared, written into every
/// overlay pixel, and the overlay. Returns the calls in order.
pub fn paint_logo(m: &mut M) -> (r: Vec<Draw>)
    requires
        old(m).paint.f230a is Some,
        old(m).paint.f173a is Some,
    ensures
        r@ == logo_draws(old(m).paint),
        ({
            let a = fade_alpha(
                old(m).timing.f154a.wrapping_sub(old(m).timing.f229g),
                old(m).paint.f231a,
            );
            &&& *final(m) == (M { paint: final(m).paint, ..*old(m) })
            &&& final(m).paint == (PaintState {
                f231a: a,
                f230a: final(m).paint.f230a,
                ..old(m).paint
            })
            &&& final(m).paint.f230a matches Some(buf) && buf@ == Seq::new(
                old(m).paint.f230a->Some_0@.len(),
                |i: int| overlay_pixel(a),
            )
        }),
{
    let r = logo_frame(&m.paint);
    let t = m.timing.f154a.wrapping_sub(m.timing.f229g);
    let alpha: i16 = if t < 1000 {
        let v: i64 = 1000i64.wrapping_sub(t).wrapping_mul(15);
        let mag: u64 = if v >= 0 {
            v as u64
        } else {
            (-(v as i128)) as u64
        };
        let qm: u64 = mag / 1000;
        let q: i64 = if v >= 0 {
            qm as i64
        } else {
            -(qm as i64)
        };
        (q as i32) as i16
    } else if t < 4000 {
        0
    } else {
        m.paint.f231a
    };
    let px: i16 = ((alpha as i32) * 4096 + 4095) as i16;
    let mut buf: Vec<i16> = match m.paint.f230a.take() {
        Some(b) => b,
        None => Vec::new(),
    };
    let ghost n = buf@.len();
    let mut i: usize = 0;
    while i < buf.len()
        invariant
            buf@.len() == n,
            0 <= i <= n,
            forall|k: int| 0 <= k < i ==> buf@[k] == px,
        decreases n - i,
    {
        buf.set(i, px);
        i = i + 1;
    }
    assert(buf@ =~= Seq::new(n, |k: int| overlay_pixel(alpha)));
    m.paint.f231a = alpha;
    m.paint.f230a = Some(buf);
    r
}

/// A shake jitter from one draw: `a(5) - 2`, in `-2..=2`.
pub open spec fn jitter(s: int) -> int {
    abs(next_int_value(s)) % 5 - 2
}

/// `m1` is `m0` after a shake that returned `t`: while the countdown runs
/// it counts down and two jitters are drawn, `dx` before `dy`.
pub open spec fn shaken(m0: M, m1: M, t: Option<(i32, i32)>) -> bool {
    if m0.paint.f212r > 0 {
        &&& m1 == (M {
            rng: m1.rng,
            paint: PaintState { f212r: (m0.paint.f212r - 1) as i32, ..m0.paint },
            ..m0
        })
        &&& m1.rng@ == lcg_next(lcg_next(m0.rng@))
        &&& t == Some((jitter(m0.rng@) as i32, jitter(lcg_next(m0.rng@)) as i32))
    } else {
        m1 == m0 && t is None
    }
}

/// `m.r(Graphics)` — the screen shake: while the countdown runs, count it
/// down and draw two jitters, `dx` before `dy`. Returns the translation the
/// host applies, if any.
pub fn paint_shake(m: &mut M) -> (r: Option<(i32, i32)>)
    ensures
        shaken(*old(m), *final(m), r),
{
    if m.paint.f212r > 0 {
        m.paint.f212r = m.paint.f212r - 1;
        let dx = crate::canvas_m::run::rand_below(m, 5) - 2;
        let dy = crate::canvas_m::run::rand_below(m, 5) - 2;
        Some((dx, dy))
    } else {
        None
    }
}

/// The blink counter after one frame: it counts 0..5 and wraps.
pub open spec fn blink(q: i32) -> i32 {
    let q1 = q.wrapping_add(1);
    if q1 == 6 {
        0
    } else {
        q1
    }
}

/// Law: the blink counter cycles through 0..5.
pub proof fn law_blink_cycles(q: i32)
    requires
        0 <= q <= 5,
    ensures
        blink(q) == (q + 1) % 6,
{
}

/// The state `g` is one whose painter is modelled: every state but the map,
/// battle, prompt and in-level ones.
pub open spec fn paint_modelled(g: i32) -> bool {
    g != 5 && g != 9 && g != 101 && g != 102 && g != 104 && g != 106
}

/// The logo can be painted: its image and overlay exist.
pub open spec fn logo_ready(m: M) -> bool {
    m.paint.f230a is Some && m.paint.f173a is Some
}

/// `m.b(Graphics)` — the state painter: advance the blink counter, then
/// paint the logo in the logo state. Returns the calls the host makes: the
/// logo frame's in the logo state, none otherwise.
pub fn paint_state(m: &mut M) -> (r: Vec<Draw>)
    requires
        paint_modelled(old(m).lifecycle.g),
        old(m).lifecycle.g == 1 ==> logo_ready(*old(m)),
    ensures
        r@ == (if old(m).lifecycle.g == 1 {
            logo_draws(old(m).paint)
        } else {
            Seq::empty()
        }),
        *final(m) == (M { paint: final(m).paint, ..*old(m) }),
        final(m).paint.Q == blink(old(m).paint.Q),
        final(m).paint.f212r == old(m).paint.f212r,
        final(m).paint.f173a == old(m).paint.f173a,
        final(m).paint.T == old(m).paint.T && final(m).paint.U == old(m).paint.U,
        final(m).paint.R == old(m).paint.R && final(m).paint.S == old(m).paint.S,
        old(m).lifecycle.g == 1 ==> {
            let a = fade_alpha(
                old(m).timing.f154a.wrapping_sub(old(m).timing.f229g),
                old(m).paint.f231a,
            );
            &&& final(m).paint.f231a == a
            &&& final(m).paint.f230a matches Some(buf) && buf@ == Seq::new(
                old(m).paint.f230a->Some_0@.len(),
                |i: int| overlay_pixel(a),
            )
        },
        old(m).lifecycle.g != 1 ==> final(m).paint.f231a == old(m).paint.f231a
            && final(m).paint.f230a == old(m).paint.f230a,
{
    let q = m.paint.Q.wrapping_add(1);
    m.paint.Q = if q == 6 {
        0
    } else {
        q
    };
    if m.lifecycle.g == 1 {
        paint_logo(m)
    } else {
        Vec::new()
    }
}

/// `p1` is the painters' state `p0` after a logo frame at fade time `t`:
/// the alpha for that time, written into every overlay pixel.
pub open spec fn faded(p0: PaintState, p1: PaintState, t: i64) -> bool {
    let a = fade_alpha(t, p0.f231a);
    &&& p1.f231a == a
    &&& p1.f230a matches Some(buf) && buf@ == Seq::new(
        p0.f230a->Some_0@.len(),
        |i: int| overlay_pixel(a),
    )
}

/// `m2` is `m1` after the root painter that made the calls `draws`: with
/// the backdrop ready, the blink advances and the logo state paints its
/// frame; otherwise the state is entered and nothing is drawn.
pub open spec fn root_painted(m1: M, m2: M, draws: Seq<Draw>) -> bool {
    if m1.lifecycle.b {
        let logo = m1.lifecycle.g == 1;
        &&& draws == (if logo {
            logo_draws(m1.paint)
        } else {
            Seq::empty()
        })
        &&& m2 == (M { paint: m2.paint, ..m1 })
        &&& m2.paint.Q == blink(m1.paint.Q)
        &&& m2.paint.f212r == m1.paint.f212r && m2.paint.f173a == m1.paint.f173a
        &&& m2.paint.T == m1.paint.T && m2.paint.U == m1.paint.U
        &&& m2.paint.R == m1.paint.R && m2.paint.S == m1.paint.S
        &&& logo ==> faded(m1.paint, m2.paint, m1.timing.f154a.wrapping_sub(m1.timing.f229g))
        &&& !logo ==> m2.paint.f231a == m1.paint.f231a && m2.paint.f230a == m1.paint.f230a
    } else {
        m2 == entered(m1) && draws == Seq::<Draw>::empty()
    }
}

/// `m.a(Graphics)` — paint the state's frame once its backdrop is ready;
/// until then, enter the state instead. Returns the calls the host makes.
pub fn paint_root(m: &mut M) -> (r: Vec<Draw>)
    requires
        old(m).lifecycle.b ==> paint_modelled(old(m).lifecycle.g) && (old(m).lifecycle.g == 1
            ==> logo_ready(*old(m))),
        !old(m).lifecycle.b ==> entry_modelled(old(m).lifecycle.g),
    ensures
        root_painted(*old(m), *final(m), r@),
{
    if m.lifecycle.b {
        paint_state(m)
    } else {
        enter_state(m);
        Vec::new()
    }
}

/// What the host does for one `m.paint` call.
#[derive(Debug, Clone, PartialEq, Eq)]
pub struct PaintPlan {
    /// The translation the shake applies before drawing, if any.
    pub translate: Option<(i32, i32)>,
    /// The drawing calls, in order, after the translation.
    pub draws: Vec<Draw>,
}

/// The state between a frame's shake and its root painter, read off the
/// frame's start `m0` and end `m2`: only the generator and the shake
/// countdown have moved, and the root painter moves neither.
pub open spec fn after_shake(m0: M, m2: M) -> M {
    M { rng: m2.rng, paint: PaintState { f212r: m2.paint.f212r, ..m0.paint }, ..m0 }
}

/// `m.paint(Graphics)` — one frame: the shake, then the base state's
/// painter (the screen stack is empty on the logo screen). Returns what the
/// host draws.
pub fn m_paint(m: &mut M) -> (plan: PaintPlan)
    requires
        old(m).f193a@.len() == 0,
        old(m).lifecycle.b ==> paint_modelled(old(m).lifecycle.g) && (old(m).lifecycle.g == 1
            ==> logo_ready(*old(m))),
        !old(m).lifecycle.b ==> entry_modelled(old(m).lifecycle.g),
    ensures
        shaken(*old(m), after_shake(*old(m), *final(m)), plan.translate),
        root_painted(after_shake(*old(m), *final(m)), *final(m), plan.draws@),
{
    let ghost m0 = *m;
    let translate = paint_shake(m);
    let ghost m1 = *m;
    let draws = paint_root(m);
    assert(shaken(m0, m1, translate));
    assert(root_painted(m1, *m, draws@));
    assert(m1 == after_shake(m0, *m));
    PaintPlan { translate, draws }
}

} // verus!
