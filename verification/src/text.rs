//! Class `ae` — the text engine: the `.utf` record stream helpers and the
//! bitmap-font descriptor.
//!
//! The descriptor is five `readUTF` records: the glyph string, the cell
//! width, the cell height, the atlas column count (three decimals), and the
//! per-glyph advances (space-separated decimals). The decimals are read the
//! game's way — `10 * acc + (unit - '0')` in 32-bit arithmetic, with no digit
//! check — and a failed record ends the load where it stands.
use crate::game::ImageInfo;
use crate::jio::{payload, utf_read_end, utf_record_at, utf_units_at, utf_units_spec, DataInput};
use crate::reader::{be_u16, signed32, to_i32};
use crate::utf::{lemma_units_len, mutf8_units};
use vstd::prelude::*;

verus! {

/// The text engine's fields.
#[derive(Debug)]
pub struct TextEngine {
    /// The bound glyph atlas: what the engine keeps of the decoded image,
    /// its size (`None` until a font is set).
    pub a: Option<ImageInfo>,
    /// Glyph cell width (descriptor record 2).
    pub f10a: i32,
    /// Glyph cell height (descriptor record 3).
    pub b: i32,
    /// Atlas columns (descriptor record 4).
    pub c: i32,
    /// The glyph string (descriptor record 1) as UTF-16 code units, the
    /// units `charAt` indexes.
    pub f11a: Option<Vec<u16>>,
    /// Per-glyph advances (descriptor record 5).
    pub f12a: Option<Vec<i32>>,
    /// The fallback glyph index (`f11a.length() - 1`).
    pub d: i32,
    /// The glyph count (`f11a.length()`).
    pub e: i32,
    /// Inter-character spacing addend.
    pub f: i32,
    /// Line-height addend.
    pub g: i32,
    /// Saved clip x.
    pub h: i32,
    /// Saved clip y.
    pub i: i32,
    /// Saved clip width.
    pub j: i32,
    /// Saved clip height.
    pub k: i32,
    /// Clip-constrain mode.
    pub f14a: bool,
}

impl Default for TextEngine {
    fn default() -> (t: Self)
        ensures
            t.f10a == 0 && t.b == 0 && t.c == 0 && t.d == 0 && t.e == 0,
            t.f == 0 && t.g == 0 && t.h == 0 && t.i == 0 && t.j == 0 && t.k == 0,
            t.a is None && t.f11a is None && t.f12a is None && !t.f14a,
    {
        TextEngine {
            a: None,
            f10a: 0,
            b: 0,
            c: 0,
            f11a: None,
            f12a: None,
            d: 0,
            e: 0,
            f: 0,
            g: 0,
            h: 0,
            i: 0,
            j: 0,
            k: 0,
            f14a: false,
        }
    }
}

/// The records a descriptor load gets through: up to `k` `readUTF` records
/// from `pos`, stopping at the first that raises, with the cursor after the
/// last attempt.
pub open spec fn descriptor_walk(s: Option<Seq<u8>>, pos: int, k: nat) -> (Seq<Seq<u16>>, int)
    decreases k,
{
    match s {
        None => (Seq::empty(), pos),
        Some(d) => if k == 0 {
            (Seq::empty(), pos)
        } else {
            match utf_units_at(d, pos) {
                None => (Seq::empty(), utf_read_end(d, pos)),
                Some((us, q)) => {
                    let rest = descriptor_walk(s, q, (k - 1) as nat);
                    (seq![us] + rest.0, rest.1)
                },
            }
        },
    }
}

/// `10 * acc + (unit - '0')` folded over the units, as the unsigned residue
/// of the 32-bit result.
pub open spec fn decimal_residue(us: Seq<u16>) -> int
    decreases us.len(),
{
    if us.len() == 0 {
        0
    } else {
        (10 * decimal_residue(us.drop_last()) + us.last() - 48) % 0x1_0000_0000
    }
}

/// The `int` a descriptor decimal reads as.
pub open spec fn decimal_value(us: Seq<u16>) -> i32 {
    signed32(decimal_residue(us)) as i32
}

/// The end of the token that starts at `i`: the first space at or after
/// `i`, or the end of the units.
pub open spec fn token_end(us: Seq<u16>, i: int) -> int
    decreases us.len() - i,
{
    if i >= us.len() {
        us.len() as int
    } else if us[i] == 32 {
        i
    } else {
        token_end(us, i + 1)
    }
}

/// `k` space-separated decimals read from `i` on; those past the end of the
/// units read as 0.
pub open spec fn advances_from(us: Seq<u16>, i: int, k: nat) -> Seq<i32>
    decreases k,
{
    if k == 0 {
        Seq::empty()
    } else {
        let e = token_end(us, i);
        let next = if e < us.len() {
            e + 1
        } else {
            e
        };
        seq![decimal_value(us.subrange(i, e))] + advances_from(us, next, (k - 1) as nat)
    }
}

/// `k` advances are read, whatever the record holds.
pub proof fn lemma_advances_len(us: Seq<u16>, i: int, k: nat)
    ensures
        advances_from(us, i, k).len() == k,
    decreases k,
{
    if k > 0 {
        let e = token_end(us, i);
        let next = if e < us.len() {
            e + 1
        } else {
            e
        };
        lemma_advances_len(us, next, (k - 1) as nat);
    }
}

/// The engine `new` is `old` after a descriptor load that got through the
/// records `recs`.
pub open spec fn descriptor_loaded(old: TextEngine, new: TextEngine, recs: Seq<Seq<u16>>) -> bool {
    &&& if recs.len() >= 1 {
        &&& new.f11a matches Some(gs) && gs@ == recs[0]
        &&& new.e == recs[0].len()
        &&& new.f12a matches Some(adv) && adv@ == (if recs.len() >= 5 {
            advances_from(recs[4], 0, recs[0].len())
        } else {
            Seq::new(recs[0].len(), |i: int| 0i32)
        })
    } else {
        new.f11a == old.f11a && new.e == old.e && new.f12a == old.f12a
    }
    &&& new.f10a == (if recs.len() >= 2 {
        decimal_value(recs[1])
    } else {
        old.f10a
    })
    &&& new.b == (if recs.len() >= 3 {
        decimal_value(recs[2])
    } else {
        old.b
    })
    &&& new.c == (if recs.len() >= 4 {
        decimal_value(recs[3])
    } else {
        old.c
    })
    &&& new.a == old.a && new.g == old.g && new.h == old.h && new.i == old.i
    &&& new.j == old.j && new.k == old.k && new.f14a == old.f14a
}

/// Law: a descriptor load that read the glyph string leaves one advance
/// per glyph, and the glyph count is the string's length in code units.
pub proof fn law_one_advance_per_glyph(old: TextEngine, new: TextEngine, recs: Seq<Seq<u16>>)
    requires
        descriptor_loaded(old, new, recs),
        recs.len() >= 1,
    ensures
        new.f11a matches Some(gs) && new.f12a matches Some(adv) && adv@.len() == gs@.len()
            && new.e == gs@.len(),
{
    if recs.len() >= 5 {
        lemma_advances_len(recs[4], 0, recs[0].len());
    }
}

/// The fallback glyph index for a glyph string of `n` units:
/// `n - 1` in 32-bit arithmetic.
pub open spec fn fallback_index(n: nat) -> i32 {
    let x = n as i32;
    if x == i32::MIN {
        i32::MAX
    } else {
        (x - 1) as i32
    }
}

/// A freshly constructed engine: the saved clip size is 200000 by 200000,
/// everything else zero.
pub open spec fn fresh_engine() -> TextEngine {
    TextEngine {
        a: None,
        f10a: 0,
        b: 0,
        c: 0,
        f11a: None,
        f12a: None,
        d: 0,
        e: 0,
        f: 0,
        g: 0,
        h: 0,
        i: 0,
        j: 200000,
        k: 200000,
        f14a: false,
    }
}

/// `ae.<init>` — the field initializers: the saved clip size is 200000 by
/// 200000, everything else zero.
pub fn ae_init() -> (t: TextEngine)
    ensures
        t == fresh_engine(),
        t.j == 200000 && t.k == 200000,
        t.f10a == 0 && t.b == 0 && t.c == 0 && t.d == 0 && t.e == 0,
        t.f == 0 && t.g == 0 && t.h == 0 && t.i == 0,
        t.a is None && t.f11a is None && t.f12a is None && !t.f14a,
{
    let mut t = TextEngine::default();
    t.j = 200000;
    t.k = 200000;
    t
}

/// One descriptor decimal: `10 * acc + (unit - '0')` over the units, in
/// 32-bit arithmetic, with no digit check.
fn parse_decimal(us: &[u16]) -> (r: i32)
    ensures
        r == decimal_value(us@),
{
    let mut acc: u64 = 0;
    let mut i: usize = 0;
    while i < us.len()
        invariant
            0 <= i <= us@.len(),
            acc < 0x1_0000_0000,
            acc == decimal_residue(us@.subrange(0, i as int)),
        decreases us@.len() - i,
    {
        let x: u64 = 10 * acc + us[i] as u64 + 0x1_0000_0000 - 48;
        proof {
            let y: int = 10 * acc + us@[i as int] - 48;
            vstd::arithmetic::div_mod::lemma_mod_add_multiples_vanish(y, 0x1_0000_0000);
            assert(us@.subrange(0, i + 1).drop_last() =~= us@.subrange(0, i as int));
        }
        acc = x % 0x1_0000_0000;
        i = i + 1;
    }
    assert(us@.subrange(0, us@.len() as int) =~= us@);
    to_i32(acc as u32)
}

/// The per-glyph advances: `count` space-separated decimals, those past the
/// end of the record reading as 0.
fn parse_advances(us: &Vec<u16>, count: usize) -> (r: Vec<i32>)
    ensures
        r@ == advances_from(us@, 0, count as nat),
{
    let mut out: Vec<i32> = Vec::new();
    let mut at: usize = 0;
    let mut k: usize = 0;
    while k < count
        invariant
            0 <= k <= count,
            0 <= at <= us@.len(),
            out@ + advances_from(us@, at as int, (count - k) as nat) == advances_from(
                us@,
                0,
                count as nat,
            ),
        decreases count - k,
    {
        let ghost rest = advances_from(us@, at as int, (count - k) as nat);
        let mut end = at;
        while end < us.len() && us[end] != 32
            invariant
                at <= end <= us@.len(),
                token_end(us@, end as int) == token_end(us@, at as int),
            decreases us@.len() - end,
        {
            end = end + 1;
        }
        let v = parse_decimal(&us.as_slice()[at..end]);
        out.push(v);
        at = if end < us.len() {
            end + 1
        } else {
            end
        };
        assert(rest == seq![v] + advances_from(us@, at as int, (count - k - 1) as nat));
        assert(out@ + advances_from(us@, at as int, (count - k - 1) as nat) =~= out@.drop_last()
            + rest);
        k = k + 1;
    }
    assert(out@ + Seq::<i32>::empty() =~= out@);
    out
}

/// `new int[n]`: `n` zero advances.
fn zero_advances(n: usize) -> (r: Vec<i32>)
    ensures
        r@ == Seq::new(n as nat, |i: int| 0i32),
{
    let mut out: Vec<i32> = Vec::with_capacity(n);
    let mut i: usize = 0;
    while i < n
        invariant
            0 <= i <= n,
            out@ =~= Seq::new(i as nat, |k: int| 0i32),
        decreases n - i,
    {
        out.push(0);
        i = i + 1;
    }
    out
}

/// The descriptor's `try` block: read the five records in turn, storing
/// each as it arrives; the first record that raises ends the block.
fn load_descriptor(t: &mut TextEngine, dis: &mut DataInput)
    ensures
        final(dis).stream() == old(dis).stream(),
        final(dis).pos_spec() == descriptor_walk(old(dis).stream(), old(dis).pos_spec(), 5).1,
        descriptor_loaded(*old(t), *final(t), descriptor_walk(old(dis).stream(), old(dis).pos_spec(), 5).0),
        final(t).d == old(t).d,
        final(t).f == old(t).f,
{
    let ghost s = dis.stream();
    let ghost p0 = dis.pos_spec();
    proof {
        dis.lemma_pos_nonneg();
        reveal_with_fuel(descriptor_walk, 6);
    }
    let glyphs = match dis.read_utf_units() {
        Ok(g) => g,
        Err(_) => return,
    };
    let ghost d = s->Some_0;
    let ghost p1 = dis.pos_spec();
    proof {
        assert(s == Some(d));
        assert(p0 + 2 <= d.len());
        assert(p0 + 2 + be_u16(d, p0) <= d.len());
        assert(0 <= be_u16(d, p0) <= 0xffff);
        let body = d.subrange(p0 + 2, p0 + 2 + be_u16(d, p0));
        lemma_units_len(body, 0, 0);
        assert(utf_units_spec(body) == Ok::<Seq<u16>, &'static str>(glyphs@));
        assert(mutf8_units(body, 0, 0) is Ok);
        let units = mutf8_units(body, 0, 0)->Ok_0;
        assert(body.len() == be_u16(d, p0));
        assert(units.len() <= body.len());
        assert(units.len() <= 0xffff);
        assert(glyphs@.len() == units.len());
        assert(utf_units_at(d, p0) == Some((glyphs@, p1)));
    }
    let n = glyphs.len();
    t.e = n as i32;
    t.f12a = Some(zero_advances(n));
    t.f11a = Some(glyphs);
    assert(descriptor_loaded(*old(t), *t, seq![glyphs@]));
    let width = match dis.read_utf_units() {
        Ok(u) => u,
        Err(_) => return,
    };
    let ghost p2 = dis.pos_spec();
    assert(utf_units_at(d, p1) == Some((width@, p2)));
    t.f10a = parse_decimal(width.as_slice());
    let height = match dis.read_utf_units() {
        Ok(u) => u,
        Err(_) => return,
    };
    let ghost p3 = dis.pos_spec();
    assert(utf_units_at(d, p2) == Some((height@, p3)));
    t.b = parse_decimal(height.as_slice());
    let columns = match dis.read_utf_units() {
        Ok(u) => u,
        Err(_) => return,
    };
    let ghost p4 = dis.pos_spec();
    assert(utf_units_at(d, p3) == Some((columns@, p4)));
    t.c = parse_decimal(columns.as_slice());
    let adv = match dis.read_utf_units() {
        Ok(u) => u,
        Err(_) => return,
    };
    let ghost p5 = dis.pos_spec();
    assert(utf_units_at(d, p4) == Some((adv@, p5)));
    t.f12a = Some(parse_advances(&adv, n));
}

/// `ae.a(DataInputStream)` — read the font descriptor: the five records
/// inside one swallowed `try`, then the fallback glyph index
/// `f11a.length() - 1`, which needs a glyph string — loaded now or earlier.
pub fn ae_read_font_descriptor(t: &mut TextEngine, dis: &mut DataInput)
    requires
        old(t).f11a is Some || descriptor_walk(old(dis).stream(), old(dis).pos_spec(), 1).0.len()
            == 1,
    ensures
        final(dis).stream() == old(dis).stream(),
        final(dis).pos_spec() == descriptor_walk(old(dis).stream(), old(dis).pos_spec(), 5).1,
        descriptor_loaded(*old(t), *final(t), descriptor_walk(old(dis).stream(), old(dis).pos_spec(), 5).0),
        final(t).f == old(t).f,
        final(t).f11a matches Some(gs) && final(t).d == fallback_index(gs@.len()),
{
    proof {
        reveal_with_fuel(descriptor_walk, 2);
    }
    load_descriptor(t, dis);
    let n = match &t.f11a {
        Some(gs) => gs.len(),
        None => 0,
    };
    let x = n as i32;
    t.d = if x == i32::MIN {
        i32::MAX
    } else {
        x - 1
    };
}

/// The bytes of a signed byte array, as the stream reads them.
pub open spec fn unsigned_bytes(b: Seq<i8>) -> Seq<u8> {
    b.map_values(|x: i8| x as u8)
}

/// The bytes of a signed byte array.
pub fn to_unsigned(b: &[i8]) -> (r: Vec<u8>)
    ensures
        r@ == unsigned_bytes(b@),
{
    let mut bytes: Vec<u8> = Vec::with_capacity(b.len());
    let mut i: usize = 0;
    while i < b.len()
        invariant
            0 <= i <= b@.len(),
            bytes@ =~= unsigned_bytes(b@.subrange(0, i as int)),
        decreases b@.len() - i,
    {
        bytes.push(b[i] as u8);
        i = i + 1;
    }
    assert(b@.subrange(0, b@.len() as int) =~= b@);
    bytes
}

/// Whether a font descriptor's first record — the glyph string — reads,
/// the one record a load needs on a fresh engine.
pub fn glyph_record_reads(b_arr: &[i8]) -> (r: bool)
    ensures
        r == (descriptor_walk(Some(unsigned_bytes(b_arr@)), 0, 1).0.len() == 1),
{
    let mut dis = DataInput::new(Some(to_unsigned(b_arr)));
    proof {
        reveal_with_fuel(descriptor_walk, 2);
    }
    let r = dis.read_utf_units();
    proof {
        let d = unsigned_bytes(b_arr@);
        if r is Ok {
            assert(utf_units_at(d, 0) is Some);
        }
    }
    r.is_ok()
}

/// `ae.a(byte[], Image)` — bind the glyph atlas, then load the font
/// descriptor from its blob: wrap it in a stream, read the descriptor,
/// close.
pub fn ae_set_font(t: &mut TextEngine, b_arr: &[i8], image: ImageInfo)
    requires
        old(t).f11a is Some || descriptor_walk(Some(unsigned_bytes(b_arr@)), 0, 1).0.len() == 1,
    ensures
        final(t).a == Some(image),
        descriptor_loaded(
            (TextEngine { a: Some(image), ..*old(t) }),
            *final(t),
            descriptor_walk(Some(unsigned_bytes(b_arr@)), 0, 5).0,
        ),
        final(t).f == old(t).f,
        final(t).f11a matches Some(gs) && final(t).d == fallback_index(gs@.len()),
{
    t.a = Some(image);
    let bytes = to_unsigned(b_arr);
    let mut dis = ae_open_stream(Some(bytes));
    ae_read_font_descriptor(t, &mut dis);
    ae_close_stream(&mut dis);
}

/// `ae.a()` — the line height, `b + g` in 32-bit arithmetic.
pub fn ae_line_height(t: &TextEngine) -> (r: i32)
    ensures
        r == t.b.wrapping_add(t.g),
{
    t.b.wrapping_add(t.g)
}

/// `static ae.a(InputStream)` — open_stream: wrap bytes (possibly none) in a
/// `DataInputStream`; construction never fails.
pub fn ae_open_stream(bytes: Option<Vec<u8>>) -> (s: DataInput)
    ensures
        s.stream() == payload(bytes),
        s.pos_spec() == 0,
{
    DataInput::new(bytes)
}

/// `ae.m3a(DataInputStream)` — read_record: one `readUTF` record, `None` on
/// any exception.
pub fn ae_read_record(dis: &mut DataInput) -> (r: Option<String>)
    ensures
        final(dis).stream() == old(dis).stream(),
        match old(dis).stream() {
            None => r is None && final(dis).pos_spec() == old(dis).pos_spec(),
            Some(d) => final(dis).pos_spec() == utf_read_end(d, old(dis).pos_spec()) && match utf_record_at(
                d,
                old(dis).pos_spec(),
            ) {
                Some((cs, q)) => r matches Some(s) && s@ == cs,
                None => r is None,
            },
        },
{
    match dis.read_utf() {
        Ok(s) => Some(s),
        Err(_) => None,
    }
}

/// `static ae.b(DataInputStream)` — close_stream, exceptions swallowed.
pub fn ae_close_stream(dis: &mut DataInput)
    ensures
        final(dis).stream() == old(dis).stream(),
        final(dis).pos_spec() == old(dis).pos_spec(),
{
    let _ = dis.close();
}

} // verus!
