//! Class `o` — the fixed-point sine/cosine lookup.
//!
//! The tables are data loaded from `/sincos/sin.int` + `/sincos/cos.int`
//! (90 × big-endian `i16` each, scale 10000): one entry per degree of a
//! quarter turn. The full circle is reconstructed by quadrant folding.
use crate::jio::{has_bytes, payload, DataInput};
use crate::reader::{be_u16, signed16};
use crate::int_table::int_table_spec;
use crate::resource::Resources;
use vstd::prelude::*;

verus! {

/// The number of entries per quarter table.
pub const QUARTER: usize = 90;

/// The `o` singleton's fields.
#[derive(Debug, Clone)]
pub struct TrigTables {
    /// `o.a` — sin_table: `short[90]` from `/sincos/sin.int`.
    pub a: Vec<i16>,
    /// `o.b` — cos_table: `short[90]` from `/sincos/cos.int`.
    pub b: Vec<i16>,
    /// `o.f312a` — tables available (false when a read failed).
    pub f312a: bool,
}

/// The sine table's resource.
pub const SIN_TABLE: &'static str = "/sincos/sin.int";

/// The cosine table's resource.
pub const COS_TABLE: &'static str = "/sincos/cos.int";

/// The number of big-endian shorts a payload holds (none for a missing one).
pub open spec fn shorts_in(s: Option<Seq<u8>>) -> int {
    match s {
        Some(d) => d.len() as int / 2,
        None => 0,
    }
}

/// The `i`-th big-endian short of a payload.
pub open spec fn short_at(s: Option<Seq<u8>>, i: int) -> i16 {
    signed16(be_u16(s->Some_0, 2 * i)) as i16
}

/// The smaller of two integers.
pub open spec fn min(x: int, y: int) -> int {
    if x <= y {
        x
    } else {
        y
    }
}

/// How many sine entries the interleaved read fills: each round reads the
/// sine entry, then the cosine entry, and the first failure ends the load.
pub open spec fn sin_filled(sin: Option<Seq<u8>>, cos: Option<Seq<u8>>) -> int {
    min(min(shorts_in(sin), shorts_in(cos) + 1), QUARTER as int)
}

/// How many cosine entries the interleaved read fills.
pub open spec fn cos_filled(sin: Option<Seq<u8>>, cos: Option<Seq<u8>>) -> int {
    min(min(shorts_in(sin), shorts_in(cos)), QUARTER as int)
}

/// The tables loaded from two payloads: entries read before the first failure,
/// zero after it; available only when all 90 rounds succeed.
pub open spec fn loaded_tables_ok(t: TrigTables, sin: Option<Seq<u8>>, cos: Option<Seq<u8>>) -> bool {
    &&& t.a@.len() == QUARTER
    &&& t.b@.len() == QUARTER
    &&& forall|j: int|
        0 <= j < QUARTER ==> #[trigger] t.a@[j] == (if j < sin_filled(sin, cos) {
            short_at(sin, j)
        } else {
            0
        })
    &&& forall|j: int|
        0 <= j < QUARTER ==> #[trigger] t.b@[j] == (if j < cos_filled(sin, cos) {
            short_at(cos, j)
        } else {
            0
        })
    &&& t.f312a == (cos_filled(sin, cos) == QUARTER)
}

/// The degree `s` folded into `[0, 360)`.
pub open spec fn norm_deg(s: int) -> int {
    s % 360
}

/// Whether the tables can be indexed by every quarter degree.
pub open spec fn usable(t: TrigTables) -> bool {
    t.f312a ==> t.a@.len() >= QUARTER && t.b@.len() >= QUARTER
}

/// sin(deg) in fixed-point 1e4 by quadrant folding (0 when unavailable).
pub open spec fn sin_spec(t: TrigTables, s: int) -> int {
    let n = norm_deg(s);
    if !t.f312a {
        0
    } else if n < 90 {
        t.a@[n] as int
    } else if n < 180 {
        t.b@[n - 90] as int
    } else if n < 270 {
        -(t.a@[n - 180] as int)
    } else {
        -(t.b@[n - 270] as int)
    }
}

/// cos(deg) in fixed-point 1e4 by quadrant folding (0 when unavailable).
pub open spec fn cos_spec(t: TrigTables, s: int) -> int {
    let n = norm_deg(s);
    if !t.f312a {
        0
    } else if n < 90 {
        t.b@[n] as int
    } else if n < 180 {
        -(t.a@[n - 90] as int)
    } else if n < 270 {
        -(t.b@[n - 180] as int)
    } else {
        t.a@[n - 270] as int
    }
}

/// Law: the game's table load agrees with the strict reader in
/// [`crate::int_table`]: on two payloads of at least 90 shorts each that the
/// reader accepts, the tables are the first 90 values of each and are
/// available.
pub proof fn law_trig_load_agrees(t: TrigTables, sin: Seq<u8>, cos: Seq<u8>)
    requires
        loaded_tables_ok(t, Some(sin), Some(cos)),
        int_table_spec(sin) is Ok,
        int_table_spec(cos) is Ok,
        int_table_spec(sin)->Ok_0.len() >= QUARTER,
        int_table_spec(cos)->Ok_0.len() >= QUARTER,
    ensures
        t.f312a,
        t.a@ == int_table_spec(sin)->Ok_0.take(QUARTER as int),
        t.b@ == int_table_spec(cos)->Ok_0.take(QUARTER as int),
{
    assert(t.a@ =~= int_table_spec(sin)->Ok_0.take(QUARTER as int));
    assert(t.b@ =~= int_table_spec(cos)->Ok_0.take(QUARTER as int));
}

/// Law: sine and cosine repeat every full turn — any whole number of turns
/// added to the degree gives the same value.
pub proof fn law_trig_periodic(t: TrigTables, s: int, turns: int)
    ensures
        sin_spec(t, s + 360 * turns) == sin_spec(t, s),
        cos_spec(t, s + 360 * turns) == cos_spec(t, s),
{
    vstd::arithmetic::div_mod::lemma_mod_multiples_vanish(turns, s, 360);
    assert(s + 360 * turns == 360 * turns + s);
}

/// Law: the cosine is the sine a quarter turn on — both fold the same two
/// quarter tables.
pub proof fn law_cos_is_shifted_sin(t: TrigTables, s: int)
    ensures
        cos_spec(t, s) == sin_spec(t, s + 90),
{
    let n = norm_deg(s);
    let q = s / 360;
    vstd::arithmetic::div_mod::lemma_fundamental_div_mod(s, 360);
    assert(0 <= n < 360);
    if n < 270 {
        vstd::arithmetic::div_mod::lemma_fundamental_div_mod_converse(s + 90, 360, q, n + 90);
    } else {
        vstd::arithmetic::div_mod::lemma_fundamental_div_mod_converse(
            s + 90,
            360,
            q + 1,
            n - 270,
        );
    }
}

/// `o.<init>` — read both quarter tables from the game's resources.
pub fn o_init(resources: &dyn Resources) -> (t: TrigTables)
    ensures
        loaded_tables_ok(t, resources.entry(SIN_TABLE@), resources.entry(COS_TABLE@)),
        usable(t),
{
    let sin = resources.resource_as_stream(SIN_TABLE);
    let cos = resources.resource_as_stream(COS_TABLE);
    o_load(sin, cos)
}

/// The table load on given payloads: read both quarter tables, a sine and a
/// cosine entry per round; any exception (a missing resource NPEs, a short
/// one hits EOF) ends the load with the tables marked unavailable.
pub fn o_load(sin_bytes: Option<Vec<u8>>, cos_bytes: Option<Vec<u8>>) -> (t: TrigTables)
    ensures
        loaded_tables_ok(
            t,
            payload(sin_bytes),
            payload(cos_bytes),
        ),
        usable(t),
{
    let ghost sin_in = match &sin_bytes {
        Some(d) => Some(d@),
        None => None::<Seq<u8>>,
    };
    let ghost cos_in = match &cos_bytes {
        Some(d) => Some(d@),
        None => None::<Seq<u8>>,
    };
    let mut t = TrigTables { a: vec![0i16; QUARTER], b: vec![0i16; QUARTER], f312a: true };
    let mut sin = DataInput::new(sin_bytes);
    let mut cos = DataInput::new(cos_bytes);
    let ghost ss = sin.stream();
    let ghost cs = cos.stream();
    let mut i: usize = 0;
    while i < QUARTER
        invariant
            sin.stream() == ss,
            cos.stream() == cs,
            ss == sin_in,
            cs == cos_in,
            sin_in == payload(sin_bytes),
            cos_in == payload(cos_bytes),
            0 <= i <= QUARTER,
            sin.pos_spec() == 2 * i,
            cos.pos_spec() == 2 * i,
            i <= shorts_in(ss),
            i <= shorts_in(cs),
            t.f312a,
            t.a@.len() == QUARTER,
            t.b@.len() == QUARTER,
            forall|j: int| 0 <= j < i ==> #[trigger] t.a@[j] == short_at(ss, j),
            forall|j: int| 0 <= j < i ==> #[trigger] t.b@[j] == short_at(cs, j),
            forall|j: int| i <= j < QUARTER ==> #[trigger] t.a@[j] == 0,
            forall|j: int| i <= j < QUARTER ==> #[trigger] t.b@[j] == 0,
        decreases QUARTER - i,
    {
        match sin.read_short() {
            Ok(v) => {
                t.a[i] = v;
            },
            Err(_) => {
                t.f312a = false;
                proof {
                    assert(shorts_in(ss) == i);
                    assert(sin_filled(ss, cs) == i);
                    assert(cos_filled(ss, cs) == i);
                    assert(loaded_tables_ok(t, sin_in, cos_in));
                }
                return t;
            },
        }
        match cos.read_short() {
            Ok(v) => {
                t.b[i] = v;
            },
            Err(_) => {
                t.f312a = false;
                proof {
                    assert(shorts_in(cs) == i);
                    assert(sin_filled(ss, cs) == i + 1);
                    assert(cos_filled(ss, cs) == i);
                    assert(loaded_tables_ok(t, sin_in, cos_in));
                }
                return t;
            },
        }
        i = i + 1;
    }
    t
}

/// `o.a(S)I` — sin(deg) in fixed-point 1e4: normalize into `[0,360)`, then
/// fold the quarter tables with the Java sign pattern.
pub fn o_sin(t: &TrigTables, s: i16) -> (r: i32)
    requires
        usable(*t),
    ensures
        r == sin_spec(*t, s as int),
{
    if !t.f312a {
        return 0;
    }
    let s = normalize_degrees(s);
    if s < 90 {
        return t.a[s as usize] as i32;
    }
    if s >= 90 && s < 180 {
        return t.b[(s - 90) as usize] as i32;
    }
    if s >= 180 && s < 270 {
        return -(t.a[(s - 180) as usize] as i32);
    }
    if s >= 270 {
        return -(t.b[(s - 270) as usize] as i32);
    }
    0
}

/// `o.b(S)I` — cos(deg), the parallel quadrant fold.
pub fn o_cos(t: &TrigTables, s: i16) -> (r: i32)
    requires
        usable(*t),
    ensures
        r == cos_spec(*t, s as int),
{
    if !t.f312a {
        return 0;
    }
    let s = normalize_degrees(s);
    if s < 90 {
        return t.b[s as usize] as i32;
    }
    if s >= 90 && s < 180 {
        return -(t.a[(s - 90) as usize] as i32);
    }
    if s >= 180 && s < 270 {
        return -(t.b[(s - 180) as usize] as i32);
    }
    if s >= 270 {
        return t.a[(s - 270) as usize] as i32;
    }
    0
}

/// The short-narrowing normalization loops: add 360 while negative, subtract
/// 360 while at least 360.
fn normalize_degrees(s: i16) -> (r: i16)
    ensures
        0 <= r < 360,
        r == norm_deg(s as int),
{
    let mut s = s;
    let ghost s0 = s as int;
    while s < 0
        invariant
            s as int % 360 == s0 % 360,
        decreases 360 - s as int,
    {
        s = s + 360;
    }
    while s >= 360
        invariant
            s >= 0,
            s as int % 360 == s0 % 360,
        decreases s,
    {
        s = s - 360;
    }
    s
}

/// `o.a()S` — the constant fixed-point scale.
pub fn o_scale() -> (r: i16)
    ensures
        r == 10000,
{
    10000
}

/// Java's `Math.abs` on `int` (wrapping: the absolute value of `i32::MIN` is
/// itself).
pub open spec fn java_abs(i: int) -> int {
    if i >= 0 {
        i
    } else if i == i32::MIN {
        i
    } else {
        -i
    }
}

/// `o.a(I)I` — abs.
pub fn o_abs(i: i32) -> (r: i32)
    ensures
        r == java_abs(i as int),
{
    if i < 0 {
        0i32.wrapping_sub(i)
    } else {
        i
    }
}

/// The distance from `i` to cos-table entry `j`, as `o.b(I)I` computes it.
pub open spec fn cos_distance(t: TrigTables, i: i32, j: int) -> int {
    java_abs(i.wrapping_sub(t.b@[j] as i32) as int)
}

/// `o.b(I)I` — index of the cos-table entry nearest to `i`: a linear scan
/// over every entry where the first minimum wins; 0 when no entry lies
/// within 100000.
pub fn o_nearest_cos_index(t: &TrigTables, i: i32) -> (r: i32)
    requires
        t.b@.len() <= i32::MAX,
    ensures
        (forall|j: int| 0 <= j < t.b@.len() ==> cos_distance(*t, i, j) >= 100000) ==> r == 0,
        (exists|j: int| 0 <= j < t.b@.len() && cos_distance(*t, i, j) < 100000) ==> {
            &&& 0 <= r < t.b@.len()
            &&& cos_distance(*t, i, r as int) < 100000
            &&& forall|j: int|
                0 <= j < t.b@.len() ==> cos_distance(*t, i, r as int) <= cos_distance(*t, i, j)
            &&& forall|j: int| 0 <= j < r ==> cos_distance(*t, i, j) > cos_distance(*t, i, r as int)
        },
{
    let mut best: i32 = 100000;
    let mut idx: i32 = 0;
    let mut i3: usize = 0;
    while i3 < t.b.len()
        invariant
            0 <= i3 <= t.b@.len(),
            t.b@.len() <= i32::MAX,
            0 <= idx,
            idx as int <= i3,
            best <= 100000,
            (forall|j: int| 0 <= j < i3 ==> cos_distance(*t, i, j) >= 100000) ==> (best == 100000
                && idx == 0),
            (exists|j: int| 0 <= j < i3 && cos_distance(*t, i, j) < 100000) ==> {
                &&& idx < i3
                &&& best == cos_distance(*t, i, idx as int)
                &&& forall|j: int| 0 <= j < i3 ==> best <= cos_distance(*t, i, j)
                &&& forall|j: int| 0 <= j < idx ==> cos_distance(*t, i, j) > best
            },
        decreases t.b@.len() - i3,
    {
        let d = o_abs(i.wrapping_sub(t.b[i3] as i32));
        proof {
            assert(d == cos_distance(*t, i, i3 as int));
        }
        if d < best {
            best = o_abs(i.wrapping_sub(t.b[i3] as i32));
            idx = i3 as i32;
        }
        i3 = i3 + 1;
    }
    idx
}

impl Default for TrigTables {
    /// The zeroed object before the constructor runs: no tables, unavailable.
    fn default() -> (t: Self)
        ensures
            t.a@.len() == 0,
            t.b@.len() == 0,
            !t.f312a,
    {
        TrigTables { a: Vec::new(), b: Vec::new(), f312a: false }
    }
}

} // verus!
