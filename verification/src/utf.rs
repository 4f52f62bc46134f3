//! `.utf` — localization string tables (`res/1.utf` … `res/skills.utf`).
//!
//! A flat concatenation of Java `readUTF()` records tiling the whole file to
//! exact EOF — no count header, no offset table, no encoding byte:
//!
//! ```text
//! per record:
//!   u16 BE       byte_length   (0 = an empty record, used as a delimiter)
//!   byte_length  Java modified-UTF-8 payload
//! ```
//!
//! The payload decoder follows `DataInputStream.readUTF`: 1/2/3-byte forms, a
//! raw `0x00` byte and the two-byte `C0 80` form both decode to U+0000, and
//! surrogates arrive as 3-byte code units. Surrogate *pairs* are combined into
//! the supplementary character and **unpaired** surrogates are rejected. Bad
//! lead/continuation bytes and a partial character at the end of a record are
//! rejected.
use crate::reader::{be_u16, prepend, take_spec, u16_be_at, FormatError, Reader};
use crate::strings::{char_from_u32, is_scalar, push_char};
use vstd::prelude::*;

verus! {

/// Rejection reason: a byte that cannot start a character.
pub const INVALID_LEAD: &'static str = "modified-UTF-8: invalid lead byte";

/// Rejection reason: a byte that should continue a character but does not.
pub const BAD_CONTINUATION: &'static str = "modified-UTF-8: bad continuation byte";

/// Rejection reason: a record ends inside a character.
pub const PARTIAL_CHAR: &'static str = "modified-UTF-8: partial character at end of record";

/// Rejection reason: a high surrogate not followed by a low one.
pub const UNPAIRED_HIGH: &'static str = "modified-UTF-8: unpaired high surrogate";

/// Rejection reason: a low surrogate not preceded by a high one.
pub const UNPAIRED_LOW: &'static str = "modified-UTF-8: unpaired low surrogate";

/// Rejection reason: a surrogate pair whose scalar is not a `char`.
pub const PAIR_OUTSIDE_UNICODE: &'static str = "modified-UTF-8: surrogate pair outside Unicode";

/// Rejection reason: a code unit that is not a `char`.
pub const INVALID_SCALAR: &'static str = "modified-UTF-8: invalid scalar value";

/// A parsed `.utf` table: the flat record stream, in file order.
#[derive(Debug, Clone, PartialEq, Eq)]
pub struct Utf {
    records: Vec<String>,
}

impl View for Utf {
    type V = Seq<Seq<char>>;

    closed spec fn view(&self) -> Seq<Seq<char>> {
        self.records@.map_values(|s: String| s@)
    }
}

// ---------------------------------------------------------------------------
// Modified UTF-8, pass 1: bytes to UTF-16 code units
// ---------------------------------------------------------------------------

/// Whether `b` is a continuation byte (`10xxxxxx`).
pub open spec fn is_cont(b: u8) -> bool {
    b / 64 == 2
}

/// The code units of `bytes[i..]`, each tagged with the absolute offset
/// (`at + index`) of its lead byte, or the first malformation.
pub open spec fn mutf8_units(bytes: Seq<u8>, at: int, i: int) -> Result<Seq<(u16, usize)>, FormatError>
    decreases bytes.len() - i,
{
    if i < 0 || i >= bytes.len() {
        Ok(Seq::empty())
    } else {
        let b = bytes[i];
        if b / 16 <= 7 {
            match mutf8_units(bytes, at, i + 1) {
                Err(e) => Err(e),
                Ok(rest) => Ok(seq![(b as u16, (at + i) as usize)] + rest),
            }
        } else if b / 16 == 12 || b / 16 == 13 {
            if bytes.len() - i < 2 {
                Err(FormatError::Invalid { at: (at + i) as usize, reason: PARTIAL_CHAR })
            } else if !is_cont(bytes[i + 1]) {
                Err(FormatError::Invalid { at: (at + i + 1) as usize, reason: BAD_CONTINUATION })
            } else {
                let u = ((b % 32) * 64 + bytes[i + 1] % 64) as u16;
                match mutf8_units(bytes, at, i + 2) {
                    Err(e) => Err(e),
                    Ok(rest) => Ok(seq![(u, (at + i) as usize)] + rest),
                }
            }
        } else if b / 16 == 14 {
            if bytes.len() - i < 3 {
                Err(FormatError::Invalid { at: (at + i) as usize, reason: PARTIAL_CHAR })
            } else if !is_cont(bytes[i + 1]) {
                Err(FormatError::Invalid { at: (at + i + 1) as usize, reason: BAD_CONTINUATION })
            } else if !is_cont(bytes[i + 2]) {
                Err(FormatError::Invalid { at: (at + i + 2) as usize, reason: BAD_CONTINUATION })
            } else {
                let u = ((b % 16) * 4096 + (bytes[i + 1] % 64) * 64 + bytes[i + 2] % 64) as u16;
                match mutf8_units(bytes, at, i + 3) {
                    Err(e) => Err(e),
                    Ok(rest) => Ok(seq![(u, (at + i) as usize)] + rest),
                }
            }
        } else {
            Err(FormatError::Invalid { at: (at + i) as usize, reason: INVALID_LEAD })
        }
    }
}

// ---------------------------------------------------------------------------
// Pass 2: UTF-16 code units to characters
// ---------------------------------------------------------------------------

/// Whether `u` is a high (leading) surrogate.
pub open spec fn is_high(u: u16) -> bool {
    0xD800 <= u <= 0xDBFF
}

/// Whether `u` is a low (trailing) surrogate.
pub open spec fn is_low(u: u16) -> bool {
    0xDC00 <= u <= 0xDFFF
}

/// The supplementary scalar a surrogate pair encodes.
pub open spec fn pair_scalar(hi: u16, lo: u16) -> int {
    0x10000 + (hi - 0xD800) * 1024 + (lo - 0xDC00)
}

/// The characters of `units[j..]`, pairing surrogates, or the first unpaired
/// surrogate (reported at its lead byte's offset).
pub open spec fn units_to_chars(units: Seq<(u16, usize)>, j: int) -> Result<Seq<char>, FormatError>
    decreases units.len() - j,
{
    if j < 0 || j >= units.len() {
        Ok(Seq::empty())
    } else {
        let (u, pos) = units[j];
        if is_high(u) {
            if j + 1 >= units.len() || !is_low(units[j + 1].0) {
                Err(FormatError::Invalid { at: pos, reason: UNPAIRED_HIGH })
            } else {
                match units_to_chars(units, j + 2) {
                    Err(e) => Err(e),
                    Ok(rest) => Ok(seq![pair_scalar(u, units[j + 1].0) as char] + rest),
                }
            }
        } else if is_low(u) {
            Err(FormatError::Invalid { at: pos, reason: UNPAIRED_LOW })
        } else {
            match units_to_chars(units, j + 1) {
                Err(e) => Err(e),
                Ok(rest) => Ok(seq![(u as int) as char] + rest),
            }
        }
    }
}

/// The code unit values of a tagged unit sequence.
pub open spec fn unit_values(us: Seq<(u16, usize)>) -> Seq<u16> {
    us.map_values(|p: (u16, usize)| p.0)
}

/// The units a record body decodes to do not depend on where the body
/// lies: only their offset tags do.
pub proof fn lemma_units_offset_free(bytes: Seq<u8>, at1: int, at2: int, i: int)
    ensures
        (mutf8_units(bytes, at1, i) is Ok) == (mutf8_units(bytes, at2, i) is Ok),
        mutf8_units(bytes, at1, i) is Ok ==> unit_values(mutf8_units(bytes, at1, i)->Ok_0)
            == unit_values(mutf8_units(bytes, at2, i)->Ok_0),
    decreases bytes.len() - i,
{
    if 0 <= i < bytes.len() {
        let b = bytes[i];
        let step: int = if b / 16 <= 7 {
            1
        } else if b / 16 == 12 || b / 16 == 13 {
            2
        } else {
            3
        };
        if i + step <= bytes.len() {
            lemma_units_offset_free(bytes, at1, at2, i + step);
        }
        if mutf8_units(bytes, at1, i) is Ok {
            let r1 = mutf8_units(bytes, at1, i)->Ok_0;
            let r2 = mutf8_units(bytes, at2, i)->Ok_0;
            let t1 = mutf8_units(bytes, at1, i + step)->Ok_0;
            let t2 = mutf8_units(bytes, at2, i + step)->Ok_0;
            assert(r1.drop_first() == t1);
            assert(r2.drop_first() == t2);
            assert(unit_values(r1) =~= seq![r1[0].0] + unit_values(t1));
            assert(unit_values(r2) =~= seq![r2[0].0] + unit_values(t2));
        }
    }
}

/// Whether a unit sequence pairs into characters, and which, depends only
/// on the unit values.
pub proof fn lemma_chars_by_values(u1: Seq<(u16, usize)>, u2: Seq<(u16, usize)>, j: int)
    requires
        unit_values(u1) == unit_values(u2),
    ensures
        (units_to_chars(u1, j) is Ok) == (units_to_chars(u2, j) is Ok),
        units_to_chars(u1, j) is Ok ==> units_to_chars(u1, j) == units_to_chars(u2, j),
    decreases u1.len() - j,
{
    assert(u1.len() == unit_values(u1).len());
    if 0 <= j < u1.len() {
        assert(u1[j].0 == unit_values(u1)[j]);
        assert(u2[j].0 == unit_values(u2)[j]);
        if j + 1 < u1.len() {
            assert(u1[j + 1].0 == unit_values(u1)[j + 1]);
            assert(u2[j + 1].0 == unit_values(u2)[j + 1]);
        }
        lemma_chars_by_values(u1, u2, j + 1);
        if j + 2 <= u1.len() {
            lemma_chars_by_values(u1, u2, j + 2);
        }
    }
}

/// One record body (whose first byte lies at offset `at`) as text.
pub open spec fn decode_spec(bytes: Seq<u8>, at: int) -> Result<Seq<char>, FormatError> {
    match mutf8_units(bytes, at, 0) {
        Err(e) => Err(e),
        Ok(units) => units_to_chars(units, 0),
    }
}

/// The records from offset `p` to the end of the blob.
pub open spec fn records_from(data: Seq<u8>, p: int) -> Result<Seq<Seq<char>>, FormatError>
    decreases data.len() - p,
{
    if p < 0 || p >= data.len() {
        Ok(Seq::empty())
    } else {
        match u16_be_at(data, p) {
            Err(e) => Err(e),
            Ok((n, q)) => match take_spec(data, q, n as int) {
                Err(e) => Err(e),
                Ok(end) => match decode_spec(data.subrange(q, end), q) {
                    Err(e) => Err(e),
                    Ok(text) => match records_from(data, end) {
                        Err(e) => Err(e),
                        Ok(rest) => Ok(seq![text] + rest),
                    },
                },
            },
        }
    }
}

/// The table a blob denotes.
pub open spec fn utf_spec(data: Seq<u8>) -> Result<Seq<Seq<char>>, FormatError> {
    records_from(data, 0)
}

/// The offset after the first `k` records from `p`: each record is its two
/// length bytes and that many payload bytes.
pub open spec fn after_records(data: Seq<u8>, p: int, k: nat) -> int
    decreases k,
{
    if k == 0 {
        p
    } else {
        let q = after_records(data, p, (k - 1) as nat);
        q + 2 + be_u16(data, q)
    }
}

/// Skipping one record, then `k` more, is skipping `k + 1` records.
pub proof fn lemma_after_records_shift(data: Seq<u8>, p: int, k: nat)
    ensures
        after_records(data, p, k + 1) == after_records(data, p + 2 + be_u16(data, p), k),
    decreases k,
{
    let p1 = p + 2 + be_u16(data, p);
    if k > 0 {
        lemma_after_records_shift(data, p, (k - 1) as nat);
        let q = after_records(data, p, k);
        assert(q == after_records(data, p1, (k - 1) as nat));
        assert(after_records(data, p, k + 1) == q + 2 + be_u16(data, q));
        assert(after_records(data, p1, k) == q + 2 + be_u16(data, q));
    } else {
        assert(after_records(data, p, 0) == p);
        assert(after_records(data, p, 1) == p1);
    }
}

/// The records from `p` tile the blob from `p` to its end.
proof fn lemma_records_tile(data: Seq<u8>, p: int)
    requires
        0 <= p <= data.len(),
    ensures
        records_from(data, p) matches Ok(rs) ==> after_records(data, p, rs.len()) == data.len(),
    decreases data.len() - p,
{
    if p < data.len() {
        if let Ok((n, q)) = u16_be_at(data, p) {
            if let Ok(end) = take_spec(data, q, n as int) {
                lemma_records_tile(data, end);
                if let Ok(rs) = records_from(data, p) {
                    let rest = records_from(data, end)->Ok_0;
                    assert(rs.len() == rest.len() + 1);
                    lemma_after_records_shift(data, p, rest.len());
                    assert(end == p + 2 + be_u16(data, p));
                }
            }
        }
    }
}

/// Law: a table that parses tiles the whole file — its records, each two
/// length bytes and that many payload bytes, end exactly at the end of the
/// blob.
pub proof fn law_utf_tiles_the_file(data: Seq<u8>)
    requires
        utf_spec(data) is Ok,
    ensures
        after_records(data, 0, utf_spec(data)->Ok_0.len()) == data.len(),
{
    lemma_records_tile(data, 0);
}

/// Appending one more element before a known tail.
proof fn lemma_prepend_step<T>(done: Seq<T>, x: T, rest: Result<Seq<T>, FormatError>)
    ensures
        prepend(done, prepend(seq![x], rest)) == prepend(done.push(x), rest),
{
    if let Ok(r) = rest {
        assert(done + (seq![x] + r) =~= done.push(x) + r);
    }
}

/// Nothing before a result leaves it unchanged.
proof fn lemma_prepend_empty<T>(rest: Result<Seq<T>, FormatError>)
    ensures
        prepend(Seq::<T>::empty(), rest) == rest,
{
    if let Ok(r) = rest {
        assert(Seq::<T>::empty() + r =~= r);
    }
}

/// A record body never decodes to more code units than it has bytes.
pub proof fn lemma_units_len(bytes: Seq<u8>, at: int, i: int)
    requires
        0 <= i <= bytes.len(),
    ensures
        mutf8_units(bytes, at, i) matches Ok(u) ==> u.len() <= bytes.len() - i,
    decreases bytes.len() - i,
{
    if i < bytes.len() {
        let b = bytes[i];
        if b / 16 <= 7 {
            lemma_units_len(bytes, at, i + 1);
        } else if (b / 16 == 12 || b / 16 == 13) && bytes.len() - i >= 2 {
            lemma_units_len(bytes, at, i + 2);
        } else if b / 16 == 14 && bytes.len() - i >= 3 {
            lemma_units_len(bytes, at, i + 3);
        }
    }
}

/// Pass 1: the code units of one record body.
pub(crate) fn mutf8_to_units(at: usize, bytes: &[u8]) -> (res: Result<Vec<(u16, usize)>, FormatError>)
    requires
        at + bytes@.len() <= usize::MAX,
    ensures
        match mutf8_units(bytes@, at as int, 0) {
            Ok(units) => res matches Ok(v) && v@ == units,
            Err(e) => res == Err::<Vec<(u16, usize)>, FormatError>(e),
        },
{
    let mut units: Vec<(u16, usize)> = Vec::with_capacity(bytes.len());
    let mut i: usize = 0;
    proof {
        lemma_prepend_empty(mutf8_units(bytes@, at as int, 0));
    }
    while i < bytes.len()
        invariant
            at + bytes@.len() <= usize::MAX,
            0 <= i <= bytes@.len(),
            mutf8_units(bytes@, at as int, 0) == prepend(units@, mutf8_units(bytes@, at as int, i as int)),
        decreases bytes@.len() - i,
    {
        let b = bytes[i];
        let hi = b / 16;
        if hi <= 7 {
            // 0xxxxxxx — one byte (a raw 0x00 included).
            proof {
                lemma_prepend_step(units@, (b as u16, (at + i) as usize), mutf8_units(bytes@, at as int, i + 1));
            }
            units.push((b as u16, at + i));
            i += 1;
        } else if hi == 12 || hi == 13 {
            // 110xxxxx 10xxxxxx — two bytes (overlong forms accepted).
            if bytes.len() - i < 2 {
                return Err(FormatError::Invalid { at: at + i, reason: PARTIAL_CHAR });
            }
            let b2 = bytes[i + 1];
            if b2 / 64 != 2 {
                return Err(FormatError::Invalid { at: at + i + 1, reason: BAD_CONTINUATION });
            }
            let u: u16 = ((b % 32) as u16) * 64 + (b2 % 64) as u16;
            proof {
                lemma_prepend_step(units@, (u, (at + i) as usize), mutf8_units(bytes@, at as int, i + 2));
            }
            units.push((u, at + i));
            i += 2;
        } else if hi == 14 {
            // 1110xxxx 10xxxxxx 10xxxxxx — three bytes (surrogates included).
            if bytes.len() - i < 3 {
                return Err(FormatError::Invalid { at: at + i, reason: PARTIAL_CHAR });
            }
            let b2 = bytes[i + 1];
            let b3 = bytes[i + 2];
            if b2 / 64 != 2 || b3 / 64 != 2 {
                return Err(
                    FormatError::Invalid {
                        at: at + i + if b2 / 64 != 2 {
                            1
                        } else {
                            2
                        },
                        reason: BAD_CONTINUATION,
                    },
                );
            }
            let u: u16 = ((b % 16) as u16) * 4096 + ((b2 % 64) as u16) * 64 + (b3 % 64) as u16;
            proof {
                lemma_prepend_step(units@, (u, (at + i) as usize), mutf8_units(bytes@, at as int, i + 3));
            }
            units.push((u, at + i));
            i += 3;
        } else {
            // 10xxxxxx (stray continuation) or 1111xxxx.
            return Err(FormatError::Invalid { at: at + i, reason: INVALID_LEAD });
        }
    }
    proof {
        assert(units@ + Seq::<(u16, usize)>::empty() =~= units@);
    }
    Ok(units)
}

/// Pass 2: the text of a sequence of code units, pairing surrogates.
pub(crate) fn units_to_string(units: &Vec<(u16, usize)>) -> (res: Result<String, FormatError>)
    ensures
        match units_to_chars(units@, 0) {
            Ok(cs) => res matches Ok(s) && s@ == cs,
            Err(e) => res == Err::<String, FormatError>(e),
        },
{
    let mut out = String::new();
    let mut j: usize = 0;
    proof {
        lemma_prepend_empty(units_to_chars(units@, 0));
    }
    while j < units.len()
        invariant
            0 <= j <= units@.len(),
            units_to_chars(units@, 0) == prepend(out@, units_to_chars(units@, j as int)),
        decreases units@.len() - j,
    {
        let (u, pos) = units[j];
        if 0xD800 <= u && u <= 0xDBFF {
            if j + 1 >= units.len() {
                return Err(FormatError::Invalid { at: pos, reason: UNPAIRED_HIGH });
            }
            let (lo, _) = units[j + 1];
            if !(0xDC00 <= lo && lo <= 0xDFFF) {
                return Err(FormatError::Invalid { at: pos, reason: UNPAIRED_HIGH });
            }
            let scalar: u32 = 0x10000 + ((u as u32) - 0xD800) * 1024 + ((lo as u32) - 0xDC00);
            // Always a valid char (0x10000..=0x10FFFF, never a surrogate); the
            // typed error keeps the no-panic contract regardless.
            let c = match char_from_u32(scalar) {
                Some(c) => c,
                None => return Err(FormatError::Invalid { at: pos, reason: PAIR_OUTSIDE_UNICODE }),
            };
            proof {
                lemma_prepend_step(out@, c, units_to_chars(units@, j + 2));
            }
            push_char(&mut out, c);
            j += 2;
        } else if 0xDC00 <= u && u <= 0xDFFF {
            return Err(FormatError::Invalid { at: pos, reason: UNPAIRED_LOW });
        } else {
            // A non-surrogate BMP code unit is always a valid char.
            let c = match char_from_u32(u as u32) {
                Some(c) => c,
                None => return Err(FormatError::Invalid { at: pos, reason: INVALID_SCALAR }),
            };
            proof {
                lemma_prepend_step(out@, c, units_to_chars(units@, j + 1));
            }
            push_char(&mut out, c);
            j += 1;
        }
    }
    proof {
        assert(out@ + Seq::<char>::empty() =~= out@);
    }
    Ok(out)
}

/// Decode one record body as Java modified-UTF-8 (`DataInputStream.readUTF`
/// semantics). `at` is the record body's absolute offset, used in errors.
fn decode_modified_utf8(at: usize, bytes: &[u8]) -> (res: Result<String, FormatError>)
    requires
        at + bytes@.len() <= usize::MAX,
    ensures
        match decode_spec(bytes@, at as int) {
            Ok(cs) => res matches Ok(s) && s@ == cs,
            Err(e) => res == Err::<String, FormatError>(e),
        },
{
    let units = match mutf8_to_units(at, bytes) {
        Ok(u) => u,
        Err(e) => return Err(e),
    };
    units_to_string(&units)
}

impl Utf {
    /// Parse a `.utf` blob: `u16 BE length` + modified-UTF-8 records until the
    /// stream tiles to exact EOF. A stream that does not tile (a stray trailing
    /// byte, or a final record over-running EOF) is rejected with a typed
    /// error.
    pub fn parse(data: &[u8]) -> (res: Result<Utf, FormatError>)
        ensures
            match utf_spec(data@) {
                Ok(rs) => res matches Ok(t) && t@ == rs,
                Err(e) => res == Err::<Utf, FormatError>(e),
            },
    {
        let ghost d = data@;
        let mut r = Reader::new(data);
        let mut records: Vec<String> = Vec::new();
        proof {
            assert(records@.map_values(|s: String| s@) =~= Seq::<Seq<char>>::empty());
            lemma_prepend_empty(records_from(d, 0));
        }
        while r.remaining() > 0
            invariant
                d == data@,
                r.bytes_spec() == d,
                0 <= r.pos_spec() <= d.len(),
                records_from(d, 0) == prepend(
                    records@.map_values(|s: String| s@),
                    records_from(d, r.pos_spec()),
                ),
            decreases d.len() - r.pos_spec(),
        {
            let ghost p = r.pos_spec();
            let len = match r.u16_be() {
                Ok(n) => n as usize,
                Err(e) => return Err(e),
            };
            let at = r.position();
            let raw = match r.bytes(len) {
                Ok(b) => b,
                Err(e) => return Err(e),
            };
            let text = match decode_modified_utf8(at, raw) {
                Ok(t) => t,
                Err(e) => return Err(e),
            };
            let ghost done = records@.map_values(|s: String| s@);
            proof {
                lemma_prepend_step(done, text@, records_from(d, r.pos_spec()));
            }
            records.push(text);
            proof {
                assert(records@.map_values(|s: String| s@) =~= done.push(text@));
            }
        }
        proof {
            let done = records@.map_values(|s: String| s@);
            assert(done + Seq::<Seq<char>>::empty() =~= done);
        }
        Ok(Utf { records })
    }

    /// All records, in file order (empty delimiters included).
    pub fn records(&self) -> (r: &[String])
        ensures
            r@.map_values(|s: String| s@) == self@,
    {
        self.records.as_slice()
    }

    /// Number of records.
    pub fn len(&self) -> (n: usize)
        ensures
            n == self@.len(),
    {
        self.records.len()
    }

    /// Whether the table holds no records.
    pub fn is_empty(&self) -> (b: bool)
        ensures
            b == (self@.len() == 0),
    {
        self.records.len() == 0
    }

    /// One record by index, or `None` when out of range.
    pub fn get(&self, index: usize) -> (r: Option<&str>)
        ensures
            index < self@.len() ==> (r matches Some(s) && s@ == self@[index as int]),
            index >= self@.len() ==> r is None,
    {
        if index < self.records.len() {
            Some(self.records[index].as_str())
        } else {
            None
        }
    }
}

} // verus!
