//! The writing side of the `.utf` format, as specifications: the bytes
//! Java's `DataOutputStream.writeUTF` gives for a text, standard UTF-8, and
//! the `.utf` framing — with the laws that the readers in [`crate::utf`]
//! invert them.
//!
//! `writeUTF` encodes a text one UTF-16 code unit at a time: `0x01..=0x7F`
//! in one byte, `0x0000` and `0x80..=0x7FF` in two, the rest (surrogates
//! included, one unit at a time) in three.
use crate::reader::{be_u16, FormatError};
use crate::utf::{decode_spec, mutf8_units, pair_scalar, records_from, unit_values, units_to_chars, utf_spec};
use vstd::prelude::*;

verus! {

/// `writeUTF`'s bytes for one UTF-16 code unit.
pub open spec fn unit_mutf8(u: u16) -> Seq<u8> {
    if 1 <= u <= 0x7F {
        seq![u as u8]
    } else if u <= 0x7FF {
        seq![(0xC0 + u / 64) as u8, (0x80 + u % 64) as u8]
    } else {
        seq![(0xE0 + u / 4096) as u8, (0x80 + (u / 64) % 64) as u8, (0x80 + u % 64) as u8]
    }
}

/// `writeUTF`'s bytes for a run of code units.
pub open spec fn units_mutf8(us: Seq<u16>) -> Seq<u8>
    decreases us.len(),
{
    if us.len() == 0 {
        Seq::empty()
    } else {
        unit_mutf8(us[0]) + units_mutf8(us.drop_first())
    }
}

/// The UTF-16 code units of a character: itself below U+10000, else its
/// surrogate pair.
pub open spec fn char_units(c: char) -> Seq<u16> {
    let v = c as u32;
    if v < 0x10000 {
        seq![v as u16]
    } else {
        seq![(0xD800 + (v - 0x10000) / 1024) as u16, (0xDC00 + (v - 0x10000) % 1024) as u16]
    }
}

/// The UTF-16 code units of a text, as a Java string holds them.
pub open spec fn text_units(cs: Seq<char>) -> Seq<u16>
    decreases cs.len(),
{
    if cs.len() == 0 {
        Seq::empty()
    } else {
        char_units(cs[0]) + text_units(cs.drop_first())
    }
}

/// The body `writeUTF` gives for a text (without its length prefix).
pub open spec fn mutf8_encode(cs: Seq<char>) -> Seq<u8> {
    units_mutf8(text_units(cs))
}

/// Decoding from `pre.len() + j` of `pre + post` is decoding from `j` of
/// `post`, with the offsets shifted by `pre.len()`.
proof fn lemma_units_suffix(pre: Seq<u8>, post: Seq<u8>, at: int, j: int)
    requires
        0 <= j,
    ensures
        mutf8_units(pre + post, at, pre.len() + j) == mutf8_units(post, at + pre.len(), j),
    decreases post.len() - j,
{
    let bytes = pre + post;
    let i = pre.len() + j;
    if j < post.len() {
        assert(bytes[i] == post[j]);
        if j + 1 < post.len() {
            assert(bytes[i + 1] == post[j + 1]);
        }
        if j + 2 < post.len() {
            assert(bytes[i + 2] == post[j + 2]);
        }
        if j + 1 <= post.len() {
            lemma_units_suffix(pre, post, at, j + 1);
        }
        if j + 2 <= post.len() {
            lemma_units_suffix(pre, post, at, j + 2);
        }
        if j + 3 <= post.len() {
            lemma_units_suffix(pre, post, at, j + 3);
        }
    }
}

/// The two-byte form of `u` decodes to `u`.
proof fn lemma_two_byte(u: u16, b0: u8, b1: u8)
    requires
        u <= 0x7FF,
        b0 == 0xC0 + u / 64,
        b1 == 0x80 + u % 64,
    ensures
        b0 / 16 == 12 || b0 / 16 == 13,
        b1 / 64 == 2,
        ((b0 % 32) * 64 + b1 % 64) as u16 == u,
{
    assert(b0 / 16 == 12 || b0 / 16 == 13) by (nonlinear_arith)
        requires
            u <= 0x7FF,
            b0 == 0xC0 + u / 64,
    ;
    assert(b0 % 32 == u / 64) by (nonlinear_arith)
        requires
            u <= 0x7FF,
            b0 == 0xC0 + u / 64,
    ;
    assert(b1 / 64 == 2 && b1 % 64 == u % 64) by (nonlinear_arith)
        requires
            b1 == 0x80 + u % 64,
    ;
    assert((u / 64) * 64 + u % 64 == u) by (nonlinear_arith);
}

/// The three-byte form of `u` decodes to `u`.
proof fn lemma_three_byte(u: u16, b0: u8, b1: u8, b2: u8)
    requires
        b0 == 0xE0 + u / 4096,
        b1 == 0x80 + (u / 64) % 64,
        b2 == 0x80 + u % 64,
    ensures
        b0 / 16 == 14,
        b1 / 64 == 2,
        b2 / 64 == 2,
        ((b0 % 16) * 4096 + (b1 % 64) * 64 + b2 % 64) as u16 == u,
{
    assert(b0 / 16 == 14 && b0 % 16 == u / 4096) by (nonlinear_arith)
        requires
            b0 == 0xE0 + u / 4096,
            u <= 0xFFFF,
    ;
    assert(b1 / 64 == 2 && b1 % 64 == (u / 64) % 64) by (nonlinear_arith)
        requires
            b1 == 0x80 + (u / 64) % 64,
    ;
    assert(b2 / 64 == 2 && b2 % 64 == u % 64) by (nonlinear_arith)
        requires
            b2 == 0x80 + u % 64,
    ;
    assert((u / 4096) * 4096 + ((u / 64) % 64) * 64 + u % 64 == u) by (nonlinear_arith);
}

/// A unit's bytes: `writeUTF`'s, or, with `raw_zero`, standard UTF-8's
/// single `0x00` for U+0000 (the other BMP units are written alike).
spec fn unit_bytes(u: u16, raw_zero: bool) -> Seq<u8> {
    if raw_zero && u == 0 {
        seq![0u8]
    } else {
        unit_mutf8(u)
    }
}

/// A run of units, each written as [`unit_bytes`] does.
spec fn units_bytes(us: Seq<u16>, raw_zero: bool) -> Seq<u8>
    decreases us.len(),
{
    if us.len() == 0 {
        Seq::empty()
    } else {
        unit_bytes(us[0], raw_zero) + units_bytes(us.drop_first(), raw_zero)
    }
}

/// One unit's bytes decode to that unit, then decoding goes on after them.
proof fn lemma_unit_step(u: u16, rest: Seq<u8>, at: int, raw_zero: bool)
    ensures
        mutf8_units(unit_bytes(u, raw_zero) + rest, at, 0) == match mutf8_units(
            unit_bytes(u, raw_zero) + rest,
            at,
            unit_bytes(u, raw_zero).len() as int,
        ) {
            Err(e) => Err(e),
            Ok(t) => Ok(seq![(u, at as usize)] + t),
        },
{
    let p = unit_bytes(u, raw_zero);
    let bytes = p + rest;
    if raw_zero && u == 0 {
        assert(bytes[0] == 0);
    } else if 1 <= u <= 0x7F {
        assert(bytes[0] == u);
    } else if u <= 0x7FF {
        assert(bytes[0] == p[0] && bytes[1] == p[1]);
        lemma_two_byte(u, p[0], p[1]);
    } else {
        assert(bytes[0] == p[0] && bytes[1] == p[1] && bytes[2] == p[2]);
        lemma_three_byte(u, p[0], p[1], p[2]);
    }
}

/// The bytes of a run of units decode back to those units.
proof fn lemma_units_decode(us: Seq<u16>, at: int, raw_zero: bool)
    ensures
        mutf8_units(units_bytes(us, raw_zero), at, 0) matches Ok(t) && unit_values(t) == us,
    decreases us.len(),
{
    if us.len() == 0 {
        assert(unit_values(Seq::<(u16, usize)>::empty()) =~= us);
    } else {
        let u = us[0];
        let p = unit_bytes(u, raw_zero);
        let rest = units_bytes(us.drop_first(), raw_zero);
        lemma_unit_step(u, rest, at, raw_zero);
        lemma_units_suffix(p, rest, at, 0);
        lemma_units_decode(us.drop_first(), at + p.len(), raw_zero);
        let t = mutf8_units(rest, at + p.len(), 0)->Ok_0;
        assert(unit_values(seq![(u, at as usize)] + t) =~= seq![u] + unit_values(t));
        assert(seq![u] + us.drop_first() =~= us);
    }
}

/// `writeUTF`'s bytes are the units' bytes with U+0000 in two bytes.
proof fn lemma_units_mutf8(us: Seq<u16>)
    ensures
        units_mutf8(us) == units_bytes(us, false),
    decreases us.len(),
{
    if us.len() > 0 {
        lemma_units_mutf8(us.drop_first());
    }
}

/// A run of units that spells a text, from `j` on, pairs back into that
/// text.
proof fn lemma_text_chars(t: Seq<(u16, usize)>, j: int, cs: Seq<char>)
    requires
        0 <= j <= t.len(),
        unit_values(t).subrange(j, t.len() as int) == text_units(cs),
    ensures
        units_to_chars(t, j) == Ok::<Seq<char>, FormatError>(cs),
    decreases cs.len(),
{
    let vs = unit_values(t);
    assert(vs.len() == t.len());
    if cs.len() == 0 {
        assert(vs.subrange(j, t.len() as int).len() == 0);
        assert(cs =~= Seq::<char>::empty());
    } else {
        let c = cs[0];
        let v = c as u32;
        let rest = cs.drop_first();
        let cu = char_units(c);
        vstd::utf8::char_is_scalar(c);
        vstd::utf8::char_u32_cast(c, c as u32);
        assert(text_units(cs) == cu + text_units(rest));
        assert(vs[j] == t[j].0);
        assert(vs.subrange(j, t.len() as int)[0] == cu[0]);
        if v < 0x10000 {
            assert(t[j].0 == v);
            assert(vs.subrange(j + 1, t.len() as int) =~= vs.subrange(j, t.len() as int).drop_first());
            assert(text_units(rest) =~= (cu + text_units(rest)).drop_first());
            lemma_text_chars(t, j + 1, rest);
            assert(seq![(v as int) as char] + rest =~= cs);
        } else {
            assert(vs.subrange(j, t.len() as int)[1] == cu[1]);
            assert(vs[j + 1] == t[j + 1].0);
            let hi = t[j].0;
            let lo = t[j + 1].0;
            assert(0xD800 <= hi <= 0xDBFF && 0xDC00 <= lo <= 0xDFFF && pair_scalar(hi, lo) == v)
                by (nonlinear_arith)
                requires
                    0x10000 <= v <= 0x10FFFF,
                    hi == 0xD800 + (v - 0x10000) / 1024,
                    lo == 0xDC00 + (v - 0x10000) % 1024,
                    pair_scalar(hi, lo) == 0x10000 + (hi - 0xD800) * 1024 + (lo - 0xDC00),
            ;
            assert(vs.subrange(j + 2, t.len() as int) =~= vs.subrange(j, t.len() as int).skip(2));
            assert(text_units(rest) =~= (cu + text_units(rest)).skip(2));
            lemma_text_chars(t, j + 2, rest);
            assert(seq![pair_scalar(hi, lo) as char] + rest =~= cs);
        }
    }
}

/// Law: `readUTF`, and the `.utf` reader's record decoder, give back any
/// text from the body `writeUTF` writes for it — supplementary characters
/// (written as two three-byte surrogates) and U+0000 (written as `C0 80`)
/// included.
pub proof fn law_mutf8_round_trip(cs: Seq<char>, at: int)
    ensures
        decode_spec(mutf8_encode(cs), at) == Ok::<Seq<char>, FormatError>(cs),
{
    lemma_units_mutf8(text_units(cs));
    lemma_units_decode(text_units(cs), at, false);
    let t = mutf8_units(mutf8_encode(cs), at, 0)->Ok_0;
    assert(unit_values(t).subrange(0, t.len() as int) =~= unit_values(t));
    lemma_text_chars(t, 0, cs);
}

/// Standard UTF-8 writes a BMP scalar as `writeUTF` writes its unit, but
/// for U+0000, which it writes as the single byte `0x00`.
proof fn lemma_scalar_bytes(v: u32)
    requires
        vstd::utf8::is_scalar(v),
        v < 0x10000,
    ensures
        vstd::utf8::encode_scalar(v) == unit_bytes(v as u16, true),
{
    let u = v as u16;
    let e = vstd::utf8::encode_scalar(v);
    let p = unit_bytes(u, true);
    if v <= 0x7F {
        assert((v & 0x7F) as u8 == v) by (bit_vector)
            requires
                v <= 0x7F,
        ;
        assert(e =~= p);
    } else if v <= 0x7FF {
        assert((0xC0 | ((v >> 6) & 0x1F) as u8) == 0xC0 + v / 64) by (bit_vector)
            requires
                0x80 <= v <= 0x7FF,
        ;
        assert((0x80 | (v & 0x3F) as u8) == 0x80 + v % 64) by (bit_vector);
        assert(e =~= p);
    } else {
        assert((0xE0 | ((v >> 12) & 0x0F) as u8) == 0xE0 + v / 4096) by (bit_vector)
            requires
                0x800 <= v <= 0xFFFF,
        ;
        assert((0x80 | ((v >> 6) & 0x3F) as u8) == 0x80 + (v / 64) % 64) by (bit_vector);
        assert((0x80 | (v & 0x3F) as u8) == 0x80 + v % 64) by (bit_vector);
        assert(e =~= p);
    }
}

/// Every character of `cs` lies in the Basic Multilingual Plane.
pub open spec fn all_bmp(cs: Seq<char>) -> bool {
    forall|i: int| 0 <= i < cs.len() ==> (#[trigger] cs[i] as u32) < 0x10000
}

/// Standard UTF-8 of BMP text is its units written one by one, U+0000 as
/// `0x00`.
proof fn lemma_utf8_bmp_bytes(cs: Seq<char>)
    requires
        all_bmp(cs),
    ensures
        vstd::utf8::encode_utf8(cs) == units_bytes(text_units(cs), true),
    decreases cs.len(),
{
    if cs.len() > 0 {
        let c = cs[0];
        let rest = cs.drop_first();
        assert((c as u32) < 0x10000);
        assert forall|i: int| 0 <= i < rest.len() implies (#[trigger] rest[i] as u32) < 0x10000 by {
            assert(rest[i] == cs[i + 1]);
        }
        lemma_utf8_bmp_bytes(rest);
        vstd::utf8::char_is_scalar(c);
        lemma_scalar_bytes(c as u32);
        let us = text_units(cs);
        assert(us == seq![(c as u32) as u16] + text_units(rest));
        assert(us[0] == (c as u32) as u16);
        assert(us.drop_first() =~= text_units(rest));
    }
}

/// Law: on text within the Basic Multilingual Plane, modified UTF-8 and
/// standard UTF-8 read alike: valid UTF-8 whose characters are all below
/// U+10000 decodes, as a `.utf` record body or through `readUTF`, to the
/// characters standard UTF-8 gives.
pub proof fn law_bmp_utf8_reads_as_mutf8(bytes: Seq<u8>, at: int)
    requires
        vstd::utf8::valid_utf8(bytes),
        all_bmp(vstd::utf8::decode_utf8(bytes)),
    ensures
        decode_spec(bytes, at) == Ok::<Seq<char>, FormatError>(
            vstd::utf8::decode_utf8(bytes),
        ),
{
    let cs = vstd::utf8::decode_utf8(bytes);
    vstd::utf8::decode_utf8_encode_utf8(bytes);
    lemma_utf8_bmp_bytes(cs);
    lemma_units_decode(text_units(cs), at, true);
    let t = mutf8_units(bytes, at, 0)->Ok_0;
    assert(unit_values(t).subrange(0, t.len() as int) =~= unit_values(t));
    lemma_text_chars(t, 0, cs);
}

/// One `.utf` record as `writeUTF` writes it: the body's length in two
/// big-endian bytes, then the body.
pub open spec fn utf_record(r: Seq<char>) -> Seq<u8> {
    let b = mutf8_encode(r);
    seq![(b.len() / 256) as u8, (b.len() % 256) as u8] + b
}

/// A `.utf` table written record after record.
pub open spec fn utf_file(rs: Seq<Seq<char>>) -> Seq<u8>
    decreases rs.len(),
{
    if rs.len() == 0 {
        Seq::empty()
    } else {
        utf_record(rs[0]) + utf_file(rs.drop_first())
    }
}

/// Every record's body fits its 16-bit length.
pub open spec fn records_fit(rs: Seq<Seq<char>>) -> bool {
    forall|i: int| 0 <= i < rs.len() ==> #[trigger] mutf8_encode(rs[i]).len() <= 65535
}

/// The records written after `pre` read back from where `pre` ends.
proof fn lemma_file_records(pre: Seq<u8>, rs: Seq<Seq<char>>)
    requires
        records_fit(rs),
        pre.len() + utf_file(rs).len() <= usize::MAX,
    ensures
        records_from(pre + utf_file(rs), pre.len() as int) == Ok::<Seq<Seq<char>>, FormatError>(rs),
    decreases rs.len(),
{
    let data = pre + utf_file(rs);
    if rs.len() == 0 {
        assert(data =~= pre);
        assert(rs =~= Seq::<Seq<char>>::empty());
    } else {
        let r = rs[0];
        let b = mutf8_encode(r);
        let len = b.len() as int;
        let tail = rs.drop_first();
        let pre2 = pre + utf_record(r);
        assert(data =~= pre2 + utf_file(tail));
        assert(records_fit(tail)) by {
            assert forall|i: int| 0 <= i < tail.len() implies #[trigger] mutf8_encode(tail[i]).len()
                <= 65535 by {
                assert(tail[i] == rs[i + 1]);
            }
        }
        assert(mutf8_encode(rs[0]).len() <= 65535);
        lemma_file_records(pre2, tail);
        let p = pre.len() as int;
        assert(data[p] == (len / 256) as u8 && data[p + 1] == (len % 256) as u8);
        assert(be_u16(data, p) == len) by (nonlinear_arith)
            requires
                0 <= len <= 65535,
                data[p] == (len / 256) as u8,
                data[p + 1] == (len % 256) as u8,
                be_u16(data, p) == data[p] * 256 + data[p + 1],
        ;
        assert(data.subrange(p + 2, p + 2 + len) =~= b);
        law_mutf8_round_trip(r, p + 2);
        assert(seq![r] + tail =~= rs);
    }
}

/// Law: `Utf::parse` inverts the `.utf` writer. A table written record by
/// record — each `writeUTF` body after its two-byte big-endian length, empty
/// records included — parses back to the same records in the same order,
/// provided each body fits its 16-bit length and the file fits in memory.
pub proof fn law_utf_round_trip(rs: Seq<Seq<char>>)
    requires
        records_fit(rs),
        utf_file(rs).len() <= usize::MAX,
    ensures
        utf_spec(utf_file(rs)) == Ok::<Seq<Seq<char>>, FormatError>(rs),
{
    lemma_file_records(Seq::empty(), rs);
    assert(Seq::<u8>::empty() + utf_file(rs) =~= utf_file(rs));
}

} // verus!
