//! `java.io.DataInputStream` over jar-resource bytes — the JVM-primitive I/O
//! model the game's loaders read through.
//!
//! The payload is fully buffered (jar entries are small), with the Java error
//! surface the game's `try/catch` blocks discriminate on:
//!
//! - a missing resource wraps a **null** stream: construction succeeds and
//!   every read raises `NullPointerException`;
//! - reading past the end raises `EOFException`;
//! - `readUTF` decodes **modified UTF-8**; malformed input raises
//!   `UTFDataFormatException`;
//! - `skipBytes` never raises EOF: it skips at most what remains and returns
//!   the count actually skipped.
use crate::jvm::{
    io_error, is_io, JavaError, EOF_EXCEPTION, UNPAIRED_SURROGATE, UTF_DATA_FORMAT,
};
use crate::reader::{take_spec, u16_be_at, be_u16, be_u32, signed16, signed32, signed8, to_i16, to_i32, to_i8, be_u16_of, be_u32_of};
use crate::utf::{
    after_records, decode_spec, lemma_after_records_shift, lemma_chars_by_values,
    lemma_units_offset_free, mutf8_to_units, mutf8_units, records_from, units_to_chars,
    units_to_string, utf_spec,
};
use vstd::prelude::*;
use crate::strings::collect_chars;

verus! {

/// The `NumberFormatException` message for an empty string.
pub const NFE_EMPTY: &'static str = "NumberFormatException: empty";

/// The `NumberFormatException` message for a lone sign.
pub const NFE_SIGN_ONLY: &'static str = "NumberFormatException: sign only";

/// The `NumberFormatException` message for a character that is not a digit.
pub const NFE_NON_DIGIT: &'static str = "NumberFormatException: non-digit";

/// The `NumberFormatException` message for a value outside `int`.
pub const NFE_OVERFLOW: &'static str = "NumberFormatException: overflow";

/// A `DataInputStream` over an optional byte payload. `None` models
/// `new DataInputStream(null)` — construction succeeded, every read is an NPE.
#[derive(Debug)]
pub struct DataInput {
    data: Option<Vec<u8>>,
    pos: usize,
}

/// A payload's bytes, `None` for a missing resource.
pub open spec fn payload(o: Option<Vec<u8>>) -> Option<Seq<u8>> {
    match o {
        Some(d) => Some(d@),
        None => None,
    }
}

/// Whether `n` more bytes can be read at `pos` of a present payload.
pub open spec fn has_bytes(stream: Option<Seq<u8>>, pos: int, n: int) -> bool {
    stream matches Some(d) && pos + n <= d.len()
}

/// What `readUTF` decodes from a record body: the text, or the name of the
/// exception it raises.
pub open spec fn utf_body_spec(bytes: Seq<u8>) -> Result<Seq<char>, &'static str> {
    match mutf8_units(bytes, 0, 0) {
        Err(_) => Err(UTF_DATA_FORMAT),
        Ok(units) => match units_to_chars(units, 0) {
            Err(_) => Err(UNPAIRED_SURROGATE),
            Ok(cs) => Ok(cs),
        },
    }
}

/// One `readUTF` record at `pos` of `d`: the text and the offset after it,
/// or `None` when the read raises.
pub open spec fn utf_record_at(d: Seq<u8>, pos: int) -> Option<(Seq<char>, int)> {
    if pos + 2 > d.len() {
        None
    } else {
        let n = be_u16(d, pos);
        if pos + 2 + n > d.len() {
            None
        } else {
            match utf_body_spec(d.subrange(pos + 2, pos + 2 + n)) {
                Ok(cs) => Some((cs, pos + 2 + n)),
                Err(_) => None,
            }
        }
    }
}

/// What `readUTF` yields from a record body as the UTF-16 code units a Java
/// string holds, or the name of the exception it raises.
pub open spec fn utf_units_spec(bytes: Seq<u8>) -> Result<Seq<u16>, &'static str> {
    match mutf8_units(bytes, 0, 0) {
        Err(_) => Err(UTF_DATA_FORMAT),
        Ok(units) => match units_to_chars(units, 0) {
            Err(_) => Err(UNPAIRED_SURROGATE),
            Ok(_) => Ok(units.map_values(|p: (u16, usize)| p.0)),
        },
    }
}

/// Where the cursor stands after a `readUTF` at `pos` of `d`, whether it
/// succeeds or raises.
pub open spec fn utf_read_end(d: Seq<u8>, pos: int) -> int {
    if pos + 2 > d.len() {
        pos
    } else if pos + 2 + be_u16(d, pos) > d.len() {
        pos + 2
    } else {
        pos + 2 + be_u16(d, pos)
    }
}

/// One `readUTF` record at `pos` of `d` as code units, with the offset after
/// it, or `None` when the read raises.
pub open spec fn utf_units_at(d: Seq<u8>, pos: int) -> Option<(Seq<u16>, int)> {
    if pos + 2 > d.len() || pos + 2 + be_u16(d, pos) > d.len() {
        None
    } else {
        match utf_units_spec(d.subrange(pos + 2, pos + 2 + be_u16(d, pos))) {
            Ok(us) => Some((us, pos + 2 + be_u16(d, pos))),
            Err(_) => None,
        }
    }
}

/// `readUTF` decodes a record body exactly when the strict reader does,
/// wherever the body lies, and to the same text.
proof fn lemma_body_agrees(bytes: Seq<u8>, at: int)
    ensures
        (decode_spec(bytes, at) is Ok) == (utf_body_spec(bytes) is Ok),
        decode_spec(bytes, at) matches Ok(cs) ==> utf_body_spec(bytes) == Ok::<
            Seq<char>,
            &'static str,
        >(cs),
{
    lemma_units_offset_free(bytes, at, 0, 0);
    if mutf8_units(bytes, at, 0) is Ok {
        let u1 = mutf8_units(bytes, at, 0)->Ok_0;
        let u2 = mutf8_units(bytes, 0, 0)->Ok_0;
        lemma_chars_by_values(u1, u2, 0);
    }
}

/// Law: the game's `readUTF` and the `.utf` reader's decoder agree body by
/// body. Where a record's length prefix at `pos` and its body fit in `d`,
/// the read gives back the text the decoder gives for the body (the
/// decoder's offset `at` only tags its errors), raises exactly where the
/// decoder rejects the body, and either way leaves the cursor after the
/// body.
pub proof fn law_read_utf_body_agrees(d: Seq<u8>, pos: int, at: int)
    requires
        0 <= pos,
        pos + 2 + be_u16(d, pos) <= d.len(),
    ensures
        ({
            let end = pos + 2 + be_u16(d, pos);
            &&& utf_read_end(d, pos) == end
            &&& match decode_spec(d.subrange(pos + 2, end), at) {
                Ok(cs) => utf_record_at(d, pos) == Some((cs, end)),
                Err(_) => utf_record_at(d, pos) is None,
            }
        }),
{
    lemma_body_agrees(d.subrange(pos + 2, pos + 2 + be_u16(d, pos)), at);
}

/// The records from `p` on, as the strict reader reads them, are what the
/// `readUTF` walk from `p` reads.
proof fn lemma_records_agree(data: Seq<u8>, p: int, i: int)
    requires
        0 <= p <= data.len(),
        records_from(data, p) is Ok,
        0 <= i < records_from(data, p)->Ok_0.len(),
    ensures
        utf_record_at(data, after_records(data, p, i as nat)) == Some(
            (records_from(data, p)->Ok_0[i], after_records(data, p, (i + 1) as nat)),
        ),
    decreases i,
{
    let rs = records_from(data, p)->Ok_0;
    let (n, q) = u16_be_at(data, p)->Ok_0;
    let end = take_spec(data, q, n as int)->Ok_0;
    let text = decode_spec(data.subrange(q, end), q)->Ok_0;
    let rest = records_from(data, end)->Ok_0;
    assert(rs == seq![text] + rest);
    assert(n as int == be_u16(data, p));
    assert(end == p + 2 + be_u16(data, p));
    lemma_after_records_shift(data, p, i as nat);
    if i == 0 {
        lemma_body_agrees(data.subrange(q, end), q);
        assert(after_records(data, p, 1) == end);
    } else {
        lemma_after_records_shift(data, p, (i - 1) as nat);
        lemma_records_agree(data, end, i - 1);
        assert(rs[i] == rest[i - 1]);
    }
}

/// Law: on a table the strict reader in [`crate::utf`] accepts, the game's
/// `readUTF` walk agrees with it: record `i`, read where the records before
/// it end, is the reader's record `i`, and ends where record `i + 1` starts.
pub proof fn law_read_utf_agrees_with_utf(data: Seq<u8>, i: int)
    requires
        utf_spec(data) is Ok,
        0 <= i < utf_spec(data)->Ok_0.len(),
    ensures
        utf_record_at(data, after_records(data, 0, i as nat)) == Some(
            (utf_spec(data)->Ok_0[i], after_records(data, 0, (i + 1) as nat)),
        ),
{
    lemma_records_agree(data, 0, i);
}

impl Clone for DataInput {
    fn clone(&self) -> (r: Self)
        ensures
            r.stream() == self.stream(),
            r.pos_spec() == self.pos_spec(),
    {
        proof {
            use_type_invariant(self);
        }
        let data = match &self.data {
            None => None,
            Some(d) => Some(vstd::slice::slice_to_vec(d.as_slice())),
        };
        DataInput { data, pos: self.pos }
    }
}

impl DataInput {
    /// The cursor lies within a present payload, and at 0 on a null stream.
    #[verifier::type_invariant]
    closed spec fn inv(&self) -> bool {
        match self.data {
            Some(d) => self.pos <= d@.len(),
            None => self.pos == 0,
        }
    }

    /// The payload, or `None` for a stream wrapping null.
    pub closed spec fn stream(&self) -> Option<Seq<u8>> {
        match self.data {
            Some(d) => Some(d@),
            None => None,
        }
    }

    /// The read cursor.
    pub closed spec fn pos_spec(&self) -> int {
        self.pos as int
    }

    /// The cursor is never negative.
    pub proof fn lemma_pos_nonneg(&self)
        ensures
            self.pos_spec() >= 0,
    {
    }

    /// The cursor lies within the payload.
    pub fn position(&self) -> (p: usize)
        ensures
            p == self.pos_spec(),
            self.stream() matches Some(d) ==> p <= d.len(),
            self.stream() is None ==> p == 0,
    {
        proof {
            use_type_invariant(self);
        }
        self.pos
    }

    /// `new DataInputStream(getResourceAsStream(...))` — never throws, even on
    /// a `null` underlying stream.
    pub fn new(data: Option<Vec<u8>>) -> (r: DataInput)
        ensures
            r.stream() == payload(data),
            r.pos_spec() == 0,
    {
        DataInput { data, pos: 0 }
    }

    /// Take `n` bytes: NPE on a null stream, `EOFException` (cursor unchanged)
    /// when fewer remain.
    fn take(&mut self, n: usize) -> (r: Result<&[u8], JavaError>)
        ensures
            final(self).stream() == old(self).stream(),
            old(self).stream() is None ==> r == Err::<&[u8], JavaError>(JavaError::NullPointer)
                && final(self).pos_spec() == old(self).pos_spec(),
            old(self).stream() is Some && !has_bytes(
                old(self).stream(),
                old(self).pos_spec(),
                n as int,
            ) ==> (r matches Err(e) && is_io(e, EOF_EXCEPTION)) && final(self).pos_spec()
                == old(self).pos_spec(),
            has_bytes(old(self).stream(), old(self).pos_spec(), n as int) ==> (r matches Ok(b)
                && b@ == old(self).stream()->Some_0.subrange(
                old(self).pos_spec(),
                old(self).pos_spec() + n,
            )) && final(self).pos_spec() == old(self).pos_spec() + n,
    {
        proof {
            use_type_invariant(&*self);
        }
        let pos = self.pos;
        match &self.data {
            None => Err(JavaError::NullPointer),
            Some(data) => {
                if n > data.len() - pos {
                    return Err(io_error(EOF_EXCEPTION));
                }
                self.pos = pos + n;
                Ok(&data.as_slice()[pos..pos + n])
            },
        }
    }

    /// `readByte()`.
    pub fn read_byte(&mut self) -> (r: Result<i8, JavaError>)
        ensures
            final(self).stream() == old(self).stream(),
            old(self).stream() is None ==> r == Err::<i8, JavaError>(JavaError::NullPointer)
                && final(self).pos_spec() == old(self).pos_spec(),
            old(self).stream() is Some && !has_bytes(old(self).stream(), old(self).pos_spec(), 1)
                ==> (r matches Err(e) && is_io(e, EOF_EXCEPTION)) && final(self).pos_spec()
                == old(self).pos_spec(),
            has_bytes(old(self).stream(), old(self).pos_spec(), 1) ==> r == Ok::<i8, JavaError>(
                signed8(old(self).stream()->Some_0[old(self).pos_spec()] as int) as i8,
            ) && final(self).pos_spec() == old(self).pos_spec() + 1,
    {
        match self.take(1) {
            Ok(b) => Ok(to_i8(b[0])),
            Err(e) => Err(e),
        }
    }

    /// `readShort()` — big-endian `i16`.
    pub fn read_short(&mut self) -> (r: Result<i16, JavaError>)
        ensures
            final(self).stream() == old(self).stream(),
            old(self).stream() is None ==> r == Err::<i16, JavaError>(JavaError::NullPointer)
                && final(self).pos_spec() == old(self).pos_spec(),
            old(self).stream() is Some && !has_bytes(old(self).stream(), old(self).pos_spec(), 2)
                ==> (r matches Err(e) && is_io(e, EOF_EXCEPTION)) && final(self).pos_spec()
                == old(self).pos_spec(),
            has_bytes(old(self).stream(), old(self).pos_spec(), 2) ==> r == Ok::<i16, JavaError>(
                signed16(be_u16(old(self).stream()->Some_0, old(self).pos_spec())) as i16,
            ) && final(self).pos_spec() == old(self).pos_spec() + 2,
    {
        match self.take(2) {
            Ok(b) => Ok(to_i16(be_u16_of(b[0], b[1]))),
            Err(e) => Err(e),
        }
    }

    /// `readUnsignedShort()` — big-endian `u16` widened to `i32` (the
    /// `readUTF` length prefix).
    pub fn read_unsigned_short(&mut self) -> (r: Result<i32, JavaError>)
        ensures
            final(self).stream() == old(self).stream(),
            old(self).stream() is None ==> r == Err::<i32, JavaError>(JavaError::NullPointer)
                && final(self).pos_spec() == old(self).pos_spec(),
            old(self).stream() is Some && !has_bytes(old(self).stream(), old(self).pos_spec(), 2)
                ==> (r matches Err(e) && is_io(e, EOF_EXCEPTION)) && final(self).pos_spec()
                == old(self).pos_spec(),
            has_bytes(old(self).stream(), old(self).pos_spec(), 2) ==> r == Ok::<i32, JavaError>(
                be_u16(old(self).stream()->Some_0, old(self).pos_spec()) as i32,
            ) && final(self).pos_spec() == old(self).pos_spec() + 2,
    {
        match self.take(2) {
            Ok(b) => Ok(be_u16_of(b[0], b[1]) as i32),
            Err(e) => Err(e),
        }
    }

    /// `readInt()` — big-endian `i32`.
    pub fn read_int(&mut self) -> (r: Result<i32, JavaError>)
        ensures
            final(self).stream() == old(self).stream(),
            old(self).stream() is None ==> r == Err::<i32, JavaError>(JavaError::NullPointer)
                && final(self).pos_spec() == old(self).pos_spec(),
            old(self).stream() is Some && !has_bytes(old(self).stream(), old(self).pos_spec(), 4)
                ==> (r matches Err(e) && is_io(e, EOF_EXCEPTION)) && final(self).pos_spec()
                == old(self).pos_spec(),
            has_bytes(old(self).stream(), old(self).pos_spec(), 4) ==> r == Ok::<i32, JavaError>(
                signed32(be_u32(old(self).stream()->Some_0, old(self).pos_spec())) as i32,
            ) && final(self).pos_spec() == old(self).pos_spec() + 4,
    {
        match self.take(4) {
            Ok(b) => Ok(to_i32(be_u32_of(b[0], b[1], b[2], b[3]))),
            Err(e) => Err(e),
        }
    }

    /// `readFully(byte[] b)` — fills all of `buf`, or raises (leaving `buf`
    /// untouched) when fewer bytes remain.
    pub fn read_fully(&mut self, buf: &mut [i8]) -> (r: Result<(), JavaError>)
        ensures
            final(self).stream() == old(self).stream(),
            final(buf)@.len() == old(buf)@.len(),
            old(self).stream() is None ==> r == Err::<(), JavaError>(JavaError::NullPointer)
                && final(self).pos_spec() == old(self).pos_spec() && final(buf)@ == old(buf)@,
            old(self).stream() is Some && !has_bytes(
                old(self).stream(),
                old(self).pos_spec(),
                old(buf)@.len() as int,
            ) ==> (r matches Err(e) && is_io(e, EOF_EXCEPTION)) && final(self).pos_spec()
                == old(self).pos_spec() && final(buf)@ == old(buf)@,
            has_bytes(old(self).stream(), old(self).pos_spec(), old(buf)@.len() as int) ==> r is Ok
                && final(self).pos_spec() == old(self).pos_spec() + old(buf)@.len() && (forall|
                i: int,
            |
                0 <= i < old(buf)@.len() ==> final(buf)@[i] == signed8(
                    old(self).stream()->Some_0[old(self).pos_spec() + i] as int,
                ) as i8),
    {
        let n = buf.len();
        let src = match self.take(n) {
            Ok(s) => s,
            Err(e) => return Err(e),
        };
        let mut i: usize = 0;
        while i < n
            invariant
                n == buf@.len(),
                n == src@.len(),
                0 <= i <= n,
                forall|k: int| 0 <= k < i ==> buf@[k] == signed8(src@[k] as int) as i8,
            decreases n - i,
        {
            buf[i] = to_i8(src[i]);
            i = i + 1;
        }
        Ok(())
    }

    /// `skipBytes(int n)` — skips at most `n` (none for a negative `n`),
    /// never raises EOF, and returns the count actually skipped; a null
    /// underlying stream still NPEs.
    pub fn skip_bytes(&mut self, n: i32) -> (r: Result<i32, JavaError>)
        ensures
            final(self).stream() == old(self).stream(),
            old(self).stream() is None ==> r == Err::<i32, JavaError>(JavaError::NullPointer)
                && final(self).pos_spec() == old(self).pos_spec(),
            old(self).stream() matches Some(d) ==> ({
                let avail = d.len() - old(self).pos_spec();
                let want = if n < 0 {
                    0
                } else {
                    n as int
                };
                let actual = if want < avail {
                    want
                } else {
                    avail
                };
                r == Ok::<i32, JavaError>(actual as i32) && final(self).pos_spec()
                    == old(self).pos_spec() + actual
            }),
    {
        proof {
            use_type_invariant(&*self);
        }
        let len = match &self.data {
            None => return Err(JavaError::NullPointer),
            Some(d) => d.len(),
        };
        let want: usize = if n < 0 {
            0
        } else {
            n as usize
        };
        let left = len - self.pos;
        let actual = if want < left {
            want
        } else {
            left
        };
        self.pos = self.pos + actual;
        Ok(actual as i32)
    }

    /// `readUTF()` — a `u16` length prefix, then that many bytes of modified
    /// UTF-8 decoded to text. Malformed sequences raise
    /// `UTFDataFormatException`; a lone surrogate (which a Rust `String`
    /// cannot hold) raises an `IOException` saying so.
    pub fn read_utf(&mut self) -> (r: Result<String, JavaError>)
        ensures
            final(self).stream() == old(self).stream(),
            old(self).stream() is None ==> r == Err::<String, JavaError>(JavaError::NullPointer)
                && final(self).pos_spec() == old(self).pos_spec(),
            old(self).stream() matches Some(d) ==> ({
                let p = old(self).pos_spec();
                if p + 2 > d.len() {
                    (r matches Err(e) && is_io(e, EOF_EXCEPTION)) && final(self).pos_spec() == p
                } else {
                    let n = be_u16(d, p);
                    if p + 2 + n > d.len() {
                        (r matches Err(e) && is_io(e, EOF_EXCEPTION)) && final(self).pos_spec()
                            == p + 2
                    } else {
                        &&& final(self).pos_spec() == p + 2 + n
                        &&& match utf_body_spec(d.subrange(p + 2, p + 2 + n)) {
                            Ok(cs) => r matches Ok(s) && s@ == cs,
                            Err(name) => r matches Err(e) && is_io(e, name),
                        }
                    }
                }
            }),
    {
        let len = match self.read_unsigned_short() {
            Ok(n) => n as usize,
            Err(e) => return Err(e),
        };
        let bytes = match self.take(len) {
            Ok(b) => b,
            Err(e) => return Err(e),
        };
        let units = match mutf8_to_units(0, bytes) {
            Ok(u) => u,
            Err(_) => return Err(io_error(UTF_DATA_FORMAT)),
        };
        match units_to_string(&units) {
            Ok(s) => Ok(s),
            Err(_) => Err(io_error(UNPAIRED_SURROGATE)),
        }
    }

    /// `readUTF()` as the UTF-16 code units of the Java string it returns —
    /// the form the game indexes with `charAt`. It raises exactly where
    /// [`DataInput::read_utf`] raises.
    pub fn read_utf_units(&mut self) -> (r: Result<Vec<u16>, JavaError>)
        ensures
            final(self).stream() == old(self).stream(),
            old(self).stream() is None ==> r == Err::<Vec<u16>, JavaError>(JavaError::NullPointer)
                && final(self).pos_spec() == old(self).pos_spec(),
            old(self).stream() matches Some(d) ==> ({
                let p = old(self).pos_spec();
                &&& final(self).pos_spec() == utf_read_end(d, p)
                &&& if p + 2 > d.len() || p + 2 + be_u16(d, p) > d.len() {
                    r matches Err(e) && is_io(e, EOF_EXCEPTION)
                } else {
                    match utf_units_spec(d.subrange(p + 2, p + 2 + be_u16(d, p))) {
                        Ok(us) => r matches Ok(v) && v@ == us,
                        Err(name) => r matches Err(e) && is_io(e, name),
                    }
                }
            }),
    {
        let len = match self.read_unsigned_short() {
            Ok(n) => n as usize,
            Err(e) => return Err(e),
        };
        let bytes = match self.take(len) {
            Ok(b) => b,
            Err(e) => return Err(e),
        };
        let units = match mutf8_to_units(0, bytes) {
            Ok(u) => u,
            Err(_) => return Err(io_error(UTF_DATA_FORMAT)),
        };
        match units_to_string(&units) {
            Ok(_) => {},
            Err(_) => return Err(io_error(UNPAIRED_SURROGATE)),
        }
        let mut out: Vec<u16> = Vec::with_capacity(units.len());
        let mut i: usize = 0;
        while i < units.len()
            invariant
                0 <= i <= units@.len(),
                out@ =~= units@.subrange(0, i as int).map_values(|p: (u16, usize)| p.0),
            decreases units@.len() - i,
        {
            out.push(units[i].0);
            i = i + 1;
        }
        assert(units@.subrange(0, units@.len() as int) =~= units@);
        Ok(out)
    }

    /// `close()` — a no-op on the buffered payload; still NPEs on a stream
    /// wrapping null.
    pub fn close(&mut self) -> (r: Result<(), JavaError>)
        ensures
            final(self).stream() == old(self).stream(),
            final(self).pos_spec() == old(self).pos_spec(),
            old(self).stream() is None ==> r == Err::<(), JavaError>(JavaError::NullPointer),
            old(self).stream() is Some ==> r is Ok,
    {
        match &self.data {
            None => Err(JavaError::NullPointer),
            Some(_) => Ok(()),
        }
    }
}

// ---------------------------------------------------------------------------
// Integer.parseInt(String, 10)
// ---------------------------------------------------------------------------

/// Whether `c` is an ASCII decimal digit.
pub open spec fn is_digit(c: char) -> bool {
    '0' <= c <= '9'
}

/// The value of a decimal digit.
pub open spec fn digit_of(c: char) -> int {
    c as int - '0' as int
}

/// Accumulating the digits of `cs` negatively (so that `Integer.MIN_VALUE`
/// fits): the running value, or the first failure.
pub open spec fn accumulate(cs: Seq<char>) -> Result<int, &'static str>
    decreases cs.len(),
{
    if cs.len() == 0 {
        Ok(0)
    } else {
        match accumulate(cs.drop_last()) {
            Err(m) => Err(m),
            Ok(acc) => if !is_digit(cs.last()) {
                Err(NFE_NON_DIGIT)
            } else if acc * 10 - digit_of(cs.last()) < i32::MIN {
                Err(NFE_OVERFLOW)
            } else {
                Ok(acc * 10 - digit_of(cs.last()))
            },
        }
    }
}

/// What `Integer.parseInt(s, 10)` gives for the characters `cs`: the value,
/// or the `NumberFormatException` message.
pub open spec fn parse_int_spec(cs: Seq<char>) -> Result<i32, &'static str> {
    if cs.len() == 0 {
        Err(NFE_EMPTY)
    } else {
        let neg = cs[0] == '-';
        let start: int = if cs[0] == '-' || cs[0] == '+' {
            1
        } else {
            0
        };
        if start == cs.len() {
            Err(NFE_SIGN_ONLY)
        } else {
            match accumulate(cs.subrange(start, cs.len() as int)) {
                Err(m) => Err(m),
                Ok(acc) => if neg {
                    Ok(acc as i32)
                } else if -acc > i32::MAX {
                    Err(NFE_OVERFLOW)
                } else {
                    Ok((-acc) as i32)
                },
            }
        }
    }
}

/// The running value stays within `[i32::MIN, 0]`.
proof fn lemma_accumulate_range(cs: Seq<char>)
    ensures
        accumulate(cs) matches Ok(acc) ==> i32::MIN <= acc <= 0,
    decreases cs.len(),
{
    if cs.len() > 0 {
        lemma_accumulate_range(cs.drop_last());
    }
}

/// Law: `Integer.parseInt` reads decimal digits positionally. A single
/// digit is its own value; appending a digit `c` to digits that parse to
/// `v` gives `10 * v + (c - '0')` — a `0` digit included — or, when that
/// exceeds `Integer.MAX_VALUE`, a `NumberFormatException`. A leading `-`
/// negates, a leading `+` changes nothing.
pub proof fn law_parse_int_is_positional(ds: Seq<char>, c: char)
    requires
        '0' <= c <= '9',
        forall|i: int| 0 <= i < ds.len() ==> '0' <= #[trigger] ds[i] <= '9',
    ensures
        parse_int_spec(seq![c]) == Ok::<i32, &'static str>((c as int - '0' as int) as i32),
        ds.len() >= 1 && parse_int_spec(ds) is Ok ==> {
            let w = 10 * parse_int_spec(ds)->Ok_0 + (c as int - '0' as int);
            &&& w <= i32::MAX ==> parse_int_spec(ds.push(c)) == Ok::<i32, &'static str>(w as i32)
            &&& w > i32::MAX ==> parse_int_spec(ds.push(c)) is Err
        },
        ds.len() >= 1 && parse_int_spec(ds) is Ok ==> parse_int_spec(seq!['-'] + ds) == Ok::<
            i32,
            &'static str,
        >((-parse_int_spec(ds)->Ok_0) as i32) && parse_int_spec(seq!['+'] + ds) == parse_int_spec(
            ds,
        ),
{
    let one = seq![c];
    assert(one[0] == c && one.last() == c);
    assert(one.subrange(0, 1) =~= one);
    assert(one.drop_last() =~= Seq::<char>::empty());
    assert(accumulate(one.drop_last()) == Ok::<int, &'static str>(0));
    assert(accumulate(one) == Ok::<int, &'static str>(0 * 10 - digit_of(c)));
    if ds.len() >= 1 && parse_int_spec(ds) is Ok {
        assert(ds.subrange(0, ds.len() as int) =~= ds);
        let e = ds.push(c);
        assert(e[0] == ds[0]);
        assert(e.subrange(0, e.len() as int) =~= e);
        assert(e.drop_last() =~= ds);
        lemma_accumulate_range(ds);
        let m = seq!['-'] + ds;
        assert(m.subrange(1, m.len() as int) =~= ds);
        let p = seq!['+'] + ds;
        assert(p.subrange(1, p.len() as int) =~= ds);
    }
}

/// `Integer.parseInt(String, 10)` — an optional sign, then decimal digits;
/// a malformed string or a value outside `int` is a
/// `NumberFormatException`.
pub fn parse_int_radix10(s: &str) -> (r: Result<i32, JavaError>)
    ensures
        match parse_int_spec(s@) {
            Ok(v) => r == Ok::<i32, JavaError>(v),
            Err(m) => r == Err::<i32, JavaError>(JavaError::IllegalArgument(m)),
        },
{
    let chars = collect_chars(s);
    if chars.len() == 0 {
        return Err(JavaError::IllegalArgument(NFE_EMPTY));
    }
    let (neg, start) = if chars[0] == '-' {
        (true, 1usize)
    } else if chars[0] == '+' {
        (false, 1usize)
    } else {
        (false, 0usize)
    };
    if start == chars.len() {
        return Err(JavaError::IllegalArgument(NFE_SIGN_ONLY));
    }
    let ghost digits = chars@.subrange(start as int, chars@.len() as int);
    let mut acc: i32 = 0;
    let mut k: usize = start;
    while k < chars.len()
        invariant
            chars@ == s@,
            chars@.len() > 0,
            start == (if chars@[0] == '-' || chars@[0] == '+' {
                1int
            } else {
                0int
            }),
            neg == (chars@[0] == '-'),
            start < chars@.len(),
            start <= k <= chars@.len(),
            digits == chars@.subrange(start as int, chars@.len() as int),
            accumulate(chars@.subrange(start as int, k as int)) == Ok::<int, &'static str>(
                acc as int,
            ),
            acc <= 0,
        decreases chars@.len() - k,
    {
        let c = chars[k];
        let ghost prefix = chars@.subrange(start as int, k + 1);
        proof {
            assert(prefix.drop_last() =~= chars@.subrange(start as int, k as int));
            assert(prefix.last() == c);
            assert(digits.subrange(0, k + 1 - start) =~= prefix);
        }
        if !('0' <= c && c <= '9') {
            proof {
                lemma_accumulate_err(digits, k + 1 - start);
            }
            return Err(JavaError::IllegalArgument(NFE_NON_DIGIT));
        }
        let d = (c as u32 - '0' as u32) as i32;
        if acc < -214748364 || (acc == -214748364 && d > 8) {
            proof {
                lemma_accumulate_err(digits, k + 1 - start);
            }
            return Err(JavaError::IllegalArgument(NFE_OVERFLOW));
        }
        acc = acc * 10 - d;
        k = k + 1;
    }
    proof {
        assert(chars@.subrange(start as int, k as int) =~= digits);
    }
    if neg {
        Ok(acc)
    } else if acc == i32::MIN {
        Err(JavaError::IllegalArgument(NFE_OVERFLOW))
    } else {
        Ok(-acc)
    }
}

/// Once a prefix of the digits fails, the whole string fails the same way.
proof fn lemma_accumulate_err(cs: Seq<char>, i: int)
    requires
        0 <= i <= cs.len(),
        accumulate(cs.subrange(0, i)) is Err,
    ensures
        accumulate(cs) == accumulate(cs.subrange(0, i)),
    decreases cs.len() - i,
{
    if i < cs.len() {
        assert(cs.subrange(0, i + 1).drop_last() =~= cs.subrange(0, i));
        lemma_accumulate_err(cs, i + 1);
    } else {
        assert(cs.subrange(0, i) =~= cs);
    }
}

} // verus!
