//! The bounded byte reader every format parser is written against, and the
//! typed error those parsers return.
//!
//! All reads are checked: running off the end yields
//! [`FormatError::Truncated`] and leaves the cursor where it was, so a
//! malformed blob can never crash a parser.
use vstd::prelude::*;

verus! {

/// Errors a bounded parser may return.
#[derive(Debug, Clone, PartialEq, Eq)]
pub enum FormatError {
    /// A read needed `needed` bytes at offset `at`, but only `have` remained.
    Truncated { at: usize, needed: usize, have: usize },
    /// A value at offset `at` is not acceptable for the format.
    Invalid { at: usize, reason: &'static str },
}

// ---------------------------------------------------------------------------
// Byte-level value model
// ---------------------------------------------------------------------------

/// Big-endian unsigned 16-bit value of `data[at..at+2]`.
pub open spec fn be_u16(data: Seq<u8>, at: int) -> int {
    data[at] * 256 + data[at + 1]
}

/// Little-endian unsigned 16-bit value of `data[at..at+2]`.
pub open spec fn le_u16(data: Seq<u8>, at: int) -> int {
    data[at] + data[at + 1] * 256
}

/// Big-endian unsigned 32-bit value of `data[at..at+4]`.
pub open spec fn be_u32(data: Seq<u8>, at: int) -> int {
    data[at] * 16777216 + data[at + 1] * 65536 + data[at + 2] * 256 + data[at + 3]
}

/// Two's-complement reading of an unsigned 16-bit value.
pub open spec fn signed16(u: int) -> int {
    if u >= 32768 {
        u - 65536
    } else {
        u
    }
}

/// Two's-complement reading of an unsigned 32-bit value.
pub open spec fn signed32(u: int) -> int {
    if u >= 0x8000_0000 {
        u - 0x1_0000_0000
    } else {
        u
    }
}

/// Two's-complement reading of an unsigned 8-bit value.
pub open spec fn signed8(u: int) -> int {
    if u >= 128 {
        u - 256
    } else {
        u
    }
}

/// Taking `n` bytes at `pos` of `data`: the end offset on success, or the
/// error a bounded read reports. An end offset that does not fit in `usize`
/// is reported at the end of the blob with `needed == usize::MAX`.
pub open spec fn take_spec(data: Seq<u8>, pos: int, n: int) -> Result<int, FormatError> {
    if pos + n > usize::MAX {
        Err(FormatError::Truncated { at: data.len() as usize, needed: usize::MAX, have: 0 })
    } else if pos + n > data.len() {
        Err(
            FormatError::Truncated {
                at: pos as usize,
                needed: n as usize,
                have: (data.len() - pos) as usize,
            },
        )
    } else {
        Ok(pos + n)
    }
}

/// A big-endian `i32` read at `pos`: the value and the next offset.
pub open spec fn i32_at(data: Seq<u8>, pos: int) -> Result<(i32, int), FormatError> {
    match take_spec(data, pos, 4) {
        Err(e) => Err(e),
        Ok(q) => Ok((signed32(be_u32(data, pos)) as i32, q)),
    }
}

/// A big-endian `i16` read at `pos`: the value and the next offset.
pub open spec fn i16_at(data: Seq<u8>, pos: int) -> Result<(i16, int), FormatError> {
    match take_spec(data, pos, 2) {
        Err(e) => Err(e),
        Ok(q) => Ok((signed16(be_u16(data, pos)) as i16, q)),
    }
}

/// A big-endian `u16` read at `pos`: the value and the next offset.
pub open spec fn u16_be_at(data: Seq<u8>, pos: int) -> Result<(u16, int), FormatError> {
    match take_spec(data, pos, 2) {
        Err(e) => Err(e),
        Ok(q) => Ok((be_u16(data, pos) as u16, q)),
    }
}

/// A little-endian `u16` read at `pos`: the value and the next offset.
pub open spec fn u16_le_at(data: Seq<u8>, pos: int) -> Result<(u16, int), FormatError> {
    match take_spec(data, pos, 2) {
        Err(e) => Err(e),
        Ok(q) => Ok((le_u16(data, pos) as u16, q)),
    }
}

/// `k` items read back to back from `pos` by `step` (each item read at the
/// offset where the previous one ended): the items and the final offset, or
/// the first failure.
pub open spec fn read_seq<T>(
    step: spec_fn(int) -> Result<(T, int), FormatError>,
    pos: int,
    k: nat,
) -> Result<(Seq<T>, int), FormatError>
    decreases k,
{
    if k == 0 {
        Ok((Seq::empty(), pos))
    } else {
        match read_seq(step, pos, (k - 1) as nat) {
            Err(e) => Err(e),
            Ok((items, p)) => match step(p) {
                Err(e) => Err(e),
                Ok((x, q)) => Ok((items.push(x), q)),
            },
        }
    }
}

/// Once reading the first `i` items fails, reading more fails the same way.
pub proof fn lemma_read_seq_err<T>(
    step: spec_fn(int) -> Result<(T, int), FormatError>,
    pos: int,
    i: nat,
    k: nat,
)
    requires
        i <= k,
        read_seq(step, pos, i) is Err,
    ensures
        read_seq(step, pos, k) == read_seq(step, pos, i),
    decreases k,
{
    if k > i {
        lemma_read_seq_err(step, pos, i, (k - 1) as nat);
    }
}

/// When every step advances the offset, `k` items end no earlier than `pos`
/// and hold exactly `k` items.
pub proof fn lemma_read_seq_len<T>(
    step: spec_fn(int) -> Result<(T, int), FormatError>,
    pos: int,
    k: nat,
)
    requires
        forall|p: int| #[trigger] step(p) matches Ok((_, q)) ==> q >= p,
    ensures
        read_seq(step, pos, k) matches Ok((items, q)) ==> items.len() == k && q >= pos,
    decreases k,
{
    if k > 0 {
        lemma_read_seq_len(step, pos, (k - 1) as nat);
        if let Ok((items, p)) = read_seq(step, pos, (k - 1) as nat) {
            let _ = step(p);
        }
    }
}

/// When every step advances the offset by at least `w`, `k` items end at
/// least `w * k` bytes after `pos`.
pub proof fn lemma_read_seq_advance<T>(
    step: spec_fn(int) -> Result<(T, int), FormatError>,
    pos: int,
    k: nat,
    w: int,
)
    requires
        0 <= w,
        forall|p: int| #[trigger] step(p) matches Ok((_, q)) ==> q >= p + w,
    ensures
        read_seq(step, pos, k) matches Ok((items, q)) ==> items.len() == k && q >= pos + w * k,
    decreases k,
{
    if k > 0 {
        lemma_read_seq_advance(step, pos, (k - 1) as nat, w);
        assert(w * k == w * (k - 1) + w) by (nonlinear_arith);
        if let Ok((items, p)) = read_seq(step, pos, (k - 1) as nat) {
            let _ = step(p);
        }
    } else {
        assert(w * k == 0) by (nonlinear_arith)
            requires
                k == 0,
        ;
    }
}

/// `prefix` followed by what `rest` holds, or `rest`'s failure.
pub open spec fn prepend<T>(prefix: Seq<T>, rest: Result<Seq<T>, FormatError>) -> Result<
    Seq<T>,
    FormatError,
> {
    match rest {
        Err(e) => Err(e),
        Ok(r) => Ok(prefix + r),
    }
}

// ---------------------------------------------------------------------------
// The reader
// ---------------------------------------------------------------------------

/// A bounded cursor over an in-memory resource blob.
#[derive(Debug)]
pub struct Reader<'a> {
    data: &'a [u8],
    pos: usize,
    len: usize,
}

impl<'a> Reader<'a> {
    /// The cursor always lies within the blob.
    #[verifier::type_invariant]
    pub closed spec fn inv(&self) -> bool {
        &&& self.pos <= self.data@.len()
        &&& self.len == self.data@.len()
    }

    /// The bytes being read.
    pub closed spec fn bytes_spec(&self) -> Seq<u8> {
        self.data@
    }

    /// The cursor's offset.
    pub closed spec fn pos_spec(&self) -> int {
        self.pos as int
    }

    pub fn new(data: &'a [u8]) -> (r: Self)
        ensures
            r.bytes_spec() == data@,
            r.pos_spec() == 0,
    {
        Reader { data, pos: 0, len: data.len() }
    }

    pub fn position(&self) -> (p: usize)
        ensures
            p == self.pos_spec(),
            p <= self.bytes_spec().len(),
    {
        proof {
            use_type_invariant(self);
        }
        self.pos
    }

    pub fn remaining(&self) -> (n: usize)
        ensures
            n == self.bytes_spec().len() - self.pos_spec(),
    {
        proof {
            use_type_invariant(self);
        }
        self.len - self.pos
    }

    /// Total length of the underlying blob.
    pub fn len(&self) -> (n: usize)
        ensures
            n == self.bytes_spec().len(),
    {
        proof {
            use_type_invariant(self);
        }
        self.len
    }

    /// Whether the underlying blob is empty.
    pub fn is_empty(&self) -> (b: bool)
        ensures
            b == (self.bytes_spec().len() == 0),
    {
        proof {
            use_type_invariant(self);
        }
        self.len == 0
    }

    /// Borrow `n` raw bytes and advance past them, or fail (cursor unchanged)
    /// if fewer remain.
    pub fn bytes(&mut self, n: usize) -> (r: Result<&'a [u8], FormatError>)
        ensures
            final(self).bytes_spec() == old(self).bytes_spec(),
            match take_spec(old(self).bytes_spec(), old(self).pos_spec(), n as int) {
                Ok(q) => {
                    &&& r matches Ok(s) && s@ == old(self).bytes_spec().subrange(
                        old(self).pos_spec(),
                        q,
                    )
                    &&& final(self).pos_spec() == q
                },
                Err(e) => r == Err::<&'a [u8], FormatError>(e) && final(self).pos_spec()
                    == old(self).pos_spec(),
            },
    {
        proof {
            use_type_invariant(&*self);
        }
        let pos = self.pos;
        if n > usize::MAX - pos {
            return Err(FormatError::Truncated { at: self.len, needed: usize::MAX, have: 0 });
        }
        let end = pos + n;
        if end > self.len {
            return Err(FormatError::Truncated { at: pos, needed: n, have: self.len - pos });
        }
        let data: &'a [u8] = self.data;
        self.pos = end;
        Ok(&data[pos..end])
    }

    /// Advance the cursor by `n` bytes, or fail if fewer remain.
    pub fn skip(&mut self, n: usize) -> (r: Result<(), FormatError>)
        ensures
            final(self).bytes_spec() == old(self).bytes_spec(),
            match take_spec(old(self).bytes_spec(), old(self).pos_spec(), n as int) {
                Ok(q) => r is Ok && final(self).pos_spec() == q,
                Err(e) => r == Err::<(), FormatError>(e) && final(self).pos_spec()
                    == old(self).pos_spec(),
            },
    {
        match self.bytes(n) {
            Ok(_) => Ok(()),
            Err(e) => Err(e),
        }
    }

    /// Seek to an absolute offset, failing (cursor unchanged) if it lies past
    /// the end of input.
    pub fn seek(&mut self, at: usize) -> (r: Result<(), FormatError>)
        ensures
            final(self).bytes_spec() == old(self).bytes_spec(),
            at <= old(self).bytes_spec().len() ==> r is Ok && final(self).pos_spec() == at,
            at > old(self).bytes_spec().len() ==> r == Err::<(), FormatError>(
                FormatError::Truncated {
                    at: old(self).bytes_spec().len() as usize,
                    needed: (at - old(self).bytes_spec().len()) as usize,
                    have: 0,
                },
            ) && final(self).pos_spec() == old(self).pos_spec(),
    {
        proof {
            use_type_invariant(&*self);
        }
        if at > self.len {
            return Err(FormatError::Truncated { at: self.len, needed: at - self.len, have: 0 });
        }
        self.pos = at;
        Ok(())
    }

    /// One unsigned byte.
    pub fn u8(&mut self) -> (r: Result<u8, FormatError>)
        ensures
            final(self).bytes_spec() == old(self).bytes_spec(),
            match take_spec(old(self).bytes_spec(), old(self).pos_spec(), 1) {
                Ok(q) => r == Ok::<u8, FormatError>(old(self).bytes_spec()[old(self).pos_spec()])
                    && final(self).pos_spec() == q,
                Err(e) => r == Err::<u8, FormatError>(e) && final(self).pos_spec()
                    == old(self).pos_spec(),
            },
    {
        match self.bytes(1) {
            Ok(b) => Ok(b[0]),
            Err(e) => Err(e),
        }
    }

    /// One signed byte (Java `DataInput.readByte` order/sign).
    pub fn i8(&mut self) -> (r: Result<i8, FormatError>)
        ensures
            final(self).bytes_spec() == old(self).bytes_spec(),
            match take_spec(old(self).bytes_spec(), old(self).pos_spec(), 1) {
                Ok(q) => r == Ok::<i8, FormatError>(
                    signed8(old(self).bytes_spec()[old(self).pos_spec()] as int) as i8,
                ) && final(self).pos_spec() == q,
                Err(e) => r == Err::<i8, FormatError>(e) && final(self).pos_spec()
                    == old(self).pos_spec(),
            },
    {
        match self.bytes(1) {
            Ok(b) => Ok(to_i8(b[0])),
            Err(e) => Err(e),
        }
    }

    /// Big-endian u16 (Java `DataInput` order).
    pub fn u16_be(&mut self) -> (r: Result<u16, FormatError>)
        ensures
            final(self).bytes_spec() == old(self).bytes_spec(),
            match u16_be_at(old(self).bytes_spec(), old(self).pos_spec()) {
                Ok((v, q)) => r == Ok::<u16, FormatError>(v) && final(self).pos_spec() == q,
                Err(e) => r == Err::<u16, FormatError>(e) && final(self).pos_spec()
                    == old(self).pos_spec(),
            },
    {
        match self.bytes(2) {
            Ok(b) => Ok(be_u16_of(b[0], b[1])),
            Err(e) => Err(e),
        }
    }

    /// Big-endian i16 (Java `DataInput.readShort` order/sign).
    pub fn i16_be(&mut self) -> (r: Result<i16, FormatError>)
        ensures
            final(self).bytes_spec() == old(self).bytes_spec(),
            match i16_at(old(self).bytes_spec(), old(self).pos_spec()) {
                Ok((v, q)) => r == Ok::<i16, FormatError>(v) && final(self).pos_spec() == q,
                Err(e) => r == Err::<i16, FormatError>(e) && final(self).pos_spec()
                    == old(self).pos_spec(),
            },
    {
        match self.bytes(2) {
            Ok(b) => Ok(to_i16(be_u16_of(b[0], b[1]))),
            Err(e) => Err(e),
        }
    }

    /// Little-endian u16.
    pub fn u16_le(&mut self) -> (r: Result<u16, FormatError>)
        ensures
            final(self).bytes_spec() == old(self).bytes_spec(),
            match u16_le_at(old(self).bytes_spec(), old(self).pos_spec()) {
                Ok((v, q)) => r == Ok::<u16, FormatError>(v) && final(self).pos_spec() == q,
                Err(e) => r == Err::<u16, FormatError>(e) && final(self).pos_spec()
                    == old(self).pos_spec(),
            },
    {
        match self.bytes(2) {
            Ok(b) => Ok(be_u16_of(b[1], b[0])),
            Err(e) => Err(e),
        }
    }

    /// Big-endian u32 (Java `DataInput` order).
    pub fn u32_be(&mut self) -> (r: Result<u32, FormatError>)
        ensures
            final(self).bytes_spec() == old(self).bytes_spec(),
            match take_spec(old(self).bytes_spec(), old(self).pos_spec(), 4) {
                Ok(q) => r == Ok::<u32, FormatError>(
                    be_u32(old(self).bytes_spec(), old(self).pos_spec()) as u32,
                ) && final(self).pos_spec() == q,
                Err(e) => r == Err::<u32, FormatError>(e) && final(self).pos_spec()
                    == old(self).pos_spec(),
            },
    {
        match self.bytes(4) {
            Ok(b) => Ok(be_u32_of(b[0], b[1], b[2], b[3])),
            Err(e) => Err(e),
        }
    }

    /// Big-endian i32 (Java `DataInput` order).
    pub fn i32_be(&mut self) -> (r: Result<i32, FormatError>)
        ensures
            final(self).bytes_spec() == old(self).bytes_spec(),
            match i32_at(old(self).bytes_spec(), old(self).pos_spec()) {
                Ok((v, q)) => r == Ok::<i32, FormatError>(v) && final(self).pos_spec() == q,
                Err(e) => r == Err::<i32, FormatError>(e) && final(self).pos_spec()
                    == old(self).pos_spec(),
            },
    {
        match self.bytes(4) {
            Ok(b) => Ok(to_i32(be_u32_of(b[0], b[1], b[2], b[3]))),
            Err(e) => Err(e),
        }
    }
}

impl<'a> Clone for Reader<'a> {
    fn clone(&self) -> (r: Self)
        ensures
            r.bytes_spec() == self.bytes_spec(),
            r.pos_spec() == self.pos_spec(),
    {
        proof {
            use_type_invariant(self);
        }
        Reader { data: self.data, pos: self.pos, len: self.len }
    }
}

// ---------------------------------------------------------------------------
// Byte arithmetic
// ---------------------------------------------------------------------------

/// `hi * 256 + lo`.
pub fn be_u16_of(hi: u8, lo: u8) -> (r: u16)
    ensures
        r == hi * 256 + lo,
{
    (hi as u16) * 256 + (lo as u16)
}

/// The big-endian `u32` of four bytes.
pub fn be_u32_of(b0: u8, b1: u8, b2: u8, b3: u8) -> (r: u32)
    ensures
        r == b0 * 16777216 + b1 * 65536 + b2 * 256 + b3,
{
    (b0 as u32) * 16777216 + (b1 as u32) * 65536 + (b2 as u32) * 256 + (b3 as u32)
}

/// Two's-complement reinterpretation of a `u8`.
pub fn to_i8(u: u8) -> (r: i8)
    ensures
        r == signed8(u as int),
{
    if u >= 128 {
        ((u - 128) as i8) - 127 - 1
    } else {
        u as i8
    }
}

/// Two's-complement reinterpretation of a `u16`.
pub fn to_i16(u: u16) -> (r: i16)
    ensures
        r == signed16(u as int),
{
    if u >= 32768 {
        ((u - 32768) as i16) - 32767 - 1
    } else {
        u as i16
    }
}

/// Two's-complement reinterpretation of a `u32`.
pub fn to_i32(u: u32) -> (r: i32)
    ensures
        r == signed32(u as int),
{
    if u >= 0x8000_0000 {
        ((u - 0x8000_0000) as i32) - 0x7fff_ffff - 1
    } else {
        u as i32
    }
}

} // verus!
