//! `sincos/sin.int`, `sincos/cos.int` — fixed-point trig lookup tables.
//!
//! Consecutive **big-endian `i16`** values to EOF (the game's tables hold one
//! entry per degree `0..=89`, scaled by [`SCALE`]). The parser is generic over
//! the entry count: it consumes the whole blob.
use crate::reader::{be_u16, signed16, FormatError, Reader};
use vstd::prelude::*;

verus! {

/// The fixed-point scale of the stored values.
pub const SCALE: i32 = 10_000;

/// The rejection reason for a blob that is not a whole number of entries.
pub const ODD_LENGTH: &'static str = "int table byte length is odd (not a whole number of i16)";

/// A parsed `.int` table: consecutive big-endian `i16` values to EOF.
#[derive(Debug, Clone, PartialEq, Eq)]
pub struct IntTable {
    values: Vec<i16>,
}

impl View for IntTable {
    type V = Seq<i16>;

    closed spec fn view(&self) -> Seq<i16> {
        self.values@
    }
}

/// The table a blob denotes: every pair of bytes as a big-endian `i16`, or the
/// rejection of an odd-length blob (reported at its last byte).
pub open spec fn int_table_spec(data: Seq<u8>) -> Result<Seq<i16>, FormatError> {
    if data.len() % 2 != 0 {
        Err(FormatError::Invalid { at: (data.len() - 1) as usize, reason: ODD_LENGTH })
    } else {
        Ok(Seq::new(data.len() / 2, |i: int| signed16(be_u16(data, 2 * i)) as i16))
    }
}

impl IntTable {
    /// Parse an `.int` blob. Rejects an odd byte length (not a whole number of
    /// `i16` entries) with a typed error.
    pub fn parse(data: &[u8]) -> (r: Result<IntTable, FormatError>)
        ensures
            match int_table_spec(data@) {
                Ok(vals) => r matches Ok(t) && t@ == vals,
                Err(e) => r == Err::<IntTable, FormatError>(e),
            },
    {
        if data.len() % 2 != 0 {
            return Err(FormatError::Invalid { at: data.len() - 1, reason: ODD_LENGTH });
        }
        let len = data.len();
        let mut r = Reader::new(data);
        let mut values: Vec<i16> = Vec::with_capacity(data.len() / 2);
        while r.remaining() > 0
            invariant
                r.bytes_spec() == data@,
                data@.len() == len,
                data@.len() % 2 == 0,
                r.pos_spec() % 2 == 0,
                0 <= r.pos_spec() <= data@.len(),
                values@ =~= Seq::new(
                    (r.pos_spec() / 2) as nat,
                    |i: int| signed16(be_u16(data@, 2 * i)) as i16,
                ),
            decreases data@.len() - r.pos_spec(),
        {
            let v = match r.i16_be() {
                Ok(v) => v,
                Err(e) => return Err(e),
            };
            values.push(v);
        }
        Ok(IntTable { values })
    }

    /// All values, in file order.
    pub fn values(&self) -> (r: &[i16])
        ensures
            r@ == self@,
    {
        self.values.as_slice()
    }

    /// Number of entries.
    pub fn len(&self) -> (n: usize)
        ensures
            n == self@.len(),
    {
        self.values.len()
    }

    /// Whether the table holds no entries.
    pub fn is_empty(&self) -> (b: bool)
        ensures
            b == (self@.len() == 0),
    {
        self.values.len() == 0
    }

    /// One value by index, or `None` when out of range.
    pub fn get(&self, index: usize) -> (r: Option<i16>)
        ensures
            r == (if index < self@.len() {
                Some(self@[index as int])
            } else {
                None
            }),
    {
        if index < self.values.len() {
            Some(self.values[index])
        } else {
            None
        }
    }
}

} // verus!
