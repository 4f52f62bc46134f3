//! `.map` — level terrain grids (`res/N.map`, `res/netN.map`, `res/101.map`).
//!
//! ```text
//! offset  size            field
//! 0       u16 LE          width
//! 2       u16 LE          height
//! 4       width*height    cells   1 byte/cell, row-major: height rows × width cols
//! ```
//!
//! A blob is exactly `4 + width*height` bytes long; anything else is rejected.
//! The cell bytes are kept raw (no game-side remap is applied).
use crate::reader::{u16_le_at, FormatError, Reader};
use vstd::prelude::*;
use vstd::slice::slice_to_vec;

verus! {

/// The rejection reason for a blob whose length does not match its header.
pub const BAD_LENGTH: &'static str = "map blob length is not 4 + width*height";

/// A parsed terrain grid: the raw header plus the raw (un-remapped) cell bytes.
#[derive(Debug, PartialEq, Eq)]
pub struct LevelMap {
    width: u16,
    height: u16,
    cells: Vec<u8>,
}

/// The abstract content of a [`LevelMap`].
pub struct MapModel {
    pub width: u16,
    pub height: u16,
    /// Row-major: the cell at column `x`, row `y` is `cells[y * width + x]`.
    pub cells: Seq<u8>,
}

impl View for LevelMap {
    type V = MapModel;

    closed spec fn view(&self) -> MapModel {
        MapModel { width: self.width, height: self.height, cells: self.cells@ }
    }
}

/// The grid a blob denotes: the two little-endian header words, then exactly
/// `width * height` cell bytes.
pub open spec fn map_spec(data: Seq<u8>) -> Result<MapModel, FormatError> {
    match u16_le_at(data, 0) {
        Err(e) => Err(e),
        Ok((w, p)) => match u16_le_at(data, p) {
            Err(e) => Err(e),
            Ok((h, _)) => if data.len() != 4 + w * h {
                Err(FormatError::Invalid { at: 0, reason: BAD_LENGTH })
            } else {
                Ok(MapModel { width: w, height: h, cells: data.subrange(4, data.len() as int) })
            },
        },
    }
}

impl Clone for LevelMap {
    fn clone(&self) -> (r: Self)
        ensures
            r@ == self@,
    {
        proof {
            use_type_invariant(self);
        }
        let cells = slice_to_vec(self.cells.as_slice());
        LevelMap { width: self.width, height: self.height, cells }
    }
}

/// `x < w && y < h` puts `y * w + x` inside a `w * h` grid.
proof fn lemma_cell_index(x: int, y: int, w: int, h: int)
    requires
        0 <= x < w,
        0 <= y < h,
    ensures
        0 <= y * w + x < w * h,
{
    assert(y * w + x < w * h) by (nonlinear_arith)
        requires
            0 <= x < w,
            0 <= y < h,
    ;
    assert(0 <= y * w) by (nonlinear_arith)
        requires
            0 <= x < w,
            0 <= y < h,
    ;
}

/// Law: a blob that parses is exactly `4 + width * height` bytes, and the
/// cell at column `x`, row `y` is the byte at `4 + y * width + x` — the grid
/// is stored row by row.
pub proof fn law_map_layout(data: Seq<u8>, x: int, y: int)
    requires
        map_spec(data) is Ok,
    ensures
        ({
            let m = map_spec(data)->Ok_0;
            &&& data.len() == 4 + m.width * m.height
            &&& m.cells.len() == m.width * m.height
            &&& (0 <= x < m.width && 0 <= y < m.height) ==> 0 <= y * m.width + x < m.cells.len()
                && m.cells[y * m.width + x] == data[4 + y * m.width + x]
        }),
{
    let m = map_spec(data)->Ok_0;
    if 0 <= x < m.width && 0 <= y < m.height {
        lemma_cell_index(x, y, m.width as int, m.height as int);
    }
}

impl LevelMap {
    /// Every grid holds exactly `width * height` cells.
    #[verifier::type_invariant]
    closed spec fn inv(&self) -> bool {
        self.cells@.len() == self.width * self.height
    }

    /// Parse a `.map` blob. Rejects a truncated header, and a blob whose
    /// length is not exactly `4 + width*height`, with a typed error.
    pub fn parse(data: &[u8]) -> (r: Result<LevelMap, FormatError>)
        ensures
            match map_spec(data@) {
                Ok(m) => r matches Ok(map) && map@ == m,
                Err(e) => r == Err::<LevelMap, FormatError>(e),
            },
    {
        let mut r = Reader::new(data);
        let width = match r.u16_le() {
            Ok(v) => v,
            Err(e) => return Err(e),
        };
        let height = match r.u16_le() {
            Ok(v) => v,
            Err(e) => return Err(e),
        };
        proof {
            assert(width * height <= 65535 * 65535) by (nonlinear_arith)
                requires
                    width <= 65535,
                    height <= 65535,
            ;
        }
        let body = width as usize * height as usize;
        if data.len() != 4 + body {
            return Err(FormatError::Invalid { at: 0, reason: BAD_LENGTH });
        }
        let raw = match r.bytes(body) {
            Ok(b) => b,
            Err(e) => return Err(e),
        };
        let cells = slice_to_vec(raw);
        Ok(LevelMap { width, height, cells })
    }

    /// Grid width in cells.
    pub fn width(&self) -> (w: u16)
        ensures
            w == self@.width,
    {
        self.width
    }

    /// Grid height in cells.
    pub fn height(&self) -> (h: u16)
        ensures
            h == self@.height,
    {
        self.height
    }

    /// The raw row-major cell bytes.
    pub fn cells(&self) -> (c: &[u8])
        ensures
            c@ == self@.cells,
            c@.len() == self@.width * self@.height,
    {
        proof {
            use_type_invariant(self);
        }
        self.cells.as_slice()
    }

    /// The raw cell byte at column `x`, row `y`, or `None` when out of range.
    pub fn cell(&self, x: u16, y: u16) -> (r: Option<u8>)
        ensures
            r == (if x < self@.width && y < self@.height {
                Some(self@.cells[y * self@.width + x])
            } else {
                None
            }),
    {
        proof {
            use_type_invariant(self);
        }
        if x >= self.width || y >= self.height {
            return None;
        }
        let n = self.cells.len();
        proof {
            lemma_cell_index(x as int, y as int, self.width as int, self.height as int);
        }
        Some(self.cells[y as usize * self.width as usize + x as usize])
    }
}

} // verus!
