//! The static final int-array tables of class `g`.
use vstd::prelude::*;

verus! {

/// `g.f58i`.
pub const F58I: [i32; 5] = [0, 6, 7, 8, 9];

/// `g.f59j`.
pub const F59J: [i32; 10] = [0, 1, 2, 3, 4, 5, 6, 7, 8, 9];

/// `g.f60k`.
pub const F60K: [i32; 11] = [0, 1, 2, 3, 4, 5, 6, 7, 8, 9, 10];

/// `g.f61l`.
pub const F61L: [i32; 9] = [0, 1, 2, 3, 5, 6, 7, 8, 9];

/// `g.m`.
pub const M: [i32; 10] = [0, 1, 2, 3, 5, 6, 7, 8, 9, 10];

} // verus!
