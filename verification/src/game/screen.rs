//! Indices of the 22 boot-time screen objects, named by their Java field
//! (creation order = kind).
use vstd::prelude::*;

verus! {

pub const F147B: usize = 0;
pub const F146A: usize = 1;
pub const F148C: usize = 2;
pub const F149D: usize = 3;
pub const F150E: usize = 4;
pub const F151F: usize = 5;
pub const F152G: usize = 6;
pub const H: usize = 7;
pub const I: usize = 8;
pub const J: usize = 9;
pub const K: usize = 10;
pub const L: usize = 11;
pub const M: usize = 12;
pub const N: usize = 13;
pub const O: usize = 14;
pub const P: usize = 15;
pub const Q: usize = 16;
pub const R: usize = 17;
pub const S: usize = 18;
pub const T: usize = 19;
pub const U: usize = 20;
pub const V: usize = 21;

} // verus!
