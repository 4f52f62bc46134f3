//! `java.util.Random` — the exact 48-bit linear-congruential generator behind
//! the gameplay RNG. The sequence must be bit-for-bit Java's, so this follows
//! the algorithm the JDK documents: the state is a 48-bit seed,
//! `seed' = (seed · 0x5DEECE66D + 0xB) mod 2^48`, and `next(bits)` yields the
//! top `bits` bits of the new seed.
use crate::reader::{signed32, to_i32};
use vstd::arithmetic::power2::{lemma2_to64, lemma2_to64_rest, lemma_pow2_adds, lemma_pow2_strictly_increases, pow2};
use vstd::bits::lemma_u64_shr_is_div;
use vstd::prelude::*;

verus! {

/// The LCG multiplier.
pub const MULTIPLIER: i64 = 0x5DEECE66D;

/// The LCG addend.
pub const ADDEND: i64 = 0xB;

/// The 48-bit state mask, `(1 << 48) - 1`.
pub const MASK: i64 = 0xFFFF_FFFF_FFFF;

/// The state a user seed is scrambled into: `(seed ^ 0x5DEECE66D) & (2^48 - 1)`.
pub open spec fn scramble(seed: i64) -> int {
    ((seed ^ MULTIPLIER) & MASK) as int
}

/// One LCG step on a 48-bit state.
pub open spec fn lcg_next(s: int) -> int {
    (s * 0x5DEECE66D + 0xB) % 0x1_0000_0000_0000
}

/// The `int` that `nextInt()` draws from the state it advances to.
pub open spec fn next_int_value(s: int) -> int {
    signed32(lcg_next(s) / 0x1_0000)
}

/// `java.util.Random`. The state is the 48-bit `seed`; `nextInt()` is
/// `next(32)`.
#[derive(Debug)]
pub struct JavaRandom {
    seed: i64,
}

impl View for JavaRandom {
    type V = int;

    closed spec fn view(&self) -> int {
        self.seed as int
    }
}

/// The scrambled seed is a 48-bit state.
proof fn lemma_scramble_range(seed: i64)
    ensures
        0 <= scramble(seed) < 0x1_0000_0000_0000,
{
    let x = seed ^ MULTIPLIER;
    assert(0 <= (x & 0xFFFF_FFFF_FFFFi64) && (x & 0xFFFF_FFFF_FFFFi64) < 0x1_0000_0000_0000i64)
        by (bit_vector);
}

/// The top `bits` bits of a 48-bit state fit in 32 bits.
proof fn lemma_top_bits(x: int, bits: int)
    requires
        0 <= x < 0x1_0000_0000_0000,
        1 <= bits <= 32,
    ensures
        x / (pow2((48 - bits) as nat) as int) < 0x1_0000_0000,
        pow2((48 - bits) as nat) > 0,
{
    let k = (48 - bits) as nat;
    let m = bits as nat;
    lemma_pow2_adds(k, m);
    lemma2_to64();
    lemma2_to64_rest();
    assert(pow2(k + m) == pow2(48));
    if m < 32 {
        lemma_pow2_strictly_increases(m, 32);
    }
    if k < 48 {
        lemma_pow2_strictly_increases(0, k);
    }
    let a = pow2(k) as int;
    let b = pow2(m) as int;
    assert(x / a < b) by (nonlinear_arith)
        requires
            0 <= x < a * b,
            a > 0,
    ;
}

impl Clone for JavaRandom {
    fn clone(&self) -> (r: Self)
        ensures
            r@ == self@,
    {
        proof {
            use_type_invariant(self);
        }
        JavaRandom { seed: self.seed }
    }
}

impl JavaRandom {
    /// The state is always a 48-bit value.
    #[verifier::type_invariant]
    closed spec fn inv(&self) -> bool {
        0 <= self.seed < 0x1_0000_0000_0000
    }

    /// `new Random(seed)` — scrambles the seed exactly as the JDK does.
    pub fn with_seed(seed: i64) -> (r: Self)
        ensures
            r@ == scramble(seed),
    {
        proof {
            lemma_scramble_range(seed);
        }
        Self { seed: (seed ^ MULTIPLIER) & MASK }
    }

    /// `setSeed(seed)` — restarts the sequence from a fresh scramble.
    pub fn set_seed(&mut self, seed: i64)
        ensures
            final(self)@ == scramble(seed),
    {
        proof {
            lemma_scramble_range(seed);
        }
        self.seed = (seed ^ MULTIPLIER) & MASK;
    }

    /// `protected int next(int bits)` — advance the LCG and take the top
    /// `bits` bits of the new state, as a two's-complement `int`.
    fn next(&mut self, bits: i32) -> (r: i32)
        requires
            1 <= bits <= 32,
        ensures
            final(self)@ == lcg_next(old(self)@),
            r == signed32(lcg_next(old(self)@) / (pow2((48 - bits) as nat) as int)),
    {
        proof {
            use_type_invariant(&*self);
        }
        let s: u128 = self.seed as u128;
        let n: u128 = (s * 0x5DEECE66D + 0xB) % 0x1_0000_0000_0000;
        self.seed = n as i64;
        let shift: u64 = (48 - bits) as u64;
        let top: u64 = (self.seed as u64) >> shift;
        proof {
            lemma_u64_shr_is_div(self.seed as u64, shift);
            lemma_top_bits(n as int, bits as int);
        }
        to_i32(top as u32)
    }

    /// `nextInt()` — a uniformly distributed 32-bit `int`.
    pub fn next_int(&mut self) -> (r: i32)
        ensures
            final(self)@ == lcg_next(old(self)@),
            r == next_int_value(old(self)@),
    {
        let r = self.next(32);
        proof {
            lemma2_to64();
        }
        r
    }
}

/// The state `new Random(seed)` holds after `n` draws.
pub open spec fn state_after(seed: i64, n: nat) -> int
    decreases n,
{
    if n == 0 {
        scramble(seed)
    } else {
        lcg_next(state_after(seed, (n - 1) as nat))
    }
}

/// The JDK's `n`-th `nextInt()` (counting from 1) of `new Random(seed)`:
/// `(int) (x_n >>> 16)`, the top 32 bits of the `n`-th state.
pub open spec fn jdk_next_int(seed: i64, n: nat) -> i32 {
    (((state_after(seed, n) as u64) >> 16u64) as u32) as i32
}

/// Every state of the sequence is a 48-bit value.
proof fn lemma_state_range(seed: i64, n: nat)
    ensures
        0 <= state_after(seed, n) < 0x1_0000_0000_0000,
    decreases n,
{
    if n == 0 {
        lemma_scramble_range(seed);
    } else {
        lemma_state_range(seed, (n - 1) as nat);
    }
}

/// The top 32 bits of a 48-bit state, read as an `int`, are its quotient
/// by 2^16 in two's complement.
proof fn lemma_top_word(x: u64)
    requires
        x < 0x1_0000_0000_0000,
    ensures
        signed32((x / 0x1_0000) as int) == ((x >> 16u64) as u32) as i32,
{
    assert(x >> 16u64 == x / 0x1_0000) by (bit_vector);
    let y = (x >> 16u64) as u32;
    assert(x >> 16u64 < 0x1_0000_0000) by (bit_vector)
        requires
            x < 0x1_0000_0000_0000u64,
    ;
    assert(y as int == x / 0x1_0000);
    assert((y as i32) as int == if y >= 0x8000_0000u32 {
        y as int - 0x1_0000_0000
    } else {
        y as int
    }) by (bit_vector);
}

/// `states` and `draws` chain as `next_int()` leaves them: each draw is
/// taken from its state, which steps to the next.
pub open spec fn chained(states: Seq<int>, draws: Seq<i32>) -> bool {
    &&& states.len() == draws.len() + 1
    &&& forall|j: int|
        0 <= j < draws.len() ==> states[j + 1] == lcg_next(states[j]) && #[trigger] draws[j]
            == next_int_value(states[j])
}

/// Law: `java.util.Random`'s sequence, draw by draw. Given the states and
/// draws that `with_seed(seed)` and then one `next_int()` per draw leave,
/// as their contracts state them, the state after `k` draws is the `k`-th
/// LCG state from the scrambled seed, and draw `k` (from 0) is the JDK's
/// `(int) (x_(k+1) >>> 16)`: it depends on nothing but the seed and `k`.
pub proof fn law_nth_next_int(seed: i64, states: Seq<int>, draws: Seq<i32>)
    requires
        chained(states, draws),
        states[0] == scramble(seed),
    ensures
        forall|k: int| 0 <= k < states.len() ==> #[trigger] states[k] == state_after(seed, k as nat),
        forall|k: int|
            0 <= k < draws.len() ==> #[trigger] draws[k] == jdk_next_int(seed, (k + 1) as nat),
{
    assert forall|k: int| 0 <= k < states.len() implies #[trigger] states[k] == state_after(
        seed,
        k as nat,
    ) by {
        lemma_states_follow(seed, states, draws, k);
    }
    assert forall|k: int| 0 <= k < draws.len() implies #[trigger] draws[k] == jdk_next_int(
        seed,
        (k + 1) as nat,
    ) by {
        lemma_states_follow(seed, states, draws, k);
        lemma_state_range(seed, (k + 1) as nat);
        let x = state_after(seed, (k + 1) as nat);
        assert(x == lcg_next(states[k]));
        lemma_top_word(x as u64);
    }
}

/// The `k`-th state of a draw sequence is the `k`-th LCG state.
proof fn lemma_states_follow(seed: i64, states: Seq<int>, draws: Seq<i32>, k: int)
    requires
        chained(states, draws),
        states[0] == scramble(seed),
        0 <= k < states.len(),
    ensures
        states[k] == state_after(seed, k as nat),
    decreases k,
{
    if k > 0 {
        lemma_states_follow(seed, states, draws, k - 1);
        assert(draws[k - 1] == next_int_value(states[k - 1]));
    }
}

impl Default for JavaRandom {
    /// A deterministic default (seed 0).
    fn default() -> (r: Self)
        ensures
            r@ == scramble(0),
    {
        JavaRandom::with_seed(0)
    }
}

} // verus!
