//! A 64-bit linear congruential generator, seeded per pixel from the reseed
//! value, the frame index and the pixel index.
use vstd::prelude::*;

verus! {

/// Multiplier of the generator's step.
pub const LCG_MUL: u64 = 6364136223846793005;

/// Increment of the generator's step.
pub const LCG_INC: u64 = 1442695040888963407;

/// Multiplier applied to a seed before the first step, and to the reseed value.
pub const SEED_MUL: u64 = 1103515245;

/// Increment applied to a seed before the first step.
pub const SEED_INC: u64 = 12345;

/// Multiplier that spreads the frame index apart from the pixel index.
pub const FRAME_MUL: u64 = 2654435761;

/// The modulus of all generator arithmetic.
pub open spec fn modulus() -> int {
    0x1_0000_0000_0000_0000
}

/// `a * x + c` reduced modulo 2^64.
pub open spec fn affine(x: u64, a: u64, c: u64) -> u64 {
    ((x * a + c) % modulus()) as u64
}

/// One step of the generator.
pub open spec fn lcg_step(s: u64) -> u64 {
    affine(s, LCG_MUL, LCG_INC)
}

/// The state of a generator just built from `seed`.
pub open spec fn initial_state(seed: u64) -> u64 {
    lcg_step(affine(seed, SEED_MUL, SEED_INC))
}

/// The state after `n` further steps from `s`.
pub open spec fn state_after(s: u64, n: nat) -> u64
    decreases n,
{
    if n == 0 {
        s
    } else {
        lcg_step(state_after(s, (n - 1) as nat))
    }
}

/// What a draw returns once the state has advanced to `s`: its upper 32 bits.
pub open spec fn high_bits(s: u64) -> u32 {
    (s >> 32u64) as u32
}

/// The first `n` draws of a generator whose state is `s`.
pub open spec fn draws(s: u64, n: nat) -> Seq<u32> {
    Seq::new(n, |k: int| high_bits(state_after(s, (k + 1) as nat)))
}

/// The seed of the generator for one pixel of one frame.
pub open spec fn pixel_seed_spec(reseed: u64, frame: u32, pixel: u32) -> u64 {
    let a = affine(reseed, SEED_MUL, frame as u64);
    let b = affine(a, FRAME_MUL, pixel as u64);
    affine(b, LCG_MUL, 0)
}

/// The reseed value that follows `g` after a change of pose.
pub open spec fn next_reseed_spec(g: u64) -> u64 {
    lcg_step(g)
}

/// `wrapping_mul` followed by `wrapping_add` is the affine map modulo 2^64.
proof fn lemma_wrapping_affine(x: u64, a: u64, c: u64)
    ensures
        x.wrapping_mul(a).wrapping_add(c) == affine(x, a, c),
{
    let m = modulus();
    let p = (x as int * a as int) % m;
    vstd::arithmetic::div_mod::lemma_add_mod_noop(x * a, c as int, m);
    vstd::arithmetic::div_mod::lemma_mod_twice(c as int, m);
    assert(0 <= p < m) by {
        vstd::arithmetic::div_mod::lemma_mod_bound(x * a, m);
    }
    if p + c >= m {
        vstd::arithmetic::div_mod::lemma_mod_sub_multiples_vanish(p + c, m);
        vstd::arithmetic::div_mod::lemma_small_mod((p + c - m) as nat, m as nat);
    } else {
        vstd::arithmetic::div_mod::lemma_small_mod((p + c) as nat, m as nat);
    }
}

/// Computes `a * x + c` modulo 2^64.
fn affine_exec(x: u64, a: u64, c: u64) -> (r: u64)
    ensures
        r == affine(x, a, c),
{
    proof {
        lemma_wrapping_affine(x, a, c);
    }
    x.wrapping_mul(a).wrapping_add(c)
}

/// Computes the seed of the generator for pixel `pixel` of frame `frame`.
pub fn pixel_seed(reseed: u64, frame: u32, pixel: u32) -> (r: u64)
    ensures
        r == pixel_seed_spec(reseed, frame, pixel),
{
    let a = affine_exec(reseed, SEED_MUL, frame as u64);
    let b = affine_exec(a, FRAME_MUL, pixel as u64);
    affine_exec(b, LCG_MUL, 0)
}

/// Computes the reseed value that follows `g` after a change of pose.
pub fn next_reseed(g: u64) -> (r: u64)
    ensures
        r == next_reseed_spec(g),
{
    affine_exec(g, LCG_MUL, LCG_INC)
}

/// Given `inv`, an inverse of `a` modulo 2^64, the affine map can be undone.
proof fn lemma_affine_cancel(x: u64, a: u64, c: u64, inv: int, k: int)
    requires
        a * inv == k * modulus() + 1,
    ensures
        ((affine(x, a, c) + (modulus() - c)) * inv) % modulus() == x,
{
    let m = modulus();
    let xa = x * a;
    let s = affine(x, a, c) as int;
    assert(s == (xa + c) % m);
    vstd::arithmetic::div_mod::lemma_add_mod_noop_right(m - c, xa + c, m);
    assert((m - c) + (xa + c) == m * 1 + xa);
    vstd::arithmetic::div_mod::lemma_mod_multiples_vanish(1, xa, m);
    assert((s + (m - c)) % m == xa % m);
    vstd::arithmetic::div_mod::lemma_mul_mod_noop_left(s + (m - c), inv, m);
    vstd::arithmetic::div_mod::lemma_mul_mod_noop_left(xa, inv, m);
    assert(xa * inv == m * (x * k) + x) by (nonlinear_arith)
        requires
            xa == x * a,
            a * inv == k * m + 1,
    ;
    vstd::arithmetic::div_mod::lemma_mod_multiples_vanish(x * k, x as int, m);
    vstd::arithmetic::div_mod::lemma_small_mod(x as nat, m as nat);
}

/// An affine map with an invertible multiplier is one to one.
proof fn lemma_affine_injective(x: u64, y: u64, a: u64, c: u64, inv: int, k: int)
    requires
        a * inv == k * modulus() + 1,
        affine(x, a, c) == affine(y, a, c),
    ensures
        x == y,
{
    lemma_affine_cancel(x, a, c, inv, k);
    lemma_affine_cancel(y, a, c, inv, k);
}

/// One step of the generator is one to one.
proof fn lemma_step_injective(x: u64, y: u64)
    requires
        lcg_step(x) == lcg_step(y),
    ensures
        x == y,
{
    lemma_affine_injective(x, y, LCG_MUL, LCG_INC, 13877824140714322085, 4787856489426250814);
}

/// The reseed value always changes: the step has no fixed point, since
/// `(LCG_MUL - 1) * g` is a multiple of four and `LCG_INC` is not.
pub proof fn lemma_reseed_moves(g: u64)
    ensures
        next_reseed_spec(g) != g,
{
    let m = modulus();
    let u = g * LCG_MUL + LCG_INC;
    vstd::arithmetic::div_mod::lemma_fundamental_div_mod(u, m);
    let q = u / m;
    if next_reseed_spec(g) == g {
        assert(g * (LCG_MUL - 1) + LCG_INC == m * q);
        assert(false);
    }
}

/// Generators built from the same seed give the same draws.
pub proof fn lemma_same_seed_same_draws(seed1: u64, seed2: u64, n: nat)
    requires
        seed1 == seed2,
    ensures
        draws(initial_state(seed1), n) == draws(initial_state(seed2), n),
{
}

/// Generators built from different seeds never pass through the same state:
/// after any number of draws their states still differ.
pub proof fn lemma_distinct_seeds_distinct_states(seed1: u64, seed2: u64, n: nat)
    requires
        seed1 != seed2,
    ensures
        state_after(initial_state(seed1), n) != state_after(initial_state(seed2), n),
    decreases n,
{
    if n == 0 {
        if initial_state(seed1) == initial_state(seed2) {
            lemma_step_injective(
                affine(seed1, SEED_MUL, SEED_INC),
                affine(seed2, SEED_MUL, SEED_INC),
            );
            lemma_affine_injective(
                seed1,
                seed2,
                SEED_MUL,
                SEED_INC,
                17850689345304521573,
                1067858249,
            );
        }
    } else {
        lemma_distinct_seeds_distinct_states(seed1, seed2, (n - 1) as nat);
        if state_after(initial_state(seed1), n) == state_after(initial_state(seed2), n) {
            lemma_step_injective(
                state_after(initial_state(seed1), (n - 1) as nat),
                state_after(initial_state(seed2), (n - 1) as nat),
            );
        }
    }
}

/// Within one reseed value, two different (frame, pixel) pairs get different
/// seeds, as long as the pixel indices stay below `FRAME_MUL`.
pub proof fn lemma_pixel_seeds_distinct(reseed: u64, frame1: u32, pixel1: u32, frame2: u32, pixel2: u32)
    requires
        frame1 != frame2 || pixel1 != pixel2,
        pixel1 < FRAME_MUL,
        pixel2 < FRAME_MUL,
    ensures
        pixel_seed_spec(reseed, frame1, pixel1) != pixel_seed_spec(reseed, frame2, pixel2),
{
    let m = modulus();
    let kk = FRAME_MUL as int;
    let a1 = affine(reseed, SEED_MUL, frame1 as u64);
    let a2 = affine(reseed, SEED_MUL, frame2 as u64);
    let b1 = affine(a1, FRAME_MUL, pixel1 as u64);
    let b2 = affine(a2, FRAME_MUL, pixel2 as u64);
    if pixel_seed_spec(reseed, frame1, pixel1) == pixel_seed_spec(reseed, frame2, pixel2) {
        lemma_affine_injective(b1, b2, LCG_MUL, 0, 13877824140714322085, 4787856489426250814);
        assert(b1 == b2);
        let gs = reseed * SEED_MUL;
        let u1 = (gs + frame1) * kk + pixel1;
        let u2 = (gs + frame2) * kk + pixel2;
        // reduce both sides to the unreduced products
        vstd::arithmetic::div_mod::lemma_mul_mod_noop_left(gs + frame1, kk, m);
        vstd::arithmetic::div_mod::lemma_mul_mod_noop_left(gs + frame2, kk, m);
        vstd::arithmetic::div_mod::lemma_add_mod_noop((gs + frame1) * kk, pixel1 as int, m);
        vstd::arithmetic::div_mod::lemma_add_mod_noop(a1 * kk, pixel1 as int, m);
        vstd::arithmetic::div_mod::lemma_add_mod_noop((gs + frame2) * kk, pixel2 as int, m);
        vstd::arithmetic::div_mod::lemma_add_mod_noop(a2 * kk, pixel2 as int, m);
        assert(u1 % m == u2 % m);
        vstd::arithmetic::div_mod::lemma_mod_equivalence(u1, u2, m);
        let d = (frame1 - frame2) * kk + (pixel1 - pixel2);
        assert(u1 - u2 == d) by (nonlinear_arith)
            requires
                u1 == (gs + frame1) * kk + pixel1,
                u2 == (gs + frame2) * kk + pixel2,
                d == (frame1 - frame2) * kk + (pixel1 - pixel2),
        ;
        assert(-m < d < m) by (nonlinear_arith)
            requires
                d == (frame1 - frame2) * kk + (pixel1 - pixel2),
                kk == 2654435761,
                m == 0x1_0000_0000_0000_0000,
                0 <= frame1 < 0x1_0000_0000,
                0 <= frame2 < 0x1_0000_0000,
                0 <= pixel1 < kk,
                0 <= pixel2 < kk,
        ;
        vstd::arithmetic::div_mod::lemma_fundamental_div_mod(d, m);
        assert(d == 0);
        assert(frame1 == frame2) by (nonlinear_arith)
            requires
                (frame1 - frame2) * kk + (pixel1 - pixel2) == 0,
                kk == 2654435761,
                0 <= pixel1 < kk,
                0 <= pixel2 < kk,
        ;
    }
}

/// The generator's own state, private to one worker.
pub struct FastRng {
    state: u64,
}

impl View for FastRng {
    type V = u64;

    closed spec fn view(&self) -> u64 {
        self.state
    }
}

impl FastRng {
    /// A generator seeded with `seed`.
    pub fn new(seed: u64) -> (r: FastRng)
        ensures
            r@ == initial_state(seed),
    {
        let mixed = affine_exec(seed, SEED_MUL, SEED_INC);
        FastRng { state: affine_exec(mixed, LCG_MUL, LCG_INC) }
    }

    /// Advances the generator by one step and returns the upper 32 bits of
    /// the new state. Dividing by 2^32 gives a uniform value in `[0, 1)`.
    pub fn next_u32(&mut self) -> (r: u32)
        ensures
            final(self)@ == lcg_step(old(self)@),
            r == high_bits(final(self)@),
    {
        self.state = affine_exec(self.state, LCG_MUL, LCG_INC);
        let s = self.state;
        assert((s >> 32u64) < 0x1_0000_0000) by (bit_vector);
        (s >> 32u64) as u32
    }
}

} // verus!
