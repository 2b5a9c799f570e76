//! Simple deterministic PRNG: a 64-bit linear congruential generator.

use vstd::prelude::*;

verus! {

/// Multiplier of the generator (the Knuth / Numerical Recipes constant).
pub const LCG_MULTIPLIER: u64 = 6364136223846793005;

/// Increment of the generator.
pub const LCG_INCREMENT: u64 = 1442695040888963407;

/// The number of distinct 64-bit values; arithmetic of the generator is
/// taken modulo this number.
pub open spec fn word_modulus() -> int {
    0x1_0000_0000_0000_0000
}

/// One step of the generator: `s * MULTIPLIER + INCREMENT (mod 2^64)`.
pub open spec fn lcg_step(s: u64) -> u64 {
    ((s as int * LCG_MULTIPLIER as int + LCG_INCREMENT as int) % word_modulus()) as u64
}

/// The state a generator starts from for a given seed: a zero seed is
/// replaced by one.
pub open spec fn seed_state(seed: u64) -> u64 {
    if seed == 0 {
        1
    } else {
        seed
    }
}

/// The state of a generator made from `seed` after `n` draws.
pub open spec fn state_after(seed: u64, n: nat) -> u64
    decreases n,
{
    if n == 0 {
        seed_state(seed)
    } else {
        lcg_step(state_after(seed, (n - 1) as nat))
    }
}

/// A simple Linear Congruential Generator for reproducible randomness.
pub struct SimpleRng {
    state: u64,
}

impl View for SimpleRng {
    type V = u64;

    /// The generator's internal state.
    closed spec fn view(&self) -> u64 {
        self.state
    }
}

impl Clone for SimpleRng {
    /// A copy is in the same state, so it draws the same stream.
    fn clone(&self) -> (r: Self)
        ensures
            r@ == self@,
    {
        SimpleRng { state: self.state }
    }
}

impl SimpleRng {
    /// Creates a generator from `seed`; a zero seed is replaced by one.
    pub fn new(seed: u64) -> (r: Self)
        ensures
            r@ == seed_state(seed),
            seed != 0 ==> r@ == seed,
            seed == 0 ==> r@ == 1,
            r@ != 0,
    {
        Self { state: if seed == 0 { 1 } else { seed } }
    }

    /// Advances the generator and returns its new state.
    pub fn next_u64(&mut self) -> (r: u64)
        ensures
            final(self)@ == lcg_step(old(self)@),
            r == final(self)@,
            r as int == (old(self)@ as int * 6364136223846793005 + 1442695040888963407)
                % 0x1_0000_0000_0000_0000,
    {
        let product = self.state.wrapping_mul(LCG_MULTIPLIER);
        let next = product.wrapping_add(LCG_INCREMENT);
        proof {
            lemma_wrapping_step(self.state, product, next);
        }
        self.state = next;
        next
    }

    /// Advances the generator and returns the top 53 bits of the new state.
    /// Divided by `2^53` this is a uniform draw in `[0, 1)`.
    pub fn gen_fraction_bits(&mut self) -> (r: u64)
        ensures
            final(self)@ == lcg_step(old(self)@),
            r == lcg_step(old(self)@) / 2048,
            r as int == ((old(self)@ as int * 6364136223846793005 + 1442695040888963407)
                % 0x1_0000_0000_0000_0000) / 2048,
            r < 0x20_0000_0000_0000,
    {
        let x = self.next_u64();
        assert(x >> 11u64 == x / 2048 && x / 2048 < 0x20_0000_0000_0000u64) by (bit_vector);
        x >> 11
    }

    /// Advances the generator and returns the lowest bit of the new state.
    pub fn gen_bool(&mut self) -> (r: bool)
        ensures
            final(self)@ == lcg_step(old(self)@),
            r == (lcg_step(old(self)@) % 2 == 1),
            r == ((old(self)@ as int * 6364136223846793005 + 1442695040888963407)
                % 0x1_0000_0000_0000_0000 % 2 == 1),
    {
        let x = self.next_u64();
        assert(x & 1u64 == x % 2) by (bit_vector);
        x & 1 == 1
    }
}

/// The wrapping multiply and add that `next_u64` performs compute `lcg_step`.
proof fn lemma_wrapping_step(s: u64, product: u64, next: u64)
    requires
        product == vstd::wrapping::u64_specs::wrapping_mul(s, LCG_MULTIPLIER),
        next == vstd::wrapping::u64_specs::wrapping_add(product, LCG_INCREMENT),
    ensures
        next == lcg_step(s),
{
    let m = word_modulus();
    let x = s as int * LCG_MULTIPLIER as int;
    assert(product as int == x % m);
    let y = product as int + LCG_INCREMENT as int;
    vstd::arithmetic::div_mod::lemma_add_mod_noop_right(LCG_INCREMENT as int, x, m);
    assert(y % m == (x + LCG_INCREMENT as int) % m);
    if y > u64::MAX {
        vstd::arithmetic::div_mod::lemma_mod_add_multiples_vanish(y - m, m);
        vstd::arithmetic::div_mod::lemma_small_mod((y - m) as nat, m as nat);
    } else {
        vstd::arithmetic::div_mod::lemma_small_mod(y as nat, m as nat);
    }
}

/// Every step of the generator flips the lowest bit of its state: the
/// multiplier and the increment are both odd.
pub proof fn lemma_step_flips_low_bit(s: u64)
    ensures
        lcg_step(s) % 2 != s % 2,
{
    let m = word_modulus();
    let x = s as int * LCG_MULTIPLIER as int + LCG_INCREMENT as int;
    // x == s + 1 + 2 * (s * (MULTIPLIER - 1) / 2 + (INCREMENT - 1) / 2)
    let k = s as int * 3182068111923396502int + 721347520444481703int;
    assert(x == s as int + 1 + 2 * k);
    vstd::arithmetic::div_mod::lemma_mod_mod(x, 2, 0x8000_0000_0000_0000int);
    assert(m == 2 * 0x8000_0000_0000_0000int);
    vstd::arithmetic::div_mod::lemma_mod_multiples_vanish(k, s as int + 1, 2);
}

/// A generator never stays in the same state from one draw to the next.
pub proof fn lemma_step_changes_state(s: u64)
    ensures
        lcg_step(s) != s,
{
    lemma_step_flips_low_bit(s);
}

/// A generator starts in the state given by its seed, except that a zero
/// seed starts in state one.
pub proof fn lemma_seed_is_start_state(seed: u64)
    ensures
        seed != 0 ==> state_after(seed, 0) == seed,
        state_after(0, 0) == 1,
{
}

/// The first draw of a generator made from a nonzero seed `s` is
/// `s * 6364136223846793005 + 1442695040888963407 (mod 2^64)`.
pub proof fn lemma_first_draw(seed: u64)
    requires
        seed != 0,
    ensures
        state_after(seed, 1) as int == (seed as int * 6364136223846793005
            + 1442695040888963407) % 0x1_0000_0000_0000_0000,
{
    assert(state_after(seed, 0) == seed);
    assert(state_after(seed, 1) == lcg_step(seed));
}

/// Distinct states always step to distinct states: the generator is a
/// permutation of the 64-bit values (the multiplier is odd, hence invertible
/// modulo 2^64).
pub proof fn lemma_step_injective(s: u64, t: u64)
    requires
        lcg_step(s) == lcg_step(t),
    ensures
        s == t,
{
    let m = word_modulus();
    let a = LCG_MULTIPLIER as int;
    let inv = 13877824140714322085int;
    let k = 4787856489426250814int;
    assert(a * inv == 1 + k * m);
    let x = s as int * a + LCG_INCREMENT as int;
    let y = t as int * a + LCG_INCREMENT as int;
    assert(x % m == y % m);
    vstd::arithmetic::div_mod::lemma_fundamental_div_mod(x, m);
    vstd::arithmetic::div_mod::lemma_fundamental_div_mod(y, m);
    let q = x / m - y / m;
    let d = s as int - t as int;
    assert(d * a == m * q) by (nonlinear_arith)
        requires
            x == m * (x / m) + x % m,
            y == m * (y / m) + y % m,
            x % m == y % m,
            x == s as int * a + LCG_INCREMENT as int,
            y == t as int * a + LCG_INCREMENT as int,
            d == s as int - t as int,
            q == x / m - y / m,
    ;
    let j = q * inv - d * k;
    assert(d == m * j) by (nonlinear_arith)
        requires
            d * a == m * q,
            a * inv == 1 + k * m,
            j == q * inv - d * k,
    ;
    assert(d == 0) by (nonlinear_arith)
        requires
            d == m * j,
            m == 0x1_0000_0000_0000_0000int,
            -m < d < m,
    ;
}

/// Generators made from two distinct nonzero seeds are never in the same
/// state after the same number of draws, so their streams differ at every
/// position.
pub proof fn lemma_distinct_seeds_distinct_streams(a: u64, b: u64, n: nat)
    requires
        a != 0,
        b != 0,
        a != b,
    ensures
        state_after(a, n) != state_after(b, n),
    decreases n,
{
    if n > 0 {
        lemma_distinct_seeds_distinct_streams(a, b, (n - 1) as nat);
        if state_after(a, n) == state_after(b, n) {
            lemma_step_injective(state_after(a, (n - 1) as nat), state_after(b, (n - 1) as nat));
        }
    }
}

/// A generator seeded with zero draws exactly the same stream as one seeded
/// with one.
pub proof fn lemma_seed_zero_same_as_one(n: nat)
    ensures
        state_after(0, n) == state_after(1, n),
    decreases n,
{
    if n > 0 {
        lemma_seed_zero_same_as_one((n - 1) as nat);
    }
}

/// Two consecutive `gen_bool` draws always differ.
pub proof fn lemma_gen_bool_alternates(s: u64)
    ensures
        (lcg_step(s) % 2 == 1) != (lcg_step(lcg_step(s)) % 2 == 1),
{
    lemma_step_flips_low_bit(lcg_step(s));
}

} // verus!
