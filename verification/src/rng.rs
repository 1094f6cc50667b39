//! A small deterministic PRNG (xorshift64*) so simulated equipment behaviour
//! is reproducible from a seed.

use vstd::arithmetic::div_mod::{lemma_mod_multiples_vanish, lemma_mul_mod_noop_left, lemma_small_mod};
use vstd::prelude::*;

verus! {

/// State substituted for a zero seed (xorshift never leaves the all-zero state).
pub const ZERO_SEED_STATE: u64 = 0x9E37_79B9_7F4A_7C15;

/// FNV-1a 64-bit offset basis.
pub const FNV_OFFSET_BASIS: u64 = 0xCBF2_9CE4_8422_2325;

/// FNV-1a 64-bit prime.
pub const FNV_PRIME: u64 = 0x0000_0100_0000_01B3;

/// xorshift64* output multiplier.
pub const XORSHIFT_STAR_MULT: u64 = 0x2545_F491_4F6C_DD1D;

/// The inverse of [`XORSHIFT_STAR_MULT`] modulo 2^64 (the multiplier is
/// odd, so it has one): multiplying an output by it gives the state back.
pub const XORSHIFT_STAR_INVERSE: u64 = 0x5907_1D96_D81E_CD35;

/// Seeded xorshift64* generator. Besides its state it records, as ghost
/// values, the seed it was built from and how many values it has given.
pub struct Rng {
    state: u64,
    seed: Ghost<u64>,
    calls: Ghost<nat>,
}

/// The state a seed maps to.
pub open spec fn seed_state(seed: u64) -> u64 {
    if seed == 0 { ZERO_SEED_STATE } else { seed }
}

/// One xorshift step on the state.
pub open spec fn xorshift_step(s: u64) -> u64 {
    let a = s ^ (s >> 12u64);
    let b = a ^ (a << 25u64);
    b ^ (b >> 27u64)
}

/// The value emitted after stepping into state `s`.
pub open spec fn xorshift_output(s: u64) -> u64 {
    s.wrapping_mul(XORSHIFT_STAR_MULT)
}

/// FNV-1a folding of a sequence of 64-bit parts (each part xored in whole).
pub open spec fn fnv_fold(parts: Seq<u64>) -> u64
    decreases parts.len(),
{
    if parts.len() == 0 {
        FNV_OFFSET_BASIS
    } else {
        (fnv_fold(parts.drop_last()) ^ parts.last()).wrapping_mul(FNV_PRIME)
    }
}

/// A seed never yields the all-zero state, and a step from a nonzero state
/// never reaches it: the generator never gets stuck emitting zeros.
pub proof fn lemma_state_never_zero(seed: u64, s: u64)
    ensures
        seed_state(seed) != 0,
        s != 0 ==> xorshift_step(s) != 0,
{
    assert(s != 0 ==> xorshift_step(s) != 0) by (bit_vector);
}

/// The state after `k` calls of `next_u64` on a generator seeded with `seed`.
pub open spec fn state_after(seed: u64, k: nat) -> u64
    decreases k,
{
    if k == 0 { seed_state(seed) } else { xorshift_step(state_after(seed, (k - 1) as nat)) }
}

/// Multiplying an output by the inverse multiplier, modulo 2^64, gives the
/// state it came from.
proof fn lemma_output_inverse(s: u64)
    ensures
        (xorshift_output(s) as int * XORSHIFT_STAR_INVERSE as int) % 0x1_0000_0000_0000_0000int == s as int,
{
    let n: int = 0x1_0000_0000_0000_0000int;
    let m: int = XORSHIFT_STAR_MULT as int;
    let i: int = XORSHIFT_STAR_INVERSE as int;
    let k: int = 934034299265436267int;
    let x: int = s as int;
    assert(m * i == 1 + k * n) by (nonlinear_arith)
        requires
            m == 0x2545_F491_4F6C_DD1Dint,
            i == 0x5907_1D96_D81E_CD35int,
            k == 934034299265436267int,
            n == 0x1_0000_0000_0000_0000int,
    ;
    let p: int = x * m;
    assert(xorshift_output(s) as int == p % n);
    lemma_mul_mod_noop_left(p, i, n);
    assert(p * i == x * (m * i)) by (nonlinear_arith)
        requires
            p == x * m,
    ;
    assert(x * (1 + k * n) == n * (x * k) + x) by (nonlinear_arith);
    lemma_mod_multiples_vanish(x * k, x, n);
    lemma_small_mod(s as nat, n as nat);
}

/// Distinct states give distinct outputs.
proof fn lemma_output_injective(a: u64, b: u64)
    ensures
        xorshift_output(a) == xorshift_output(b) ==> a == b,
{
    lemma_output_inverse(a);
    lemma_output_inverse(b);
}

/// Distinct states step to distinct states.
proof fn lemma_step_injective(a: u64, b: u64)
    ensures
        xorshift_step(a) == xorshift_step(b) ==> a == b,
{
    let a1 = a ^ (a >> 12u64);
    let b1 = b ^ (b >> 12u64);
    let a2 = a1 ^ (a1 << 25u64);
    let b2 = b1 ^ (b1 << 25u64);
    assert(a2 ^ (a2 >> 27u64) == b2 ^ (b2 >> 27u64) ==> a2 == b2) by (bit_vector);
    assert(a1 ^ (a1 << 25u64) == b1 ^ (b1 << 25u64) ==> a1 == b1) by (bit_vector);
    assert(a ^ (a >> 12u64) == b ^ (b >> 12u64) ==> a == b) by (bit_vector);
}

/// The value the `k`-th call of `next_u64` (counting from 0) returns on a
/// generator seeded with `seed`.
pub open spec fn nth_value(seed: u64, k: nat) -> u64 {
    xorshift_output(state_after(seed, k + 1))
}

/// A generator never returns 0: whatever its seed, after any number of
/// calls its state is nonzero and the next call's value is nonzero.
pub proof fn lemma_next_never_zero(seed: u64, k: nat)
    ensures
        state_after(seed, k) != 0,
        nth_value(seed, k) != 0,
    decreases k,
{
    if k == 0 {
        lemma_state_never_zero(seed, 0);
    } else {
        lemma_next_never_zero(seed, (k - 1) as nat);
        lemma_state_never_zero(seed, state_after(seed, (k - 1) as nat));
    }
    let s = xorshift_step(state_after(seed, k));
    lemma_state_never_zero(seed, state_after(seed, k));
    lemma_output_inverse(s);
}

/// Generators whose seeds map to the same state (equal seeds, or a zero
/// seed and its substitute) pass through the same states and give the same
/// value on every call.
pub proof fn lemma_same_start_same_values(a: u64, b: u64, k: nat)
    requires
        seed_state(a) == seed_state(b),
    ensures
        state_after(a, k) == state_after(b, k),
        nth_value(a, k) == nth_value(b, k),
    decreases k,
{
    if k > 0 {
        lemma_same_start_same_values(a, b, (k - 1) as nat);
    }
}

/// Distinct nonzero seeds give distinct first values.
pub proof fn lemma_distinct_seeds_diverge(a: u64, b: u64)
    requires
        a != 0,
        b != 0,
        a != b,
    ensures
        nth_value(a, 0) != nth_value(b, 0),
{
    assert(state_after(a, 1) == xorshift_step(state_after(a, 0)));
    assert(state_after(b, 1) == xorshift_step(state_after(b, 0)));
    lemma_step_injective(a, b);
    lemma_output_injective(xorshift_step(a), xorshift_step(b));
}

impl Rng {
    /// The generator's current state.
    pub closed spec fn state(&self) -> u64 {
        self.state
    }

    /// The seed the generator was built from.
    pub closed spec fn seed(&self) -> u64 {
        self.seed@
    }

    /// How many values the generator has given.
    pub closed spec fn calls(&self) -> nat {
        self.calls@
    }

    /// The state is the one its seed reaches after its calls.
    #[verifier::type_invariant]
    closed spec fn follows_seed(&self) -> bool {
        self.state == state_after(self.seed@, self.calls@)
    }

    /// Seed the generator. A zero seed is remapped to a nonzero state.
    pub fn new(seed: u64) -> (r: Rng)
        ensures
            r.state() == seed_state(seed),
            r.seed() == seed,
            r.calls() == 0,
    {
        Rng { state: if seed == 0 { ZERO_SEED_STATE } else { seed }, seed: Ghost(seed), calls: Ghost(0nat) }
    }

    /// Seed derived from mixed integer parts so each die's simulation is
    /// independent but stable.
    pub fn from_parts(parts: &[u64]) -> (r: Rng)
        ensures
            r.state() == seed_state(fnv_fold(parts@)),
            r.seed() == fnv_fold(parts@),
            r.calls() == 0,
    {
        let mut h: u64 = FNV_OFFSET_BASIS;
        let mut i: usize = 0;
        while i < parts.len()
            invariant
                i <= parts@.len(),
                h == fnv_fold(parts@.subrange(0, i as int)),
            decreases parts@.len() - i,
        {
            assert(parts@.subrange(0, i as int + 1).drop_last() =~= parts@.subrange(0, i as int));
            h = h ^ parts[i];
            h = h.wrapping_mul(FNV_PRIME);
            i = i + 1;
        }
        assert(parts@.subrange(0, parts@.len() as int) =~= parts@);
        Rng::new(h)
    }

    /// Next raw 64-bit value: the `calls()`-th value of the generator's
    /// seed.
    pub fn next_u64(&mut self) -> (v: u64)
        ensures
            final(self).state() == xorshift_step(old(self).state()),
            v == xorshift_output(xorshift_step(old(self).state())),
            final(self).seed() == old(self).seed(),
            final(self).calls() == old(self).calls() + 1,
            v == nth_value(old(self).seed(), old(self).calls()),
    {
        proof {
            use_type_invariant(&*self);
        }
        let mut x = self.state;
        x = x ^ (x >> 12u64);
        x = x ^ (x << 25u64);
        x = x ^ (x >> 27u64);
        let ghost seed = self.seed@;
        let ghost calls = self.calls@ + 1;
        *self = Rng { state: x, seed: Ghost(seed), calls: Ghost(calls) };
        x.wrapping_mul(XORSHIFT_STAR_MULT)
    }
}

} // verus!
