//! xorshift64: a fast pseudo-random generator whose whole state is one
//! 64-bit word, advanced by three shift-and-xor operations.
use vstd::prelude::*;

verus! {

/// First stage of a step: `x ^ (x << 13)`.
pub open spec fn mix_left13(x: u64) -> u64 {
    x ^ (x << 13u64)
}

/// Second stage of a step: `x ^ (x >> 7)`.
pub open spec fn mix_right7(x: u64) -> u64 {
    x ^ (x >> 7u64)
}

/// Third stage of a step: `x ^ (x << 17)`.
pub open spec fn mix_left17(x: u64) -> u64 {
    x ^ (x << 17u64)
}

/// One xorshift64 step: the state that follows `x`, which is also the
/// value the generator hands out.
pub open spec fn xorshift_step(x: u64) -> u64 {
    mix_left17(mix_right7(mix_left13(x)))
}

/// The state a generator starts from for a given seed: a zero seed would
/// keep the generator at zero forever, so it is replaced by one.
pub open spec fn initial_state(seed: u64) -> u64 {
    if seed == 0 {
        1
    } else {
        seed
    }
}

/// The state after `n` draws from a generator seeded with `seed`.
pub open spec fn state_after(seed: u64, n: nat) -> u64
    decreases n,
{
    if n == 0 {
        initial_state(seed)
    } else {
        xorshift_step(state_after(seed, (n - 1) as nat))
    }
}

/// The first `n` values drawn from a generator seeded with `seed`.
pub open spec fn drawn(seed: u64, n: nat) -> Seq<u64> {
    Seq::new(n, |i: int| state_after(seed, (i + 1) as nat))
}

/// A xorshift64 generator. Its state is never zero.
pub struct Xorshift64 {
    state: u64,
}

impl View for Xorshift64 {
    type V = u64;

    /// The generator's current state.
    closed spec fn view(&self) -> u64 {
        self.state
    }
}

impl Xorshift64 {
    #[verifier::type_invariant]
    closed spec fn state_is_nonzero(self) -> bool {
        self.state != 0
    }

    /// A new generator for `seed`; a zero seed is replaced by one.
    pub fn new(seed: u64) -> (g: Self)
        ensures
            g@ == initial_state(seed),
            g@ != 0,
    {
        Xorshift64 { state: if seed == 0 { 1 } else { seed } }
    }

    /// Advances the state by one xorshift step and returns the new state.
    pub fn next_u64(&mut self) -> (r: u64)
        ensures
            r == xorshift_step(old(self)@),
            final(self)@ == r,
            r != 0,
    {
        proof {
            use_type_invariant(&*self);
            lemma_step_nonzero(self.state);
        }
        let mut x = self.state;
        x ^= x << 13;
        x ^= x >> 7;
        x ^= x << 17;
        self.state = x;
        x
    }
}

/// A nonzero state never steps to zero.
pub proof fn lemma_step_nonzero(x: u64)
    requires
        x != 0,
    ensures
        xorshift_step(x) != 0,
{
    assert(x != 0 ==> x ^ (x << 13u64) != 0) by (bit_vector);
    let a = mix_left13(x);
    assert(a != 0 ==> a ^ (a >> 7u64) != 0) by (bit_vector);
    let b = mix_right7(a);
    assert(b != 0 ==> b ^ (b << 17u64) != 0) by (bit_vector);
}

/// A step never merges two states: distinct states step to distinct states.
pub proof fn lemma_step_injective(x: u64, y: u64)
    requires
        xorshift_step(x) == xorshift_step(y),
    ensures
        x == y,
{
    let (bx, by) = (mix_right7(mix_left13(x)), mix_right7(mix_left13(y)));
    assert(bx ^ (bx << 17u64) == by ^ (by << 17u64) ==> bx == by) by (bit_vector);
    let (ax, ay) = (mix_left13(x), mix_left13(y));
    assert(ax ^ (ax >> 7u64) == ay ^ (ay >> 7u64) ==> ax == ay) by (bit_vector);
    assert(x ^ (x << 13u64) == y ^ (y << 13u64) ==> x == y) by (bit_vector);
}

/// However many values have been drawn, the state is never zero, so the
/// generator never gets stuck handing out zeros.
pub proof fn lemma_state_never_zero(seed: u64, n: nat)
    ensures
        state_after(seed, n) != 0,
    decreases n,
{
    if n > 0 {
        lemma_state_never_zero(seed, (n - 1) as nat);
        lemma_step_nonzero(state_after(seed, (n - 1) as nat));
    }
}

/// Generators with the same seed draw the same values, in the same order.
pub proof fn lemma_same_seed_same_draws(seed1: u64, seed2: u64, n: nat)
    requires
        seed1 == seed2,
    ensures
        drawn(seed1, n) == drawn(seed2, n),
{
}

/// A zero seed behaves exactly as the seed one.
pub proof fn lemma_zero_seed_is_seed_one(n: nat)
    ensures
        drawn(0, n) == drawn(1, n),
{
    assert forall|k: nat| state_after(0, k) == state_after(1, k) by {
        lemma_zero_and_one_agree(k);
    }
    assert(drawn(0, n) =~= drawn(1, n));
}

proof fn lemma_zero_and_one_agree(k: nat)
    ensures
        state_after(0, k) == state_after(1, k),
    decreases k,
{
    if k > 0 {
        lemma_zero_and_one_agree((k - 1) as nat);
    }
}

/// Seeds that start from different states never meet: at every draw their
/// states differ, and so do the values they hand out.
pub proof fn lemma_distinct_seeds_never_meet(seed1: u64, seed2: u64, n: nat)
    requires
        initial_state(seed1) != initial_state(seed2),
    ensures
        state_after(seed1, n) != state_after(seed2, n),
    decreases n,
{
    if n > 0 {
        lemma_distinct_seeds_never_meet(seed1, seed2, (n - 1) as nat);
        if state_after(seed1, n) == state_after(seed2, n) {
            lemma_step_injective(state_after(seed1, (n - 1) as nat), state_after(seed2, (n - 1) as nat));
        }
    }
}

} // verus!
