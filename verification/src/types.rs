//! Plain data types shared by the pricers.
use vstd::prelude::*;

use crate::rng::{initial_state, lemma_distinct_seeds_never_meet, state_after, Xorshift64};

verus! {

/// Call or put.
#[derive(Debug, Clone, Copy, PartialEq, Eq, Structural)]
pub enum OptionType {
    Call,
    Put,
}

/// When the holder may exercise: only at expiry, or at any time before.
#[derive(Debug, Clone, Copy, PartialEq, Eq, Structural)]
pub enum ExerciseStyle {
    European,
    American,
}

/// Settings of a Monte Carlo run.
#[derive(Debug, Clone, Copy)]
pub struct MonteCarloConfig {
    pub num_paths: usize,
    pub num_steps: usize,
    pub seed: Option<u64>,
}

/// The seed a run starts from when none is configured.
pub const DEFAULT_SEED: u64 = 12345;

/// The seed a run actually uses: the configured one, else `DEFAULT_SEED`.
pub open spec fn effective_seed_of(config: MonteCarloConfig) -> u64 {
    match config.seed {
        Some(s) => s,
        None => DEFAULT_SEED,
    }
}

impl Default for MonteCarloConfig {
    /// 100 000 paths, 252 steps (one per trading day), no fixed seed.
    fn default() -> (r: Self)
        ensures
            r.num_paths == 100_000,
            r.num_steps == 252,
            r.seed is None,
    {
        MonteCarloConfig { num_paths: 100_000, num_steps: 252, seed: None }
    }
}

impl MonteCarloConfig {
    /// The seed of the run: the configured one, or `DEFAULT_SEED`.
    pub fn effective_seed(&self) -> (s: u64)
        ensures
            s == effective_seed_of(*self),
            self.seed matches Some(given) ==> s == given,
            self.seed is None ==> s == DEFAULT_SEED,
    {
        match self.seed {
            Some(s) => s,
            None => DEFAULT_SEED,
        }
    }

    /// The number of antithetic pairs simulated: half the paths, rounded down.
    pub fn num_pairs(&self) -> (n: usize)
        ensures
            n == self.num_paths / 2,
            2 * n <= self.num_paths < 2 * n + 2,
    {
        self.num_paths / 2
    }

    /// The generator of antithetic pair `pair`: seeded with the run's seed
    /// plus the pair's index, so that every pair has a stream of its own
    /// and a run with a fixed seed is reproducible whatever order the pairs
    /// are simulated in.
    pub fn pair_generator(&self, pair: u64) -> (g: Xorshift64)
        requires
            effective_seed_of(*self) + pair <= u64::MAX,
        ensures
            g@ == initial_state((effective_seed_of(*self) + pair) as u64),
            self.seed matches Some(given) ==> g@ == initial_state((given + pair) as u64),
    {
        let seed = self.effective_seed();
        Xorshift64::new(seed + pair)
    }
}

/// A configured seed is used as it is, whatever its value; only a run
/// without one falls back to `DEFAULT_SEED`. So two runs with different
/// configured seeds start pair 0 from different seeds.
pub proof fn lemma_configured_seed_is_used(config: MonteCarloConfig)
    ensures
        config.seed matches Some(s) ==> effective_seed_of(config) == s,
        config.seed is None ==> effective_seed_of(config) == 12345,
{
}

/// Two configurations with different configured seeds seed every pair
/// differently.
pub proof fn lemma_different_seeds_different_runs(a: MonteCarloConfig, b: MonteCarloConfig, pair: u64)
    requires
        a.seed is Some,
        b.seed is Some,
        a.seed != b.seed,
    ensures
        effective_seed_of(a) + pair != effective_seed_of(b) + pair,
{
}

/// Two different antithetic pairs of one run draw from streams that never
/// meet, unless the run's seed is zero and the pairs are the first two (a
/// zero seed is replaced by one, so pair 0 then starts where pair 1 does).
pub proof fn lemma_pair_streams_never_meet(config: MonteCarloConfig, p1: u64, p2: u64, n: nat)
    requires
        effective_seed_of(config) + p1 <= u64::MAX,
        effective_seed_of(config) + p2 <= u64::MAX,
        p1 != p2,
        !(effective_seed_of(config) == 0 && p1 + p2 == 1),
    ensures
        state_after((effective_seed_of(config) + p1) as u64, n) != state_after(
            (effective_seed_of(config) + p2) as u64,
            n,
        ),
{
    lemma_distinct_seeds_never_meet(
        (effective_seed_of(config) + p1) as u64,
        (effective_seed_of(config) + p2) as u64,
        n,
    );
}

} // verus!
