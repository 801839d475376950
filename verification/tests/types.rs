use rust_options::rng::Xorshift64;
use rust_options::types::{ExerciseStyle, MonteCarloConfig, OptionType, DEFAULT_SEED};

#[test]
fn monte_carlo_default_config() {
    let c = MonteCarloConfig::default();
    assert_eq!(c.num_paths, 100_000);
    assert_eq!(c.num_steps, 252);
    assert_eq!(c.seed, None);
}

#[test]
fn effective_seed_falls_back_to_default() {
    let c = MonteCarloConfig::default();
    assert_eq!(c.effective_seed(), 12345);
    assert_eq!(DEFAULT_SEED, 12345);
    let c = MonteCarloConfig { num_paths: 10, num_steps: 1, seed: Some(777) };
    assert_eq!(c.effective_seed(), 777);
    let c = MonteCarloConfig { num_paths: 10, num_steps: 1, seed: Some(0) };
    assert_eq!(c.effective_seed(), 0);
}

#[test]
fn num_pairs_is_half_the_paths() {
    let mut c = MonteCarloConfig::default();
    assert_eq!(c.num_pairs(), 50_000);
    c.num_paths = 7;
    assert_eq!(c.num_pairs(), 3);
    c.num_paths = 1;
    assert_eq!(c.num_pairs(), 0);
    c.num_paths = 0;
    assert_eq!(c.num_pairs(), 0);
}

#[test]
fn pair_generators_are_seed_plus_index() {
    let c = MonteCarloConfig { num_paths: 200_000, num_steps: 252, seed: Some(42) };
    let mut g = c.pair_generator(5);
    let mut expected = Xorshift64::new(47);
    assert_eq!(g.next_u64(), expected.next_u64());

    let d = MonteCarloConfig::default();
    let mut g = d.pair_generator(3);
    assert_eq!(g.next_u64(), 13294948826972);
}

#[test]
fn pair_generators_reproducible() {
    let c = MonteCarloConfig { num_paths: 10_000, num_steps: 252, seed: Some(777) };
    for pair in 0..100u64 {
        let mut a = c.pair_generator(pair);
        let mut b = c.pair_generator(pair);
        for _ in 0..10 {
            assert_eq!(a.next_u64(), b.next_u64());
        }
    }
}

#[test]
fn zero_seed_pair_zero_draws_like_seed_one() {
    let c = MonteCarloConfig { num_paths: 2, num_steps: 1, seed: Some(0) };
    let mut g = c.pair_generator(0);
    assert_eq!(g.next_u64(), 1082269761);
}

#[test]
fn enums_compare() {
    assert_eq!(OptionType::Call, OptionType::Call);
    assert_ne!(OptionType::Call, OptionType::Put);
    assert_eq!(ExerciseStyle::American, ExerciseStyle::American);
    assert_ne!(ExerciseStyle::European, ExerciseStyle::American);
}

#[test]
fn distinct_pairs_draw_distinct_streams() {
    let c = MonteCarloConfig { num_paths: 20, num_steps: 1, seed: Some(42) };
    let mut a = c.pair_generator(0);
    let mut b = c.pair_generator(1);
    for _ in 0..1000 {
        assert_ne!(a.next_u64(), b.next_u64());
    }
}

#[test]
fn zero_seed_first_two_pairs_share_a_stream() {
    let c = MonteCarloConfig { num_paths: 4, num_steps: 1, seed: Some(0) };
    let mut a = c.pair_generator(0);
    let mut b = c.pair_generator(1);
    for _ in 0..100 {
        assert_eq!(a.next_u64(), b.next_u64());
    }
}
