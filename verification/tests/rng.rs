use rust_options::rng::Xorshift64;

// Same seed should always produce the same sequence — reproducibility.
#[test]
fn deterministic() {
    let mut a = Xorshift64::new(42);
    let mut b = Xorshift64::new(42);
    for _ in 0..100 {
        assert_eq!(a.next_u64(), b.next_u64());
    }
}

// Zero seed should not panic or produce all zeros.
#[test]
fn zero_seed_handled() {
    let mut rng = Xorshift64::new(0);
    assert!(rng.next_u64() != 0);
}

#[test]
fn first_draws_from_seed_one() {
    let mut rng = Xorshift64::new(1);
    assert_eq!(rng.next_u64(), 1082269761);
    assert_eq!(rng.next_u64(), 1152992998833853505);
    assert_eq!(rng.next_u64(), 11177516664432764457);
}

#[test]
fn first_draw_from_seed_42() {
    let mut rng = Xorshift64::new(42);
    assert_eq!(rng.next_u64(), 45454805674);
}

#[test]
fn zero_seed_draws_like_seed_one() {
    let mut zero = Xorshift64::new(0);
    let mut one = Xorshift64::new(1);
    for _ in 0..1000 {
        assert_eq!(zero.next_u64(), one.next_u64());
    }
}

#[test]
fn never_draws_zero() {
    for seed in [0u64, 1, 2, 42, 12345, u64::MAX, 1 << 63] {
        let mut rng = Xorshift64::new(seed);
        for _ in 0..10_000 {
            assert_ne!(rng.next_u64(), 0);
        }
    }
}

#[test]
fn distinct_seeds_never_meet() {
    let mut a = Xorshift64::new(7);
    let mut b = Xorshift64::new(8);
    for _ in 0..10_000 {
        assert_ne!(a.next_u64(), b.next_u64());
    }
}

#[test]
fn largest_seed_is_kept() {
    let mut a = Xorshift64::new(u64::MAX);
    let x = u64::MAX;
    let x = x ^ (x << 13);
    let x = x ^ (x >> 7);
    let x = x ^ (x << 17);
    assert_eq!(a.next_u64(), x);
}
