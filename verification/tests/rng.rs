use tpt_ate::rng::Rng;

#[test]
fn deterministic_from_seed() {
    let mut a = Rng::new(42);
    let mut b = Rng::new(42);
    for _ in 0..100 {
        assert_eq!(a.next_u64(), b.next_u64());
    }
}

#[test]
fn different_seeds_diverge() {
    let mut a = Rng::new(1);
    let mut b = Rng::new(2);
    assert_ne!(a.next_u64(), b.next_u64());
}

#[test]
fn zero_seed_is_valid() {
    let mut rng = Rng::new(0);
    // Must not get stuck at zero.
    assert_ne!(rng.next_u64(), 0);
}

#[test]
fn deterministic_from_parts() {
    let mut a = Rng::from_parts(&[7, 100, 200]);
    let mut b = Rng::from_parts(&[7, 100, 200]);
    assert_eq!(a.next_u64(), b.next_u64());
    let mut c = Rng::from_parts(&[7, 100, 201]);
    assert_ne!(Rng::from_parts(&[7, 100, 200]).next_u64(), c.next_u64());
}

#[test]
fn first_output_of_seed_one() {
    // xorshift64*: state 1 steps to 0x2000001 ^ (0x2000001 >> 27) = 0x2000001,
    // then the output multiplier.
    let mut rng = Rng::new(1);
    let x: u64 = 1 ^ (1 << 25);
    let expected = x.wrapping_mul(0x2545_F491_4F6C_DD1D);
    assert_eq!(rng.next_u64(), expected);
}

#[test]
fn output_times_inverse_recovers_state() {
    // The output of seed 1's first call, times the inverse multiplier,
    // gives back the stepped state 1 ^ (1 << 25).
    let mut rng = Rng::new(1);
    let v = rng.next_u64();
    assert_eq!(v.wrapping_mul(0x5907_1D96_D81E_CD35), 1 ^ (1 << 25));
}

#[test]
fn many_calls_never_return_zero() {
    for seed in [0u64, 1, 2, u64::MAX, 0x9E37_79B9_7F4A_7C15] {
        let mut rng = Rng::new(seed);
        for _ in 0..1000 {
            assert_ne!(rng.next_u64(), 0);
        }
    }
}

#[test]
fn small_nonzero_seeds_all_diverge() {
    let firsts: Vec<u64> = (1u64..=64).map(|s| Rng::new(s).next_u64()).collect();
    for i in 0..firsts.len() {
        for j in (i + 1)..firsts.len() {
            assert_ne!(firsts[i], firsts[j]);
        }
    }
}

#[test]
fn zero_seed_runs_like_its_substitute() {
    let mut a = Rng::new(0);
    let mut b = Rng::new(0x9E37_79B9_7F4A_7C15);
    for _ in 0..100 {
        assert_eq!(a.next_u64(), b.next_u64());
    }
}
