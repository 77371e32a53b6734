use rand_core::RngCore;

use ant_sim::Prng;

#[test]
fn prng_matches_reference_stream() {
    let mut ours = Prng::new(0xcafef00dd15ea5e5, 0xa02bdbf7bb3c0a7);
    let mut theirs = rand_pcg::Pcg32::new(0xcafef00dd15ea5e5, 0xa02bdbf7bb3c0a7);
    for _ in 0..1000 {
        assert_eq!(ours.next_u32(), theirs.next_u32());
    }
}

#[test]
fn prng_matches_reference_other_seed() {
    let mut ours = Prng::new(42, 54);
    let mut theirs = rand_pcg::Pcg32::new(42, 54);
    for _ in 0..100 {
        assert_eq!(ours.next_u32(), theirs.next_u32());
    }
}

#[test]
fn prng_u64_matches_reference() {
    let mut ours = Prng::new(7, 11);
    let mut theirs = rand_pcg::Pcg32::new(7, 11);
    for _ in 0..100 {
        assert_eq!(ours.next_u64(), theirs.next_u64());
    }
}

#[test]
fn prng_below_is_bounded() {
    let mut rng = Prng::new(1, 2);
    for n in 1..100u64 {
        let v = rng.below(n);
        assert!(v < n);
    }
}

#[test]
fn prng_same_seed_same_draws() {
    let mut a = Prng::new(99, 3);
    let mut b = Prng::new(99, 3);
    for _ in 0..64 {
        assert_eq!(a.next_u32(), b.next_u32());
    }
}
