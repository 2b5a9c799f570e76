use simulated_anneal::SimpleRng;

const MULTIPLIER: u64 = 6364136223846793005;
const INCREMENT: u64 = 1442695040888963407;

#[test]
fn fraction_bits_differ_between_draws() {
    let mut rng = SimpleRng::new(42);
    let a = rng.gen_fraction_bits();
    let b = rng.gen_fraction_bits();
    assert_ne!(a, b);
}

#[test]
fn fraction_bits_below_two_pow_53() {
    let mut rng = SimpleRng::new(42);
    for _ in 0..100 {
        let v = rng.gen_fraction_bits();
        assert!(v < (1u64 << 53));
    }
}

#[test]
fn fraction_bits_deterministic() {
    let mut rng1 = SimpleRng::new(42);
    let mut rng2 = SimpleRng::new(42);
    for _ in 0..10 {
        assert_eq!(rng1.gen_fraction_bits(), rng2.gen_fraction_bits());
    }
}

#[test]
fn fraction_bits_seed_zero_nonzero() {
    let mut rng = SimpleRng::new(0);
    let a = rng.gen_fraction_bits();
    assert_ne!(a, 0);
}

#[test]
fn next_u64_exact_values() {
    let mut rng = SimpleRng::new(42);
    assert_eq!(rng.next_u64(), 10481999410520546993);
    assert_eq!(rng.next_u64(), 4159066171780167020);
}

#[test]
fn next_u64_follows_the_recurrence() {
    let mut rng = SimpleRng::new(987654321);
    let mut state: u64 = 987654321;
    for _ in 0..1000 {
        state = state.wrapping_mul(MULTIPLIER).wrapping_add(INCREMENT);
        assert_eq!(rng.next_u64(), state);
    }
}

#[test]
fn seed_zero_behaves_as_seed_one() {
    let mut zero = SimpleRng::new(0);
    let mut one = SimpleRng::new(1);
    for _ in 0..20 {
        assert_eq!(zero.next_u64(), one.next_u64());
    }
    let mut rng = SimpleRng::new(0);
    assert_eq!(rng.next_u64(), MULTIPLIER.wrapping_add(INCREMENT));
}

#[test]
fn fraction_bits_are_top_bits_of_state() {
    let mut a = SimpleRng::new(42);
    let mut b = SimpleRng::new(42);
    assert_eq!(a.gen_fraction_bits(), 5118163774668235);
    assert_eq!(b.next_u64() >> 11, 5118163774668235);
    for _ in 0..50 {
        assert_eq!(a.gen_fraction_bits(), b.next_u64() >> 11);
    }
}

#[test]
fn gen_bool_is_low_bit() {
    let mut a = SimpleRng::new(42);
    let mut b = SimpleRng::new(42);
    for _ in 0..50 {
        let bit = b.next_u64() & 1 == 1;
        assert_eq!(a.gen_bool(), bit);
    }
}

#[test]
fn gen_bool_alternates() {
    let mut rng = SimpleRng::new(7);
    let mut prev = rng.gen_bool();
    for _ in 0..100 {
        let cur = rng.gen_bool();
        assert_ne!(cur, prev);
        prev = cur;
    }
}

#[test]
fn state_never_repeats_immediately() {
    let mut rng = SimpleRng::new(123);
    let mut prev = rng.next_u64();
    for _ in 0..1000 {
        let cur = rng.next_u64();
        assert_ne!(cur, prev);
        prev = cur;
    }
}

#[test]
fn clone_continues_the_same_stream() {
    let mut rng = SimpleRng::new(99);
    rng.next_u64();
    let mut copy = rng.clone();
    for _ in 0..10 {
        assert_eq!(rng.next_u64(), copy.next_u64());
    }
}
