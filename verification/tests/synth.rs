use swype_kbd::synth::Rng;

#[test]
fn rng_is_deterministic() {
    let mut a = Rng::new(42);
    let mut b = Rng::new(42);
    for _ in 0..100 {
        assert_eq!(a.next_u64(), b.next_u64());
    }
}

#[test]
fn rng_follows_xorshift64_star() {
    let mut r = Rng::new(42);
    assert_eq!(r.next_u64(), 0x08328d7f03bcec1a);
    assert_eq!(r.next_u64(), 0x077e7279e17ab6cd);
    assert_eq!(r.next_u64(), 0x0c4e098f541bb09e);
}

#[test]
fn seeds_differ_in_stream() {
    let mut a = Rng::new(1);
    let mut b = Rng::new(2);
    assert_ne!(a.next_u64(), b.next_u64());
}

#[test]
fn the_mix_constant_seed_is_stuck_at_zero() {
    let mut r = Rng::new(0x9E37_79B9_7F4A_7C15);
    for _ in 0..5 {
        assert_eq!(r.next_u64(), 0);
    }
}

#[test]
fn nonzero_states_draw_nonzero_words() {
    for seed in [0u64, 1, 7, 42, u64::MAX] {
        let mut r = Rng::new(seed);
        for _ in 0..1000 {
            assert_ne!(r.next_u64(), 0);
        }
    }
}
