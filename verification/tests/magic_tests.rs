use specter::movegen::attacks::bishop_attacks_slow;
use specter::movegen::magic::{find_magic, MagicEntry, Rng};

#[test]
fn xorshift_steps() {
    let mut r = Rng::new(1);
    let x0 = 1u64 ^ 0x9E3779B97F4A7C15;
    let mut x = x0;
    x ^= x << 13;
    x ^= x >> 7;
    x ^= x << 17;
    assert_eq!(r.next(), x);
    assert_eq!(r.0, x);
}

#[test]
fn bishop_magic_on_a_corner_indexes_without_destructive_collisions() {
    let mask = bishop_attacks_slow(0, 0);
    assert_eq!(mask.count_ones(), 7);
    assert!(find_magic(0, mask, 7, false).is_some());
}

#[test]
fn magic_lookup_matches_walking_the_rays() {
    let e = MagicEntry::build(0, false);
    assert_eq!(e.keys.len(), 128);
    for occ in [0u64, 1u64 << 9, (1u64 << 18) | (1u64 << 63), 0xFFFF_0000_0000_FFFF, u64::MAX] {
        assert_eq!(e.lookup(false, 0, occ), bishop_attacks_slow(0, occ));
    }
}
