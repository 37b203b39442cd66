use sigmap::rng::Rng;

fn step(x: u64) -> u64 {
    let a = x ^ (x >> 12);
    let b = a ^ (a << 25);
    b ^ (b >> 27)
}

#[test]
fn below_is_xorshift_then_scaled() {
    let mut rng = Rng::from_clock(Some(42));
    let s1 = step(43);
    assert_eq!(rng.below(1000), s1.wrapping_mul(0x2545_F491_4F6C_DD1D) % 1000);
    let s2 = step(s1);
    assert_eq!(rng.below(8766), s2.wrapping_mul(0x2545_F491_4F6C_DD1D) % 8766);
}

#[test]
fn from_clock_sets_lowest_bit() {
    let mut a = Rng::from_clock(Some(42));
    let mut b = Rng::from_clock(Some(43));
    assert_eq!(a.below(u64::MAX), b.below(u64::MAX));
}

#[test]
fn from_clock_truncates_to_64_bits() {
    let mut a = Rng::from_clock(Some((1u128 << 64) + 5));
    let mut b = Rng::from_clock(Some(5));
    assert_eq!(a.below(1_000_000), b.below(1_000_000));
}

#[test]
fn from_clock_without_reading_uses_fallback() {
    let mut a = Rng::from_clock(None);
    let expected = step(0x9E37_79B9_7F4A_7C15).wrapping_mul(0x2545_F491_4F6C_DD1D) % 97;
    assert_eq!(a.below(97), expected);
}

#[test]
fn below_stays_below() {
    let mut rng = Rng::from_time();
    for n in 1..200u64 {
        assert!(rng.below(n) < n);
    }
}
