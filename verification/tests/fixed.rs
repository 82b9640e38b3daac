use synth::fixed::{scale, ONE};

#[test]
fn scale_by_one_keeps_the_value() {
    assert_eq!(scale(12345, ONE), 12345);
    assert_eq!(scale(-12345, ONE), -12345);
    assert_eq!(scale(0, ONE), 0);
}

#[test]
fn scale_rounds_toward_zero() {
    // 3 * 0.5 = 1.5
    assert_eq!(scale(3, 32768), 1);
    assert_eq!(scale(-3, 32768), -1);
    // 65536 * 0.75
    assert_eq!(scale(65536, 49152), 49152);
    assert_eq!(scale(-65536, 49152), -49152);
}

#[test]
fn scale_by_zero_is_silence() {
    assert_eq!(scale(65536, 0), 0);
    assert_eq!(scale(-65536, 0), 0);
}

#[test]
fn scale_takes_the_largest_gain_at_its_limit() {
    assert_eq!(scale(0x1_0000_0000, u32::MAX), 0xffff_ffff_0000);
    assert_eq!(scale(-0x1_0000_0000, u32::MAX), -0xffff_ffff_0000);
}

#[test]
fn scale_takes_values_of_any_size() {
    assert_eq!(scale(i64::MAX, ONE), i64::MAX);
    assert_eq!(scale(i64::MIN, ONE), i64::MIN);
    assert_eq!(scale(i64::MAX, 32768), i64::MAX / 2);
    assert_eq!(scale(i64::MIN, 32768), i64::MIN / 2);
}

#[test]
fn scale_holds_the_product_to_the_range() {
    assert_eq!(scale(i64::MAX, 2 * ONE), i64::MAX);
    assert_eq!(scale(i64::MIN, 2 * ONE), i64::MIN);
    assert_eq!(scale(i64::MAX, u32::MAX), i64::MAX);
}
