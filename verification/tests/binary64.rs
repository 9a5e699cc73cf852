use claude_usage::binary64::{
    Binary64, HUNDRED_BITS, INFINITY_BITS, MINUS_ONE_BITS, MINUTES_PER_DAY_BITS, SIXTY_BITS,
    ZERO_BITS,
};

fn value(x: f64) -> Binary64 {
    Binary64 { bits: x.to_bits() }
}

#[test]
fn bit_patterns_of_the_constants() {
    assert_eq!(ZERO_BITS, 0.0f64.to_bits());
    assert_eq!(MINUS_ONE_BITS, (-1.0f64).to_bits());
    assert_eq!(SIXTY_BITS, 60.0f64.to_bits());
    assert_eq!(HUNDRED_BITS, 100.0f64.to_bits());
    assert_eq!(MINUTES_PER_DAY_BITS, 1440.0f64.to_bits());
    assert_eq!(INFINITY_BITS, f64::INFINITY.to_bits());
}

#[test]
fn comparisons_agree_with_binary64() {
    let values = [
        f64::NEG_INFINITY,
        f64::MIN,
        -100.5,
        -1.0,
        -f64::MIN_POSITIVE,
        -5e-324,
        -0.0,
        0.0,
        5e-324,
        f64::MIN_POSITIVE,
        0.1,
        1.0,
        59.999,
        60.0,
        99.99999,
        100.0,
        100.00000000000001,
        1440.0,
        f64::MAX,
        f64::INFINITY,
        f64::NAN,
        -f64::NAN,
    ];
    for &a in &values {
        assert_eq!(value(a).is_nan(), a.is_nan());
        assert_eq!(value(a).is_positive(), a > 0.0);
        assert_eq!(value(a).clamp_percent().bits, a.clamp(0.0, 100.0).to_bits());
        for &b in &values {
            assert_eq!(value(a).is_less_than(&value(b)), a < b, "{} < {}", a, b);
            assert_eq!(value(a).not_risen_from(&value(b)), a - b <= 0.0, "{} - {}", a, b);
        }
    }
}
