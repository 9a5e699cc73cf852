use claude_usage::text::decimal_text;
use claude_usage::tokens::fmt_tokens;

fn expected(t: u64) -> String {
    if t >= 100_000 {
        format!("{:.0}k", t as f64 / 1_000.0)
    } else if t >= 1_000 {
        format!("{:.1}k", t as f64 / 1_000.0)
    } else {
        t.to_string()
    }
}

#[test]
fn token_text_on_each_scale() {
    assert_eq!(fmt_tokens(0), "0");
    assert_eq!(fmt_tokens(7), "7");
    assert_eq!(fmt_tokens(999), "999");
    assert_eq!(fmt_tokens(1_000), "1.0k");
    assert_eq!(fmt_tokens(2_500), "2.5k");
    assert_eq!(fmt_tokens(19_000), "19.0k");
    assert_eq!(fmt_tokens(99_999), "100.0k");
    assert_eq!(fmt_tokens(100_000), "100k");
    assert_eq!(fmt_tokens(1_234_567), "1235k");
}

#[test]
fn token_text_rounds_as_binary64_does() {
    assert_eq!(fmt_tokens(1_050), "1.1k");
    assert_eq!(fmt_tokens(1_150), "1.1k");
    assert_eq!(fmt_tokens(1_250), "1.2k");
    assert_eq!(fmt_tokens(1_750), "1.8k");
    assert_eq!(fmt_tokens(100_500), "100k");
    assert_eq!(fmt_tokens(101_500), "102k");
}

#[test]
fn token_text_agrees_with_binary64_below_a_hundred_thousand() {
    for t in 0..101_000u64 {
        assert_eq!(fmt_tokens(t), expected(t), "{}", t);
    }
}

#[test]
fn token_text_agrees_with_binary64_on_large_counts() {
    let mut x: u64 = 0x9E37_79B9_7F4A_7C15;
    for round in 0..200_000u32 {
        x = x.wrapping_mul(6_364_136_223_846_793_005).wrapping_add(1_442_695_040_888_963_407);
        let t = x >> (round % 48);
        assert_eq!(fmt_tokens(t), expected(t), "{}", t);
        let half = t / 1_000 * 1_000 + 500;
        assert_eq!(fmt_tokens(half), expected(half), "{}", half);
    }
    for near in [1u64 << 43, 1 << 52, 1 << 53, 1 << 54, 1 << 62, 1 << 63, 9_007_199_254_740_992_000] {
        for off in 0..2_000u64 {
            assert_eq!(fmt_tokens(near + off), expected(near + off));
            assert_eq!(fmt_tokens(near - off), expected(near - off));
        }
    }
    for off in 0..5_000u64 {
        assert_eq!(fmt_tokens(u64::MAX - off), expected(u64::MAX - off));
    }
}

#[test]
fn decimal_digits() {
    assert_eq!(decimal_text(0), "0");
    assert_eq!(decimal_text(10), "10");
    assert_eq!(decimal_text(1_234_567_890), "1234567890");
    assert_eq!(decimal_text(u64::MAX), "18446744073709551615");
}
