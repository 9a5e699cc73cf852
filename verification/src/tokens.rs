//! Token counts as short text.

use vstd::arithmetic::div_mod::{
    lemma_div_multiples_vanish, lemma_fundamental_div_mod, lemma_mod_multiples_basic,
};
use vstd::arithmetic::power2::{
    lemma2_to64, lemma2_to64_rest, lemma_pow2_adds, lemma_pow2_pos, lemma_pow2_strictly_increases,
    lemma_pow2_unfold, pow2,
};
use vstd::prelude::*;
use vstd::string::StringExecFns;

use crate::text::{decimal, decimal_text};

verus! {

/// Quotients are kept as multiples of `1 / SCALE`, a power of two.
pub const SCALE: u128 = 0x1000_0000_0000_0000;

/// The integer nearest to `num / den`; of two equally near, the even one.
pub open spec fn nearest_even(num: nat, den: nat) -> nat {
    let quotient = num / den;
    let twice = 2 * (num % den);
    if twice < den || (twice == den && quotient % 2 == 0) {
        quotient
    } else {
        quotient + 1
    }
}

/// The smallest power-of-two multiple of `unit` that leaves fewer than 2^53 steps
/// below `scaled`, where a step grows from `step` as the unit does.
pub open spec fn spacing(scaled: nat, step: nat, unit: nat) -> nat
    decreases scaled - step,
{
    if step == 0 || scaled < 0x20_0000_0000_0000 * step {
        unit
    } else {
        spacing(scaled, 2 * step, 2 * unit)
    }
}

/// `SCALE` times the binary64 value nearest to `num / den`, which has 53
/// significant bits; for quotients of at least 1.
pub open spec fn binary64_quotient(num: nat, den: nat) -> nat {
    let scaled = num * (SCALE as nat);
    let unit = spacing(scaled, den, 1);
    nearest_even(scaled, den * unit) * unit
}

/// The binary64 value nearest to a token count.
pub open spec fn binary64_of(tokens: nat) -> nat {
    binary64_quotient(tokens, 1) / (SCALE as nat)
}

/// `SCALE` times the token count in thousands, computed in binary64.
pub open spec fn thousands(tokens: nat) -> nat {
    binary64_quotient(binary64_of(tokens), 1000)
}

/// A token count as short text: in full below a thousand, in thousands with one
/// decimal below a hundred thousand, and in whole thousands from there on.
pub open spec fn token_text(tokens: nat) -> Seq<char> {
    if tokens >= 100_000 {
        decimal(nearest_even(thousands(tokens), SCALE as nat)) + "k"@
    } else if tokens >= 1_000 {
        let tenths = nearest_even(10 * thousands(tokens), SCALE as nat);
        decimal(tenths / 10) + "."@ + decimal(tenths % 10) + "k"@
    } else {
        decimal(tokens)
    }
}

fn round_to_even(num: u128, den: u128) -> (rounded: u128)
    requires
        0 < den,
        2 * den <= u128::MAX,
        num < u128::MAX,
    ensures
        rounded == nearest_even(num as nat, den as nat),
        num / den <= rounded <= num / den + 1,
{
    let quotient: u128 = num / den;
    let twice: u128 = 2 * (num % den);
    proof {
        assert(quotient <= num) by (nonlinear_arith)
            requires
                quotient == num / den,
                den > 0,
        ;
    }
    if twice < den || (twice == den && quotient % 2 == 0) {
        quotient
    } else {
        quotient + 1
    }
}

/// Divides as binary64 arithmetic does.
fn divide_binary64(num: u128, den: u128) -> (scaled_quotient: u128)
    requires
        1 <= den <= 1000,
        1 <= num < 0x2_0000_0000_0000_0000,
    ensures
        scaled_quotient == binary64_quotient(num as nat, den as nat),
        scaled_quotient * den <= 2 * num * SCALE,
        2 * (scaled_quotient * den) >= num * SCALE,
{
    let scaled: u128 = num * SCALE;
    let mut unit: u128 = 1;
    let mut step: u128 = den;
    while scaled >= 0x20_0000_0000_0000 * step
        invariant
            1 <= den <= 1000,
            scaled < 0x2000_0000_0000_0000_0000_0000_0000_0000,
            step == den * unit,
            1 <= unit <= step,
            2 * step <= scaled,
            step < 0x200_0000_0000_0000_0000,
            spacing(scaled as nat, den as nat, 1) == spacing(scaled as nat, step as nat, unit as nat),
        decreases scaled - step,
    {
        unit = 2 * unit;
        step = 2 * step;
        assert(step == den * unit) by (nonlinear_arith)
            requires
                step == 2 * (den * (unit / 2)),
                unit == 2 * (unit / 2),
        ;
    }
    let steps: u128 = round_to_even(scaled, step);
    proof {
        let m = steps as int;
        let q = scaled as int / step as int;
        assert(scaled - step <= m * step <= scaled + step) by (nonlinear_arith)
            requires
                q <= m <= q + 1,
                q == scaled as int / step as int,
                step > 0,
        ;
        assert((m * unit) * den == m * step) by (nonlinear_arith)
            requires
                step == den * unit,
        ;
        assert(m * unit <= (m * unit) * den) by (nonlinear_arith)
            requires
                den >= 1,
                m >= 0,
                unit >= 1,
        ;
    }
    steps * unit
}

/// Writes a token count as short text.
pub fn fmt_tokens(t: u64) -> (text: String)
    ensures
        text@ == token_text(t as nat),
{
    if t < 1_000 {
        return decimal_text(t);
    }
    let rounded: u128 = divide_binary64(t as u128, 1) / SCALE;
    assert(1 <= rounded < 0x2_0000_0000_0000_0000);
    let in_thousands: u128 = divide_binary64(rounded, 1000);
    if t >= 100_000 {
        let whole: u128 = round_to_even(in_thousands, SCALE);
        let mut text = decimal_text(whole as u64);
        text.append("k");
        text
    } else {
        let tenths: u128 = round_to_even(10 * in_thousands, SCALE);
        let mut text = decimal_text((tenths / 10) as u64);
        text.append(".");
        text.append(decimal_text((tenths % 10) as u64).as_str());
        text.append("k");
        text
    }
}

/// The spacing is a power of two, wide enough to leave fewer than 2^53 steps, and no
/// wider than that takes.
proof fn lemma_spacing(scaled: nat, den: nat, step: nat, unit: nat, j: nat) -> (i: nat)
    requires
        den >= 1,
        unit == pow2(j),
        step == den * unit,
    ensures
        spacing(scaled, step, unit) == pow2(i),
        i >= j,
        scaled < 0x20_0000_0000_0000 * (den * pow2(i)),
        i == j || scaled >= 0x10_0000_0000_0000 * (den * pow2(i)),
    decreases scaled - step,
{
    lemma_pow2_pos(j);
    assert(step >= 1) by (nonlinear_arith)
        requires
            step == den * unit,
            den >= 1,
            unit >= 1,
    ;
    if scaled < 0x20_0000_0000_0000 * step {
        j
    } else {
        lemma_pow2_unfold(j + 1);
        assert(2 * step == den * (2 * unit)) by (nonlinear_arith)
            requires
                step == den * unit,
        ;
        let i = lemma_spacing(scaled, den, 2 * step, 2 * unit, j + 1);
        if i == j + 1 {
            assert(den * pow2(i) == 2 * step);
        }
        i
    }
}

/// Rounding moves a quotient by at most one half.
proof fn lemma_nearest_even(num: nat, den: nat)
    requires
        den >= 1,
    ensures
        2 * num - den <= 2 * (nearest_even(num, den) * den) <= 2 * num + den,
{
    let quotient = num / den;
    let rest = num % den;
    lemma_fundamental_div_mod(num as int, den as int);
    assert(quotient * den == den * quotient) by (nonlinear_arith);
    assert((quotient + 1) * den == quotient * den + den) by (nonlinear_arith);
}

/// A binary64 quotient is off by at most half a step, and there are at least 2^52
/// steps in it unless it is exact to a `1 / SCALE`.
proof fn lemma_quotient_error(num: nat, den: nat)
    requires
        1 <= den <= 1000,
        num >= 4,
    ensures
        num * 0x1000_0000_0000_0000 - 128 * num <= binary64_quotient(num, den) * den <= num
            * 0x1000_0000_0000_0000 + 128 * num,
{
    let scaled = num * (SCALE as nat);
    assert(pow2(0) == 1) by {
        lemma2_to64();
    }
    let i = lemma_spacing(scaled, den, den, 1, 0);
    let unit = pow2(i);
    let step = den * unit;
    lemma_pow2_pos(i);
    assert(step >= 1) by (nonlinear_arith)
        requires
            step == den * unit,
            den >= 1,
            unit >= 1,
    ;
    let steps = nearest_even(scaled, step);
    lemma_nearest_even(scaled, step);
    assert((steps * unit) * den == steps * step) by (nonlinear_arith)
        requires
            step == den * unit,
    ;
    if i == 0 {
        assert(step == den);
    }
}

/// Token counts below 2^53 are exact in binary64.
proof fn lemma_small_counts_are_exact(tokens: nat)
    requires
        1 <= tokens < 0x20_0000_0000_0000,
    ensures
        binary64_of(tokens) == tokens,
{
    let scaled = tokens * (SCALE as nat);
    assert(pow2(0) == 1 && pow2(60) == SCALE) by {
        lemma2_to64();
        lemma2_to64_rest();
    }
    let i = lemma_spacing(scaled, 1, 1, 1, 0);
    let unit = pow2(i);
    assert(1 * unit == unit);
    lemma_pow2_pos(i);
    if i > 60 {
        assert(unit >= 2 * (SCALE as nat)) by {
            lemma_pow2_unfold(61);
            if i > 61 {
                lemma_pow2_strictly_increases(61, i);
            }
        }
    }
    let rest = pow2((60 - i) as nat);
    lemma_pow2_adds(i, (60 - i) as nat);
    let steps = tokens * rest;
    assert(scaled == steps * unit) by (nonlinear_arith)
        requires
            scaled == tokens * (unit * rest),
            steps == tokens * rest,
    ;
    lemma_div_multiples_vanish(steps as int, unit as int);
    lemma_mod_multiples_basic(steps as int, unit as int);
    assert(steps * unit == unit * steps) by (nonlinear_arith);
    assert(nearest_even(scaled, unit) == steps);
    lemma_div_multiples_vanish(tokens as int, SCALE as int);
}

/// How far the binary64 value nearest to a count may lie from it.
proof fn lemma_count_error(tokens: nat)
    requires
        1000 <= tokens <= u64::MAX,
    ensures
        tokens < 0x20_0000_0000_0000 ==> binary64_of(tokens) == tokens,
        tokens - tokens / 0x20_0000_0000_0000 - 2 <= binary64_of(tokens) <= tokens + tokens
            / 0x20_0000_0000_0000 + 2,
{
    if tokens < 0x20_0000_0000_0000 {
        lemma_small_counts_are_exact(tokens);
    }
    lemma_quotient_error(tokens, 1);
}

/// A token count reads as the count itself below a thousand. From there on it reads in
/// thousands: with one decimal, off by no more than half a tenth of a thousand, below a
/// hundred thousand; in whole thousands, off by no more than half a thousand, as long
/// as binary64 numbers hold counts exactly; and beyond that by no more than the eight
/// steps that such numbers have there.
pub proof fn law_token_text_is_near(tokens: nat) -> (shown: nat)
    requires
        tokens <= u64::MAX,
    ensures
        tokens < 1_000 ==> token_text(tokens) == decimal(tokens),
        1_000 <= tokens < 100_000 ==> {
            &&& token_text(tokens) == decimal(shown / 10) + "."@ + decimal(shown % 10) + "k"@
            &&& -50 <= 100 * shown - tokens <= 50
        },
        tokens >= 100_000 ==> {
            &&& token_text(tokens) == decimal(shown) + "k"@
            &&& tokens < 0x20_0000_0000_0000 ==> -500 <= 1000 * shown - tokens <= 500
            &&& -500 - tokens / 0x4_0000_0000_0000 <= 1000 * shown - tokens <= 500 + tokens
                / 0x4_0000_0000_0000
        },
{
    if tokens < 1_000 {
        tokens
    } else {
        let near = binary64_of(tokens);
        lemma_count_error(tokens);
        lemma_quotient_error(near, 1000);
        let scaled = thousands(tokens);
        if tokens < 100_000 {
            lemma_nearest_even(10 * scaled, SCALE as nat);
            nearest_even(10 * scaled, SCALE as nat)
        } else {
            lemma_nearest_even(scaled, SCALE as nat);
            nearest_even(scaled, SCALE as nat)
        }
    }
}

} // verus!
