//! Fixed-point arithmetic on `u64` values counting billionths.
//!
//! A value `x` stands for the rational number `x / SCALE`. Multiplication
//! and division truncate toward zero, as the corresponding binary floating
//! point operations do at each score's final boundary.

use vstd::prelude::*;

verus! {

/// Number of fixed-point units in 1.0.
pub const SCALE: u64 = 1_000_000_000;

/// The product of two fixed-point values, truncated to the scale.
pub open spec fn fx_mul_spec(a: int, b: int) -> int {
    (a * b) / (SCALE as int)
}

/// The quotient of two fixed-point values, truncated to the scale.
pub open spec fn fx_div_spec(a: int, b: int) -> int {
    (a * (SCALE as int)) / b
}

/// `base` raised to the power `n`, in fixed point, truncating after each
/// multiplication (the same order the executable loop uses).
pub open spec fn fx_pow_spec(base: int, n: nat) -> int
    decreases n,
{
    if n == 0 {
        SCALE as int
    } else {
        fx_mul_spec(fx_pow_spec(base, (n - 1) as nat), base)
    }
}

/// Fixed-point multiplication.
pub fn fx_mul(a: u64, b: u64) -> (r: u64)
    requires
        fx_mul_spec(a as int, b as int) <= u64::MAX,
    ensures
        r == fx_mul_spec(a as int, b as int),
{
    proof {
        lemma_fx_mul_bounds(a as int, b as int);
    }
    (((a as u128) * (b as u128)) / (SCALE as u128)) as u64
}

/// Fixed-point division; `b` must be positive.
pub fn fx_div(a: u64, b: u64) -> (r: u64)
    requires
        b > 0,
        fx_div_spec(a as int, b as int) <= u64::MAX,
    ensures
        r == fx_div_spec(a as int, b as int),
{
    proof {
        lemma_fx_div_bounds(a as int, b as int);
    }
    (((a as u128) * (SCALE as u128)) / (b as u128)) as u64
}

/// Truncated products of non-negative values are non-negative and no larger
/// than the untruncated product.
pub proof fn lemma_fx_mul_bounds(a: int, b: int)
    requires
        0 <= a,
        0 <= b,
    ensures
        0 <= fx_mul_spec(a, b),
        fx_mul_spec(a, b) <= a * b,
{
    assert(0 <= a * b) by (nonlinear_arith)
        requires 0 <= a && 0 <= b;
    vstd::arithmetic::div_mod::lemma_div_is_ordered_by_denominator(a * b, 1, SCALE as int);
    vstd::arithmetic::div_mod::lemma_div_basics(a * b);
}

/// Truncated quotients of non-negative values are non-negative.
pub proof fn lemma_fx_div_bounds(a: int, b: int)
    requires
        0 <= a,
        0 < b,
    ensures
        0 <= fx_div_spec(a, b),
{
    assert(0 <= a * (SCALE as int)) by (nonlinear_arith)
        requires 0 <= a;
    vstd::arithmetic::div_mod::lemma_div_pos_is_pos(a * (SCALE as int), b);
}

/// Fixed-point multiplication is monotone in both operands.
pub proof fn lemma_fx_mul_mono(a1: int, b1: int, a2: int, b2: int)
    requires
        0 <= a1 <= a2,
        0 <= b1 <= b2,
    ensures
        fx_mul_spec(a1, b1) <= fx_mul_spec(a2, b2),
{
    assert(a1 * b1 <= a2 * b2) by (nonlinear_arith)
        requires 0 <= a1 <= a2 && 0 <= b1 <= b2;
    vstd::arithmetic::div_mod::lemma_div_is_ordered(a1 * b1, a2 * b2, SCALE as int);
}

/// A product with a factor of at most 1.0 does not exceed the other factor.
pub proof fn lemma_fx_mul_le_one(a: int, b: int)
    requires
        0 <= a,
        0 <= b <= SCALE,
    ensures
        fx_mul_spec(a, b) <= a,
{
    assert(a * b <= a * (SCALE as int)) by (nonlinear_arith)
        requires 0 <= a && 0 <= b <= SCALE as int;
    vstd::arithmetic::div_mod::lemma_div_is_ordered(a * b, a * (SCALE as int), SCALE as int);
    vstd::arithmetic::div_mod::lemma_div_multiples_vanish(a, SCALE as int);
}

/// Powers of a base of at most 1.0 stay between 0 and 1.0.
pub proof fn lemma_fx_pow_bounds(base: int, n: nat)
    requires
        0 <= base <= SCALE,
    ensures
        0 <= fx_pow_spec(base, n) <= SCALE,
    decreases n,
{
    if n > 0 {
        lemma_fx_pow_bounds(base, (n - 1) as nat);
        lemma_fx_mul_bounds(fx_pow_spec(base, (n - 1) as nat), base);
        lemma_fx_mul_le_one(SCALE as int, base);
        lemma_fx_mul_mono(fx_pow_spec(base, (n - 1) as nat), base, SCALE as int, base);
    }
}

/// Powers are monotone in the base.
pub proof fn lemma_fx_pow_mono(b1: int, b2: int, n: nat)
    requires
        0 <= b1 <= b2 <= SCALE,
    ensures
        fx_pow_spec(b1, n) <= fx_pow_spec(b2, n),
    decreases n,
{
    if n > 0 {
        lemma_fx_pow_mono(b1, b2, (n - 1) as nat);
        lemma_fx_pow_bounds(b1, (n - 1) as nat);
        lemma_fx_pow_bounds(b2, (n - 1) as nat);
        lemma_fx_mul_mono(fx_pow_spec(b1, (n - 1) as nat), b1, fx_pow_spec(b2, (n - 1) as nat), b2);
    }
}

/// Truncated division distributes over a sum with a loss of at most one
/// unit in each direction: the quotient of the sum is at least the sum of
/// the quotients, and exceeds it by at most one.
pub proof fn lemma_div_sum_bounds(x: int, y: int, d: int)
    requires
        0 <= x,
        0 <= y,
        0 < d,
    ensures
        x / d + y / d <= (x + y) / d,
        (x + y) / d <= x / d + y / d + 1,
{
    vstd::arithmetic::div_mod::lemma_fundamental_div_mod(x, d);
    vstd::arithmetic::div_mod::lemma_fundamental_div_mod(y, d);
    vstd::arithmetic::div_mod::lemma_remainder(x, d);
    vstd::arithmetic::div_mod::lemma_remainder(y, d);
    vstd::arithmetic::div_mod::lemma_div_pos_is_pos(x, d);
    vstd::arithmetic::div_mod::lemma_div_pos_is_pos(y, d);
    let qx = x / d;
    let qy = y / d;
    let rx = x % d;
    let ry = y % d;
    if rx + ry < d {
        assert(x + y == (qx + qy) * d + (rx + ry)) by (nonlinear_arith)
            requires x == d * qx + rx && y == d * qy + ry;
        vstd::arithmetic::div_mod::lemma_fundamental_div_mod_converse(
            x + y,
            d,
            qx + qy,
            rx + ry,
        );
    } else {
        assert(x + y == (qx + qy + 1) * d + (rx + ry - d)) by (nonlinear_arith)
            requires x == d * qx + rx && y == d * qy + ry;
        vstd::arithmetic::div_mod::lemma_fundamental_div_mod_converse(
            x + y,
            d,
            qx + qy + 1,
            rx + ry - d,
        );
    }
}

/// Comparing two truncated fractions reduces to comparing their cross
/// products.
pub proof fn lemma_div_cross(a: int, b: int, c: int, d: int)
    requires
        0 <= a,
        0 <= c,
        0 < b,
        0 < d,
        a * d <= c * b,
    ensures
        a / b <= c / d,
{
    let q = a / b;
    vstd::arithmetic::div_mod::lemma_fundamental_div_mod(a, b);
    vstd::arithmetic::div_mod::lemma_remainder(a, b);
    vstd::arithmetic::div_mod::lemma_div_pos_is_pos(a, b);
    assert(q * b <= a);
    assert(q * d <= c) by (nonlinear_arith)
        requires
            q * b <= a,
            a * d <= c * b,
            0 <= q,
            0 < b,
            0 < d,
    ;
    vstd::arithmetic::div_mod::lemma_div_is_ordered(q * d, c, d);
    vstd::arithmetic::div_mod::lemma_div_multiples_vanish(q, d);
    assert(q * d == d * q) by (nonlinear_arith);
    assert((d * q) / d == q);
}

/// Fixed-point exponentiation by a non-negative integer exponent.
pub fn fx_pow(base: u64, n: u32) -> (r: u64)
    requires
        base <= SCALE,
    ensures
        r == fx_pow_spec(base as int, n as nat),
{
    let mut r: u64 = SCALE;
    let mut i: u32 = 0;
    proof {
        lemma_fx_pow_bounds(base as int, 0nat);
    }
    while i < n
        invariant
            i <= n,
            base <= SCALE,
            r == fx_pow_spec(base as int, i as nat),
            0 <= r <= SCALE,
        decreases n - i,
    {
        proof {
            lemma_fx_mul_bounds(r as int, base as int);
            lemma_fx_mul_le_one(r as int, base as int);
            lemma_fx_pow_bounds(base as int, (i + 1) as nat);
        }
        r = fx_mul(r, base);
        i = i + 1;
    }
    r
}

} // verus!
