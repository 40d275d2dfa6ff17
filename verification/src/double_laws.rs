//! What holds of every rounded result.

use vstd::arithmetic::div_mod::*;
use vstd::arithmetic::mul::*;
use vstd::arithmetic::power2::*;
use vstd::prelude::*;

use crate::double::{
    excess_bits, exponent_of, gib_tenths, half_even, is_nan, magnitude, quotient_scale,
    quotient_significand, quotient_tenths, scaled, significand_of, significant, truncated_product,
};

verus! {

/// How far apart two numbers are.
pub open spec fn distance(a: nat, b: nat) -> int {
    if a < b {
        b - a
    } else {
        a - b
    }
}

/// A rounded quotient is an integer nearest to the quotient, and the even one
/// where two are equally near.
pub proof fn law_quotients_round_to_the_nearest(n: nat, d: nat)
    requires
        d > 0,
    ensures
        2 * distance(half_even(n, d) * d, n) <= d,
        2 * distance(half_even(n, d) * d, n) == d ==> half_even(n, d) % 2 == 0,
{
    let q = (n / d) as int;
    let r = (n % d) as int;
    lemma_fundamental_div_mod(n as int, d as int);
    assert(q * d == d * q) by (nonlinear_arith);
    assert((q + 1) * d == q * d + d) by (nonlinear_arith);
    assert(0 <= r < d);
    if half_even(n, d) == q + 1 {
        assert(half_even(n, d) * d == q * d + d);
    } else {
        assert(half_even(n, d) * d == q * d);
    }
}

/// The unit of an integer's 53 leading bits.
proof fn lemma_unit(n: nat)
    ensures
        n < 0x20_0000_0000_0000 ==> excess_bits(n) == 0,
        n >= 0x20_0000_0000_0000 ==> 0x10_0000_0000_0000 * pow2(excess_bits(n)) <= n
            < 0x20_0000_0000_0000 * pow2(excess_bits(n)),
    decreases n,
{
    lemma2_to64();
    if n >= 0x20_0000_0000_0000 {
        let half = n / 2;
        lemma_unit(half);
        lemma_pow2_unfold(excess_bits(n));
        assert(excess_bits(n) == 1 + excess_bits(half));
        assert(pow2(excess_bits(n)) == 2 * pow2(excess_bits(half)));
        if half < 0x20_0000_0000_0000 {
            assert(pow2(excess_bits(half)) == 1);
        }
    }
}

/// A double holds an integer of up to 53 bits as it is. It holds a larger one as
/// the nearest multiple of the unit of its 53 leading bits, and as the even one
/// where two are equally near.
pub proof fn law_doubles_hold_53_bits(n: nat)
    ensures
        n < 0x20_0000_0000_0000 ==> significant(n) == n,
        ({
            let unit = pow2(excess_bits(n));
            let units = half_even(n, unit);
            &&& unit > 0
            &&& significant(n) == units * unit
            &&& 2 * distance(significant(n), n) <= unit
            &&& 2 * distance(significant(n), n) == unit ==> units % 2 == 0
            &&& n >= 0x20_0000_0000_0000 ==> 0x10_0000_0000_0000 * unit <= n < 0x20_0000_0000_0000
                * unit
        }),
{
    lemma2_to64();
    lemma_unit(n);
    lemma_pow2_pos(excess_bits(n));
    law_quotients_round_to_the_nearest(n, pow2(excess_bits(n)));
    if n < 0x20_0000_0000_0000 {
        assert(pow2(excess_bits(n)) == 1);
        assert(n % 1 == 0 && n / 1 == n);
        assert(n * 1 == n);
    }
}

/// A number of up to 53 bits that is shifted up is held as it is.
proof fn lemma_shifted(x: nat, k: nat)
    requires
        x < 0x20_0000_0000_0000,
    ensures
        significant(x * pow2(k)) == x * pow2(k),
{
    lemma_excess_of_shifted(x, k);
    let n = x * pow2(k);
    let e = excess_bits(n);
    let rest = (k - e) as nat;
    lemma_pow2_adds(rest, e);
    lemma_pow2_pos(e);
    let q = x * pow2(rest);
    assert(n == q * pow2(e)) by {
        lemma_mul_is_associative(x as int, pow2(rest) as int, pow2(e) as int);
    }
    lemma_div_multiples_vanish(q as int, pow2(e) as int);
    lemma_mod_multiples_basic(q as int, pow2(e) as int);
    assert(pow2(e) as int * q as int == q * pow2(e)) by (nonlinear_arith);
    assert(half_even(n, pow2(e)) == q);
}

/// Shifting up makes for no more excess bits than the shift.
proof fn lemma_excess_of_shifted(x: nat, k: nat)
    requires
        x < 0x20_0000_0000_0000,
    ensures
        excess_bits(x * pow2(k)) <= k,
    decreases k,
{
    lemma2_to64();
    if k == 0 {
        assert(x * pow2(0) == x);
    } else if x * pow2(k) >= 0x20_0000_0000_0000 {
        lemma_excess_of_shifted(x, (k - 1) as nat);
        lemma_pow2_unfold(k);
        assert(x * pow2(k) == 2 * (x * pow2((k - 1) as nat))) by (nonlinear_arith)
            requires
                pow2(k) == 2 * pow2((k - 1) as nat),
        ;
        assert((x * pow2(k)) / 2 == x * pow2((k - 1) as nat));
    }
}

/// A product that is exact is the product. For a normal double of value
/// `a / 2^j`, with either sign, and a factor that together take no more than 53
/// bits, the result is their product, toward zero.
pub proof fn law_exact_products_are_products(bits: u64, factor: int, a: nat, k: nat, j: nat)
    requires
        0 < (bits / 0x10_0000_0000_0000) % 0x800 < 0x7ff,
        (bits % 0x10_0000_0000_0000) + 0x10_0000_0000_0000 == a * pow2(k),
        (bits / 0x10_0000_0000_0000) % 0x800 + k + j == 1075,
        a * magnitude(factor) < 0x20_0000_0000_0000,
    ensures
        truncated_product(bits, factor) == if (bits >= 0x8000_0000_0000_0000) == (factor < 0) {
            ((a * magnitude(factor)) / pow2(j)) as int
        } else {
            -((a * magnitude(factor)) / pow2(j))
        },
{
    let f = magnitude(factor);
    let x = a * f;
    lemma2_to64();
    lemma_pow2_pos(k);
    lemma_pow2_pos(j);
    assert(a >= 1) by (nonlinear_arith)
        requires
            a * pow2(k) > 0,
            a >= 0,
    ;
    assert(f <= a * f) by (nonlinear_arith)
        requires
            a >= 1,
            f >= 0,
    ;
    law_doubles_hold_53_bits(f);
    assert(significant(f) == f);
    assert(significand_of(bits) == a * pow2(k));
    assert(significand_of(bits) * f == x * pow2(k)) by (nonlinear_arith)
        requires
            significand_of(bits) == a * pow2(k),
            x == a * f,
    ;
    lemma_shifted(x, k);
    let product = x * pow2(k);
    assert(exponent_of(bits) == -(k + j));
    lemma_pow2_adds(k, j);
    lemma_div_denominator(product as int, pow2(k) as int, pow2(j) as int);
    lemma_div_multiples_vanish(x as int, pow2(k) as int);
    assert(pow2(k) as int * x as int == product) by (nonlinear_arith)
        requires
            product == x * pow2(k),
    ;
    assert(product / pow2(k + j) == x / pow2(j));
    if k + j == 0 {
        assert(product * pow2(0) == product);
        assert(x / pow2(0) == x);
        assert(pow2(k + j) == 1);
        assert(product / 1 == product);
    }
    assert(scaled(product, exponent_of(bits)) == x / pow2(j));
    lemma_div_is_ordered_by_denominator(x as int, 1, pow2(j) as int);
    assert(x / pow2(j) <= x);
    assert(!is_nan(bits));
}

/// A product is rounded to a double before it is cut to an integer. For a finite
/// double of `m` units of `2^e`, it is that of `m` and of the factor as a double
/// holds it, as a double holds that, less what is left of the last whole number,
/// and the nearest that fits 64 bits.
pub proof fn law_products_are_rounded_and_cut(bits: u64, factor: int, size: nat)
    requires
        (bits / 0x10_0000_0000_0000) % 0x800 < 0x7ff,
        ({
            let field = (bits / 0x10_0000_0000_0000) % 0x800;
            let fraction = bits % 0x10_0000_0000_0000;
            let m: nat = if field == 0 {
                fraction as nat
            } else {
                (fraction + 0x10_0000_0000_0000) as nat
            };
            let product = significant(m * significant(magnitude(factor)));
            if field == 0 {
                size * pow2(1074) <= product < (size + 1) * pow2(1074)
            } else if field < 1075 {
                size * pow2((1075 - field) as nat) <= product < (size + 1) * pow2(
                    (1075 - field) as nat,
                )
            } else {
                size == product * pow2((field - 1075) as nat)
            }
        }),
    ensures
        ({
            let r = truncated_product(bits, factor);
            if (bits >= 0x8000_0000_0000_0000) == (factor < 0) {
                r == if size < 0x7fff_ffff_ffff_ffff {
                    size as int
                } else {
                    0x7fff_ffff_ffff_ffff
                }
            } else {
                r == if size < 0x8000_0000_0000_0000 {
                    -(size as int)
                } else {
                    -0x8000_0000_0000_0000
                }
            }
        }),
{
    let field = (bits / 0x10_0000_0000_0000) % 0x800;
    let m = significand_of(bits);
    let product = significant(m * significant(magnitude(factor)));
    if field < 1075 {
        let e = (if field == 0 {
            1074
        } else {
            1075 - field
        }) as nat;
        lemma_pow2_pos(e);
        lemma_quotient(product, pow2(e), size);
        assert(exponent_of(bits) == -(e as int));
    } else {
        assert(exponent_of(bits) == field - 1075);
    }
    assert(scaled(product, exponent_of(bits)) == size);
}

/// The whole number of times that a number goes into another.
proof fn lemma_quotient(n: nat, d: nat, q: nat)
    requires
        d > 0,
        q * d <= n < (q + 1) * d,
    ensures
        n / d == q,
{
    let r = n - q * d;
    assert((q + 1) * d == q * d + d) by (nonlinear_arith);
    lemma_fundamental_div_mod_converse(n as int, d as int, q as int, r);
}

/// What is not a number makes for no time; an infinite count makes for the most
/// or the least that fits, unless the factor is zero.
pub proof fn law_unbounded_products_are_clamped(bits: u64, factor: int)
    requires
        (bits / 0x10_0000_0000_0000) % 0x800 == 0x7ff,
    ensures
        bits % 0x10_0000_0000_0000 != 0 ==> truncated_product(bits, factor) == 0,
        bits % 0x10_0000_0000_0000 == 0 ==> truncated_product(bits, factor) == if factor == 0 {
            0
        } else if (bits >= 0x8000_0000_0000_0000) == (factor < 0) {
            0x7fff_ffff_ffff_ffff
        } else {
            -0x8000_0000_0000_0000
        },
{
    if bits % 0x10_0000_0000_0000 == 0 {
        let f = magnitude(factor);
        let held = significant(f);
        let n = 0x10_0000_0000_0000 * held;
        let product = significant(n);
        law_doubles_hold_53_bits(f);
        law_doubles_hold_53_bits(n);
        assert(significand_of(bits) == 0x10_0000_0000_0000);
        assert(exponent_of(bits) == 972);
        if factor == 0 {
            assert(0 * pow2(972) == 0);
        } else {
            lemma_held_is_positive(f);
            lemma_held_is_positive(n);
            lemma2_to64();
            lemma2_to64_rest();
            lemma_pow2_strictly_increases(64, 972);
            assert(product * pow2(972) >= pow2(972)) by (nonlinear_arith)
                requires
                    product >= 1,
                    pow2(972) >= 0,
            ;
        }
    }
}

/// What is not zero is not held as zero.
proof fn lemma_held_is_positive(n: nat)
    requires
        n > 0,
    ensures
        significant(n) > 0,
{
    law_doubles_hold_53_bits(n);
    if n >= 0x20_0000_0000_0000 {
        let unit = pow2(excess_bits(n)) as int;
        assert(unit < n) by (nonlinear_arith)
            requires
                0x10_0000_0000_0000 * unit <= n,
                unit > 0,
        ;
    }
}

/// Thousandths that are rounded to tenths are rounded to the nearest tenth, and
/// quarters to the even one.
pub proof fn law_thousandths_round_to_tenths(n: nat)
    requires
        1_000 <= n < 64_000,
    ensures
        distance(100 * quotient_tenths(n, 1_000), n) <= 50,
        n % 500 == 250 ==> quotient_tenths(n, 1_000) % 2 == 0,
{
    lemma2_to64();
    lemma2_to64_rest();
    let scale = quotient_scale(n, 1_000);
    let p = pow2(scale);
    let s = quotient_significand(n, 1_000);
    let t = quotient_tenths(n, 1_000);
    assert(p >= 0x8000_0000_0000);
    law_quotients_round_to_the_nearest(n * p, 1_000);
    law_quotients_round_to_the_nearest(10 * s, p);
    // In thousandths of a unit, both roundings together are off by less than a
    // tenth of a thousandth more than half a tenth.
    let exact = n * p;
    let held = s * 1_000;
    let shown = t * p;
    assert(2 * distance(held, exact) <= 1_000);
    assert(2 * distance(shown, 10 * s) <= p);
    assert(2 * distance(100 * shown, exact) <= 100 * p + 1_000);
    assert(100 * shown - exact == (100 * t - n) * p) by (nonlinear_arith)
        requires
            shown == t * p,
            exact == n * p,
    ;
    let off = 100 * t - n;
    assert(-51 < off < 51) by (nonlinear_arith)
        requires
            2 * (off * p) <= 100 * p + 1_000,
            -(2 * (off * p)) <= 100 * p + 1_000,
            p >= 0x8000_0000_0000,
    ;
    if n % 500 == 250 {
        let quarters = n / 250;
        assert(n == 250 * quarters);
        // The quotient is a number of quarters, which a double holds exactly.
        let quarter = pow2((scale - 2) as nat);
        lemma_pow2_adds((scale - 2) as nat, 2);
        assert(p == 4 * quarter) by {
            assert(pow2(2) == 4);
            assert(quarter * pow2(2) == 4 * quarter) by (nonlinear_arith)
                requires
                    pow2(2) == 4,
            ;
        }
        assert(n * p == 1_000 * (quarters * quarter)) by (nonlinear_arith)
            requires
                n == 250 * quarters,
                p == 4 * quarter,
        ;
        lemma_exact_quotient(quarters * quarter, 1_000);
        assert(s == quarters * quarter);
        assert(2 * distance(shown, 10 * s) == p) by {
            assert(10 * s == 10 * quarters * quarter) by (nonlinear_arith)
                requires
                    s == quarters * quarter,
            ;
            assert(shown == 4 * t * quarter) by (nonlinear_arith)
                requires
                    shown == t * p,
                    p == 4 * quarter,
            ;
            let gap = 4 * t - 10 * quarters;
            assert(shown - 10 * s == gap * quarter) by (nonlinear_arith)
                requires
                    shown == 4 * t * quarter,
                    10 * s == 10 * quarters * quarter,
                    gap == 4 * t - 10 * quarters,
            ;
            assert(quarters % 2 == 1);
            assert(gap % 4 == 2);
            assert(-2 <= gap <= 2) by (nonlinear_arith)
                requires
                    2 * (gap * quarter) <= 4 * quarter,
                    -(2 * (gap * quarter)) <= 4 * quarter,
                    quarter > 0,
            ;
            assert(gap == 2 || gap == -2);
            assert(2 * quarter == (2 * quarter) as int);
            assert(gap == 2 ==> gap * quarter == 2 * quarter) by (nonlinear_arith);
            assert(gap == -2 ==> gap * quarter == -(2 * quarter)) by (nonlinear_arith);
        }
    }
}

/// A quotient that is an integer is not rounded.
proof fn lemma_exact_quotient(q: nat, d: nat)
    requires
        d > 0,
    ensures
        half_even(d * q, d) == q,
{
    lemma_div_multiples_vanish(q as int, d as int);
    lemma_mod_multiples_basic(q as int, d as int);
    assert(q as int * d as int == d * q) by (nonlinear_arith);
}

/// A quotient is rounded twice: to the double nearest to it, of 53 bits, and that
/// to the nearest tenth; each time to the even one where two are equally near.
pub proof fn law_quotients_are_rounded_twice(n: nat, d: nat)
    requires
        d > 0,
        d <= n < 64 * d,
    ensures
        ({
            let unit = pow2(quotient_scale(n, d));
            let held = quotient_significand(n, d);
            let tenths = quotient_tenths(n, d);
            &&& 0x10_0000_0000_0000 * d <= n * unit < 0x20_0000_0000_0000 * d
            &&& 2 * distance(held * d, n * unit) <= d
            &&& 2 * distance(held * d, n * unit) == d ==> held % 2 == 0
            &&& 2 * distance(tenths * unit, 10 * held) <= unit
            &&& 2 * distance(tenths * unit, 10 * held) == unit ==> tenths % 2 == 0
        }),
{
    lemma2_to64();
    lemma2_to64_rest();
    let unit = pow2(quotient_scale(n, d));
    law_quotients_round_to_the_nearest(n * unit, d);
    law_quotients_round_to_the_nearest(10 * quotient_significand(n, d), unit);
    let scale = quotient_scale(n, d);
    if scale == 52 {
        assert(n * unit == 0x10_0000_0000_0000 * n) by (nonlinear_arith)
            requires
                unit == 0x10_0000_0000_0000,
        ;
    } else if scale == 51 {
        assert(n * unit == 0x8_0000_0000_0000 * n) by (nonlinear_arith)
            requires
                unit == 0x8_0000_0000_0000,
        ;
    } else if scale == 50 {
        assert(n * unit == 0x4_0000_0000_0000 * n) by (nonlinear_arith)
            requires
                unit == 0x4_0000_0000_0000,
        ;
    } else if scale == 49 {
        assert(n * unit == 0x2_0000_0000_0000 * n) by (nonlinear_arith)
            requires
                unit == 0x2_0000_0000_0000,
        ;
    } else if scale == 48 {
        assert(n * unit == 0x1_0000_0000_0000 * n) by (nonlinear_arith)
            requires
                unit == 0x1_0000_0000_0000,
        ;
    } else {
        assert(n * unit == 0x8000_0000_0000 * n) by (nonlinear_arith)
            requires
                unit == 0x8000_0000_0000,
        ;
    }
}

/// A number of bytes, as a double holds it, is shown to the nearest tenth of a GiB,
/// and to the even one where two are equally near.
pub proof fn law_bytes_round_to_tenths(bytes: nat)
    ensures
        2 * distance(0x4000_0000 * gib_tenths(bytes), 10 * significant(bytes)) <= 0x4000_0000,
        2 * distance(0x4000_0000 * gib_tenths(bytes), 10 * significant(bytes)) == 0x4000_0000
            ==> gib_tenths(bytes) % 2 == 0,
        bytes < 0x20_0000_0000_0000 ==> significant(bytes) == bytes,
{
    law_doubles_hold_53_bits(bytes);
    law_quotients_round_to_the_nearest(10 * significant(bytes), 0x4000_0000);
}

} // verus!
