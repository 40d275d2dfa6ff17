//! Double-precision results, computed with integers.
//!
//! A double of magnitude at least `2^52` units holds 53 significant bits, and
//! an operation on doubles gives the double nearest to the exact result, the
//! one with an even significand where two are equally near. The functions
//! here compute such results exactly.

use vstd::arithmetic::div_mod::*;
use vstd::arithmetic::mul::*;
use vstd::arithmetic::power2::*;
use vstd::prelude::*;

verus! {

/// The integer nearest to `n / d`, the even one where two are equally near.
pub open spec fn half_even(n: nat, d: nat) -> nat {
    if 2 * (n % d) < d || (2 * (n % d) == d && (n / d) % 2 == 0) {
        n / d
    } else {
        n / d + 1
    }
}

/// The scale at which a quotient in `[1, 64)` has a 53-bit significand.
pub open spec fn quotient_scale(n: nat, d: nat) -> nat {
    if n < 2 * d {
        52
    } else if n < 4 * d {
        51
    } else if n < 8 * d {
        50
    } else if n < 16 * d {
        49
    } else if n < 32 * d {
        48
    } else {
        47
    }
}

/// The significand of the double nearest to a quotient in `[1, 64)`, in units
/// of `2^-quotient_scale`.
pub open spec fn quotient_significand(n: nat, d: nat) -> nat {
    half_even(n * pow2(quotient_scale(n, d)), d)
}

/// The double nearest to a quotient in `[1, 64)`, to the nearest tenth.
pub open spec fn quotient_tenths(n: nat, d: nat) -> nat {
    half_even(10 * quotient_significand(n, d), pow2(quotient_scale(n, d)))
}

/// How many low bits of an integer lie below its 53 leading ones.
pub open spec fn excess_bits(n: nat) -> nat
    decreases n,
{
    if n < 0x20_0000_0000_0000 {
        0
    } else {
        1 + excess_bits(n / 2)
    }
}

/// The integer with at most 53 significant bits that is nearest to `n`.
pub open spec fn significant(n: nat) -> nat {
    half_even(n, pow2(excess_bits(n))) * pow2(excess_bits(n))
}

/// The number of GiB in `bytes` bytes, as a double, to the nearest tenth.
pub open spec fn gib_tenths(bytes: nat) -> nat {
    half_even(10 * significant(bytes), 0x4000_0000)
}

/// The biased exponent of a double.
pub open spec fn exponent_field(bits: u64) -> nat {
    ((bits / 0x10_0000_0000_0000) % 0x800) as nat
}

/// The fraction bits of a double.
pub open spec fn fraction_field(bits: u64) -> nat {
    (bits % 0x10_0000_0000_0000) as nat
}

/// Whether a double has its sign bit set.
pub open spec fn is_negative(bits: u64) -> bool {
    bits >= 0x8000_0000_0000_0000
}

/// Whether a double is not a number.
pub open spec fn is_nan(bits: u64) -> bool {
    exponent_field(bits) == 0x7ff && fraction_field(bits) != 0
}

/// The significand of a double, in units of `2^exponent_of`.
pub open spec fn significand_of(bits: u64) -> nat {
    if exponent_field(bits) == 0 {
        fraction_field(bits)
    } else {
        fraction_field(bits) + 0x10_0000_0000_0000
    }
}

/// The exponent of the unit of a double's significand.
pub open spec fn exponent_of(bits: u64) -> int {
    if exponent_field(bits) == 0 {
        -1074
    } else {
        exponent_field(bits) - 1075
    }
}

/// The absolute value of an integer.
pub open spec fn magnitude(n: int) -> nat {
    if n < 0 {
        (-n) as nat
    } else {
        n as nat
    }
}

/// `n * 2^e`, rounded toward zero.
pub open spec fn scaled(n: nat, e: int) -> nat {
    if e >= 0 {
        n * pow2(e as nat)
    } else {
        n / pow2((-e) as nat)
    }
}

/// The integer nearest to `n` in the range of an `i64`.
pub open spec fn clamped(n: int) -> int {
    if n > i64::MAX {
        i64::MAX as int
    } else if n < i64::MIN {
        i64::MIN as int
    } else {
        n
    }
}

/// The product of the double given by `bits` and the double nearest to
/// `factor`, rounded to a double and then toward zero to the range of an
/// `i64`; zero for what is not a number.
pub open spec fn truncated_product(bits: u64, factor: int) -> int {
    let product = significant(significand_of(bits) * significant(magnitude(factor)));
    let size = scaled(product, exponent_of(bits)) as int;
    if is_nan(bits) {
        0
    } else if is_negative(bits) != (factor < 0) {
        clamped(-size)
    } else {
        clamped(size)
    }
}

/// The quotient to the nearest integer, ties to even.
fn half_even_u128(n: u128, d: u128) -> (r: u128)
    requires
        0 < d < 0x4000_0000_0000_0000_0000_0000_0000_0000,
        n < 0x4000_0000_0000_0000_0000_0000_0000_0000,
    ensures
        r == half_even(n as nat, d as nat),
{
    let quotient: u128 = n / d;
    let rest: u128 = n % d;
    proof {
        lemma_div_is_ordered_by_denominator(n as int, 1, d as int);
    }
    if 2 * rest < d || (2 * rest == d && quotient % 2 == 0) {
        quotient
    } else {
        quotient + 1
    }
}

/// The double nearest to `n / d`, to the nearest tenth, for a quotient in
/// `[1, 64)`.
pub fn tenths_of_quotient(n: u64, d: u64) -> (r: u64)
    requires
        0 < d <= 0xffff,
        d <= n < 64 * d,
    ensures
        r == quotient_tenths(n as nat, d as nat),
{
    let scale: u128 = if n < 2 * d {
        0x10_0000_0000_0000
    } else if n < 4 * d {
        0x8_0000_0000_0000
    } else if n < 8 * d {
        0x4_0000_0000_0000
    } else if n < 16 * d {
        0x2_0000_0000_0000
    } else if n < 32 * d {
        0x1_0000_0000_0000
    } else {
        0x8000_0000_0000
    };
    proof {
        lemma2_to64();
        lemma2_to64_rest();
        assert(scale == pow2(quotient_scale(n as nat, d as nat)));
        assert(n * scale < 0x400000 * 0x10_0000_0000_0001) by (nonlinear_arith)
            requires
                0 <= n < 0x400000,
                0 <= scale <= 0x10_0000_0000_0000,
        ;
    }
    let significand: u128 = half_even_u128(n as u128 * scale, d as u128);
    proof {
        lemma_div_is_ordered_by_denominator((n * scale) as int, 1, d as int);
    }
    let tenths: u128 = half_even_u128(10 * significand, scale);
    proof {
        // The quotient is below 64, so its double is at most 64.
        assert(n * scale <= (64 * d - 1) * scale) by (nonlinear_arith)
            requires
                n <= 64 * d - 1,
                0 <= scale,
        ;
        assert((64 * d - 1) * scale <= d * (64 * scale)) by (nonlinear_arith)
            requires
                0 <= scale,
        ;
        lemma_div_is_ordered((n * scale) as int, d * (64 * scale), d as int);
        lemma_div_multiples_vanish((64 * scale) as int, d as int);
        assert(significand <= 64 * scale + 1);
        lemma_div_is_ordered(10 * significand as int, scale * 641, scale as int);
        lemma_div_multiples_vanish(641, scale as int);
        assert(tenths <= 642);
    }
    tenths as u64
}

/// The unit of the last of the 53 leading bits of `n`.
fn last_place(n: u128) -> (unit: u128)
    ensures
        unit == pow2(excess_bits(n as nat)),
        0 < unit,
        unit == 1 || unit <= n,
{
    let mut rest: u128 = n;
    let mut unit: u128 = 1;
    let ghost mut dropped: nat = 0;
    proof {
        lemma2_to64();
    }
    while rest >= 0x20_0000_0000_0000
        invariant
            unit == pow2(dropped),
            0 < unit,
            unit * rest <= n,
            unit == 1 || rest >= 1,
            excess_bits(n as nat) == dropped + excess_bits(rest as nat),
        decreases rest,
    {
        proof {
            assert(2 * unit <= unit * rest) by (nonlinear_arith)
                requires
                    rest >= 2,
                    unit >= 0,
            ;
            assert((2 * unit) * (rest / 2) <= unit * rest) by (nonlinear_arith)
                requires
                    2 * (rest / 2) <= rest,
                    unit >= 0,
            ;
            lemma_pow2_unfold(dropped + 1);
            dropped = dropped + 1;
        }
        rest = rest / 2;
        unit = 2 * unit;
    }
    proof {
        if rest >= 1 {
            assert(unit <= unit * rest) by (nonlinear_arith)
                requires
                    rest >= 1,
                    unit >= 0,
            ;
        }
    }
    unit
}

/// The number as a double holds it.
fn significant_u128(n: u128) -> (r: u128)
    requires
        n < 0x20_0000_0000_0000_0000_0000_0000_0000,
    ensures
        r == significant(n as nat),
        r <= 2 * n,
{
    let unit: u128 = last_place(n);
    let units: u128 = half_even_u128(n, unit);
    proof {
        let q = (n / unit) as int;
        lemma_fundamental_div_mod(n as int, unit as int);
        assert(unit * q <= n) by {
            lemma_mul_is_commutative(unit as int, q);
        }
        assert(units <= q + 1);
        lemma_div_basics(n as int);
        if unit == 1 {
            assert(n as nat % unit as nat == 0);
            assert(n as nat / unit as nat == n);
            assert(units * unit == n) by (nonlinear_arith)
                requires
                    unit == 1,
                    units == n,
            ;
        } else {
            assert(units * unit <= unit * q + unit) by (nonlinear_arith)
                requires
                    units <= q + 1,
                    unit >= 0,
            ;
        }
    }
    units * unit
}

/// The number of GiB in `bytes` bytes, as a double, to the nearest tenth.
pub fn tenths_of_gib(bytes: u64) -> (r: u64)
    ensures
        r == gib_tenths(bytes as nat),
{
    let exact: u128 = significant_u128(bytes as u128);
    let tenths: u128 = half_even_u128(10 * exact, 0x4000_0000);
    tenths as u64
}

/// `2^e` for a small exponent.
fn power_of_two(e: u32) -> (r: u128)
    requires
        e < 128,
    ensures
        r == pow2(e as nat),
{
    let mut power: u128 = 1;
    let mut i: u32 = 0;
    proof {
        lemma2_to64();
    }
    while i < e
        invariant
            i <= e,
            e < 128,
            power == pow2(i as nat),
        decreases e - i,
    {
        proof {
            lemma_pow2_unfold((i + 1) as nat);
            lemma_pow2_below((i + 1) as nat);
        }
        power = 2 * power;
        i = i + 1;
    }
    power
}

/// Small powers of two fit.
proof fn lemma_pow2_below(e: nat)
    requires
        e < 128,
    ensures
        pow2(e) <= 0x8000_0000_0000_0000_0000_0000_0000_0000,
{
    lemma2_to64();
    lemma2_to64_rest();
    if e <= 64 {
        if e < 64 {
            lemma_pow2_strictly_increases(e, 64);
        }
    } else {
        lemma_pow2_adds(64, (e - 64) as nat);
        if e < 127 {
            lemma_pow2_strictly_increases((e - 64) as nat, 63);
        }
        assert(pow2(64) * pow2((e - 64) as nat) <= pow2(64) * pow2(63)) by (nonlinear_arith)
            requires
                0 <= pow2((e - 64) as nat) <= pow2(63),
                0 <= pow2(64),
        ;
    }
}

/// `n * 2^e` rounded toward zero, up to a limit that no `i64` reaches.
fn scaled_u128(n: u128, e: i32) -> (r: u128)
    requires
        n < 0x40_0000_0000_0000_0000_0000_0000_0000,
        -1074 <= e <= 972,
    ensures
        r == scaled(n as nat, e as int) || (r >= 0x8000_0000_0000_0000 && scaled(
            n as nat,
            e as int,
        ) >= 0x8000_0000_0000_0000),
{
    proof {
        lemma2_to64();
        lemma2_to64_rest();
    }
    if n == 0 {
        proof {
            if e < 0 {
                lemma_pow2_pos((-e) as nat);
                lemma_div_basics((pow2((-e) as nat)) as int);
            }
        }
        return 0;
    }
    if e >= 0 {
        if e >= 63 || n >= 0x8000_0000_0000_0000 {
            proof {
                if e > 63 {
                    lemma_pow2_strictly_increases(63, e as nat);
                }
                lemma_pow2_pos(e as nat);
                assert(n * pow2(e as nat) >= 0x8000_0000_0000_0000) by (nonlinear_arith)
                    requires
                        n >= 1,
                        pow2(e as nat) >= 1,
                        n >= 0x8000_0000_0000_0000 || pow2(e as nat) >= 0x8000_0000_0000_0000,
                ;
            }
            return 0x8000_0000_0000_0000;
        }
        proof {
            lemma_pow2_strictly_increases(e as nat, 63);
            assert(n * pow2(e as nat) <= 0x8000_0000_0000_0000 * 0x8000_0000_0000_0000)
                by (nonlinear_arith)
                requires
                    0 <= n < 0x8000_0000_0000_0000,
                    0 <= pow2(e as nat) < 0x8000_0000_0000_0000,
            ;
        }
        n * power_of_two(e as u32)
    } else if e <= -120 {
        proof {
            lemma_pow2_adds(60, 60);
            if e < -120 {
                lemma_pow2_strictly_increases(120, (-e) as nat);
            }
            lemma_basic_div(n as int, pow2((-e) as nat) as int);
        }
        0
    } else {
        proof {
            lemma_pow2_pos((-e) as nat);
        }
        n / power_of_two((-e) as u32)
    }
}

/// The product of the double given by `bits` and the double nearest to
/// `factor`, rounded to a double and then toward zero to the range of an
/// `i64`; zero for what is not a number.
pub fn truncate_product(bits: u64, factor: i64) -> (r: i64)
    ensures
        r == truncated_product(bits, factor as int),
{
    let field: u64 = (bits / 0x10_0000_0000_0000) % 0x800;
    let fraction: u64 = bits % 0x10_0000_0000_0000;
    if field == 0x7ff && fraction != 0 {
        return 0;
    }
    let significand: u128 = if field == 0 {
        fraction as u128
    } else {
        fraction as u128 + 0x10_0000_0000_0000
    };
    let exponent: i32 = if field == 0 {
        -1074
    } else {
        field as i32 - 1075
    };
    let size: u128 = if factor < 0 {
        (0 - factor as i128) as u128
    } else {
        factor as u128
    };
    let whole: u128 = significant_u128(size);
    proof {
        assert(significand * whole < 0x20_0000_0000_0000_0000_0000_0000_0000) by (nonlinear_arith)
            requires
                0 <= significand < 0x20_0000_0000_0000,
                0 <= whole <= 0x1_0000_0000_0000_0000,
        ;
    }
    let product: u128 = significant_u128(significand * whole);
    let result: u128 = scaled_u128(product, exponent);
    if (bits >= 0x8000_0000_0000_0000) != (factor < 0) {
        if result >= 0x8000_0000_0000_0000 {
            i64::MIN
        } else {
            (0 - result as i128) as i64
        }
    } else if result > 0x7fff_ffff_ffff_ffff {
        i64::MAX
    } else {
        result as i64
    }
}

} // verus!
