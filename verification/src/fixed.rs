//! Fixed-point arithmetic for soundness quantities.
//!
//! Every soundness quantity in this crate is a signed fractional number of
//! bits on a log2 scale. Such a quantity is represented as an `i64` holding
//! the quantity scaled by `FP_ONE` = 2^16, so the resolution is 2^-16 bits.
//! Negative values denote over-spend of a security budget.
//!
//! The module provides the transcendental ingredient the formulas need:
//! [`log2_fp`], a fixed-point binary logarithm of an integer whose integer
//! part is exact and whose 16 fraction bits are the leading binary digits of
//! the fractional part, extracted by the classical repeated-squaring method.

use vstd::prelude::*;
use vstd::arithmetic::power2::pow2;

verus! {

/// One bit, in fixed-point representation: all quantities are scaled by 2^16.
pub const FP_ONE: i64 = 65536;

/// Fixed-point log2(10), rounded down to the resolution.
pub const LOG2_10_FP: i64 = 217705;

/// Fixed-point log2(21/20), rounded to the resolution.
pub const LOG2_21_OVER_20_FP: i64 = 4613;

/// Fixed-point log2(3), rounded down to the resolution.
pub const LOG2_3_FP: i64 = 103872;

/// Stands for an error term of 2^-x with x beyond any finite budget (the
/// log2 of a vanishing probability, such as combining zero or one function).
/// It exceeds every finite error the derivations produce, is absorbing under
/// minimum, and demands no proof of work.
pub const UNBOUNDED_ERROR_FP: i64 = 0x4000_0000_0000_0000;

/// A whole number of bits, in fixed point: x * 2^16.
pub open spec fn fp(x: int) -> int {
    65536 * x
}

/// The integer part of log2(m): the position of the leading binary digit.
pub open spec fn log2_floor(m: nat) -> nat
    decreases m,
{
    if m < 2 {
        0
    } else {
        (1 + log2_floor(m / 2)) as nat
    }
}

/// ceil(log2 n): the integer part of log2, plus one unless n is an exact
/// power of two (or at most 1).
pub open spec fn log2_ceil(n: nat) -> nat {
    if n <= 1 {
        0
    } else if pow2(log2_floor(n)) == n {
        log2_floor(n)
    } else {
        log2_floor(n) + 1
    }
}

/// ceil(log2 n) as a machine word.
#[verifier::loop_isolation(false)]
pub fn log2_ceil_usize(n: usize) -> (r: usize)
    ensures
        r == log2_ceil(n as nat),
{
    if n <= 1 {
        return 0;
    }
    let ghost mn = n as nat;
    let mut k: usize = 0;
    let mut t: usize = n;
    proof {
        vstd::arithmetic::power2::lemma2_to64();
    }
    while t >= 2
        invariant
            1 <= t,
            t == mn / pow2(k as nat),
            log2_floor(mn) == k + log2_floor(t as nat),
            pow2(k as nat) <= mn <= usize::MAX,
        decreases t,
    {
        proof {
            vstd::arithmetic::power2::lemma_pow2_pos(k as nat);
            assert(pow2(k as nat + 1) == pow2(k as nat) * 2) by {
                vstd::arithmetic::power2::lemma_pow2_unfold(k as nat + 1);
            }
            assert(mn / pow2(k as nat) / 2 == mn / pow2(k as nat + 1)) by {
                vstd::arithmetic::div_mod::lemma_div_denominator(mn as int, pow2(k as nat) as int, 2);
            }
            assert(pow2(k as nat + 1) <= mn) by {
                assert(mn / pow2(k as nat + 1) >= 1);
                vstd::arithmetic::div_mod::lemma_div_pos_is_pos(mn as int, pow2(k as nat + 1) as int);
                if pow2(k as nat + 1) > mn {
                    vstd::arithmetic::div_mod::lemma_basic_div(mn as int, pow2(k as nat + 1) as int);
                }
            }
            assert(k + 1 <= 63) by {
                if k + 1 > 63 {
                    assert(pow2(k as nat + 1) > usize::MAX as nat) by {
                        vstd::arithmetic::power2::lemma2_to64_rest();
                        if k as nat + 1 > 64 {
                            vstd::arithmetic::power2::lemma_pow2_strictly_increases(
                                64,
                                k as nat + 1,
                            );
                        }
                    }
                }
            }
        }
        t = t / 2;
        k = k + 1;
    }
    proof {
        assert(log2_floor(1) == 0);
        assert(log2_floor(mn) == k as nat);
        assert(k < usize::MAX) by {
            lemma_log2_floor_bracket(mn);
            if k >= 64 {
                vstd::arithmetic::power2::lemma2_to64_rest();
                if k as nat > 64 {
                    vstd::arithmetic::power2::lemma_pow2_strictly_increases(64, k as nat);
                }
            }
        }
    }
    let p = crate::utils::pow2_usize(k);
    if p == n {
        k
    } else {
        k + 1
    }
}

/// The value m scaled into [2^31, 2^32): its leading 32 binary digits.
pub open spec fn mantissa(m: nat) -> nat {
    let k = log2_floor(m);
    if k <= 31 {
        m * pow2((31 - k) as nat)
    } else {
        m / pow2((k - 31) as nat)
    }
}

/// The first `i` binary digits of the fractional part of log2(x / 2^31),
/// for x in [2^31, 2^32), by repeated squaring with 31 fraction bits kept.
pub open spec fn log2_frac(x: nat, i: nat) -> nat
    decreases i,
{
    if i == 0 {
        0
    } else {
        let y = (x * x) / 0x8000_0000;
        if y >= 0x1_0000_0000 {
            (pow2((i - 1) as nat) + log2_frac(y / 2, (i - 1) as nat)) as nat
        } else {
            log2_frac(y, (i - 1) as nat)
        }
    }
}

/// Fixed-point log2(m): exact integer part, 16 truncated fraction digits.
pub open spec fn log2_fp_spec(m: nat) -> int {
    65536 * (log2_floor(m) as int) + log2_frac(mantissa(m), 16)
}

/// The fraction digits stay below one whole bit.
pub proof fn lemma_log2_frac_bound(x: nat, i: nat)
    ensures
        log2_frac(x, i) < pow2(i),
    decreases i,
{
    vstd::arithmetic::power2::lemma_pow2_pos(i);
    if i != 0 {
        let y = (x * x) / 0x8000_0000;
        vstd::arithmetic::power2::lemma_pow2_unfold(i);
        if y >= 0x1_0000_0000 {
            lemma_log2_frac_bound(y / 2, (i - 1) as nat);
        } else {
            lemma_log2_frac_bound(y, (i - 1) as nat);
        }
    }
}

/// The integer part is characterized by the usual bracket.
pub proof fn lemma_log2_floor_bracket(m: nat)
    requires
        m >= 1,
    ensures
        pow2(log2_floor(m)) <= m < pow2(log2_floor(m) + 1),
    decreases m,
{
    if m < 2 {
        assert(pow2(0) == 1 && pow2(1) == 2) by {
            vstd::arithmetic::power2::lemma2_to64();
        }
    } else {
        lemma_log2_floor_bracket(m / 2);
        let k = log2_floor(m / 2);
        assert(pow2(k + 1) == 2 * pow2(k)) by {
            vstd::arithmetic::power2::lemma_pow2_unfold(k + 1);
        }
        assert(pow2(k + 2) == 2 * pow2(k + 1)) by {
            vstd::arithmetic::power2::lemma_pow2_unfold(k + 2);
        }
    }
}

/// Converse: a bracketed value has that integer log2.
pub proof fn lemma_log2_floor_of_bracket(m: nat, k: nat)
    requires
        pow2(k) <= m < pow2(k + 1),
    ensures
        log2_floor(m) == k,
{
    vstd::arithmetic::power2::lemma_pow2_pos(k);
    lemma_log2_floor_bracket(m);
    let j = log2_floor(m);
    if j < k {
        assert(pow2(j + 1) <= pow2(k)) by {
            if j + 1 < k {
                vstd::arithmetic::power2::lemma_pow2_strictly_increases(j + 1, k);
            }
        }
    }
    if j > k {
        assert(pow2(k + 1) <= pow2(j)) by {
            if k + 1 < j {
                vstd::arithmetic::power2::lemma_pow2_strictly_increases(k + 1, j);
            }
        }
    }
}

/// The fixed-point log2 has an exact integer part.
pub proof fn lemma_log2_fp_bracket(m: nat)
    requires
        m >= 1,
    ensures
        65536 * log2_floor(m) <= log2_fp_spec(m) < 65536 * (log2_floor(m) + 1),
{
    lemma_log2_frac_bound(mantissa(m), 16);
    assert(pow2(16) == 65536) by {
        vstd::arithmetic::power2::lemma2_to64();
    }
}

/// The fraction digits of an exact power of two are all zero.
pub proof fn lemma_log2_frac_one(i: nat)
    ensures
        log2_frac(0x8000_0000, i) == 0,
    decreases i,
{
    if i != 0 {
        assert((0x8000_0000 * 0x8000_0000) / 0x8000_0000 == 0x8000_0000nat);
        lemma_log2_frac_one((i - 1) as nat);
    }
}

/// On an exact power of two the fixed-point log2 is exact.
pub proof fn lemma_log2_fp_pow2(e: nat)
    ensures
        log2_fp_spec(pow2(e)) == 65536 * e,
{
    let m = pow2(e);
    vstd::arithmetic::power2::lemma_pow2_pos(e);
    vstd::arithmetic::power2::lemma_pow2_strictly_increases(e, e + 1);
    lemma_log2_floor_of_bracket(m, e);
    vstd::arithmetic::power2::lemma2_to64();
    if e <= 31 {
        assert(m * pow2((31 - e) as nat) == 0x8000_0000) by {
            vstd::arithmetic::power2::lemma_pow2_adds(e, (31 - e) as nat);
        }
    } else {
        let d = pow2((e - 31) as nat);
        vstd::arithmetic::power2::lemma_pow2_pos((e - 31) as nat);
        assert(m == 0x8000_0000 * d) by {
            vstd::arithmetic::power2::lemma_pow2_adds(31, (e - 31) as nat);
        }
        assert(m / d == 0x8000_0000) by {
            vstd::arithmetic::div_mod::lemma_div_multiples_vanish(0x8000_0000, d as int);
        }
    }
    lemma_log2_frac_one(16);
}

/// The fraction digits are monotone in the mantissa.
pub proof fn lemma_log2_frac_monotone(x: nat, y: nat, i: nat)
    requires
        x <= y,
    ensures
        log2_frac(x, i) <= log2_frac(y, i),
    decreases i,
{
    if i != 0 {
        let a = (x * x) / 0x8000_0000;
        let b = (y * y) / 0x8000_0000;
        assert(x * x <= y * y) by {
            vstd::arithmetic::mul::lemma_mul_inequality(x as int, y as int, x as int);
            vstd::arithmetic::mul::lemma_mul_inequality(x as int, y as int, y as int);
        }
        assert(a <= b) by {
            vstd::arithmetic::div_mod::lemma_div_is_ordered(
                (x * x) as int,
                (y * y) as int,
                0x8000_0000,
            );
        }
        if a >= 0x1_0000_0000 {
            lemma_log2_frac_monotone(a / 2, b / 2, (i - 1) as nat);
            vstd::arithmetic::div_mod::lemma_div_is_ordered(a as int, b as int, 2);
        } else if b >= 0x1_0000_0000 {
            lemma_log2_frac_bound(a, (i - 1) as nat);
        } else {
            lemma_log2_frac_monotone(a, b, (i - 1) as nat);
        }
    }
}

/// The fraction digits of the mantissa 3/2 evaluate to log2(3/2) truncated
/// to the resolution.
#[verifier::rlimit(50)]
pub proof fn lemma_log2_frac_three_halves()
    ensures
        log2_frac(0xC000_0000, 16) == 38336,
{
    vstd::arithmetic::power2::lemma2_to64();
    assert(log2_frac(0xC0000000, 16) == 1 * pow2(15) + log2_frac(0x90000000, 15));
    assert(log2_frac(0x90000000, 15) == 0 * pow2(14) + log2_frac(0xA2000000, 14));
    assert(log2_frac(0xA2000000, 14) == 0 * pow2(13) + log2_frac(0xCD080000, 13));
    assert(log2_frac(0xCD080000, 13) == 1 * pow2(12) + log2_frac(0xA435D040, 12));
    assert(log2_frac(0xA435D040, 12) == 0 * pow2(11) + log2_frac(0xD2A9FC43, 11));
    assert(log2_frac(0xD2A9FC43, 11) == 1 * pow2(10) + log2_frac(0xAD5B52BC, 10));
    assert(log2_frac(0xAD5B52BC, 10) == 0 * pow2(9) + log2_frac(0xEAC91CCC, 9));
    assert(log2_frac(0xEAC91CCC, 9) == 1 * pow2(8) + log2_frac(0xD75446A3, 8));
    assert(log2_frac(0xD75446A3, 8) == 1 * pow2(7) + log2_frac(0xB51EAA64, 7));
    assert(log2_frac(0xB51EAA64, 7) == 1 * pow2(6) + log2_frac(0x8024609D, 6));
    assert(log2_frac(0x8024609D, 6) == 0 * pow2(5) + log2_frac(0x8048CB90, 5));
    assert(log2_frac(0x8048CB90, 5) == 0 * pow2(4) + log2_frac(0x8091C086, 4));
    assert(log2_frac(0x8091C086, 4) == 0 * pow2(3) + log2_frac(0x81242703, 3));
    assert(log2_frac(0x81242703, 3) == 0 * pow2(2) + log2_frac(0x824AE8D8, 2));
    assert(log2_frac(0x824AE8D8, 2) == 0 * pow2(1) + log2_frac(0x84A054CD, 1));
    assert(log2_frac(0x84A054CD, 1) == 0 * pow2(0) + log2_frac(0x896B77BB, 0));
}

/// Fixed-point log2 of 2^r + 1: between r bits and r + 3/4 bits.
///
/// This pins the unique-decoding query exponent log2((1 + 2^-r) / 2) away
/// from zero: see `errors`.
pub proof fn lemma_log2_fp_pow2_plus_one(r: nat)
    requires
        1 <= r <= 63,
    ensures
        65536 * r <= log2_fp_spec((pow2(r) + 1) as nat) <= 65536 * r + 49152,
{
    let m = (pow2(r) + 1) as nat;
    vstd::arithmetic::power2::lemma2_to64();
    vstd::arithmetic::power2::lemma_pow2_pos(r);
    vstd::arithmetic::power2::lemma_pow2_strictly_increases(0, r);
    assert(pow2(r + 1) == 2 * pow2(r)) by {
        vstd::arithmetic::power2::lemma_pow2_unfold(r + 1);
    }
    assert(pow2(r) <= m < pow2(r + 1));
    lemma_log2_floor_of_bracket(m, r);
    if r <= 31 {
        let s = pow2((31 - r) as nat);
        vstd::arithmetic::power2::lemma_pow2_pos((31 - r) as nat);
        assert(m * s == pow2(r) * s + s) by {
            vstd::arithmetic::mul::lemma_mul_is_distributive_add_other_way(
                s as int,
                pow2(r) as int,
                1,
            );
        }
        assert(pow2(r) * s == 0x8000_0000) by {
            vstd::arithmetic::power2::lemma_pow2_adds(r, (31 - r) as nat);
        }
        assert(s <= 0x4000_0000) by {
            if ((31 - r) as nat) < 30 {
                vstd::arithmetic::power2::lemma_pow2_strictly_increases((31 - r) as nat, 30);
            }
        }
        assert(log2_frac(mantissa(m), 16) <= log2_frac(0xC000_0000, 16)) by {
            lemma_log2_frac_monotone(mantissa(m), 0xC000_0000, 16);
        }
        lemma_log2_frac_three_halves();
    } else {
        let d = pow2((r - 31) as nat);
        vstd::arithmetic::power2::lemma_pow2_pos((r - 31) as nat);
        assert(pow2(r) == 0x8000_0000 * d) by {
            vstd::arithmetic::power2::lemma_pow2_adds(31, (r - 31) as nat);
        }
        assert(d >= 2) by {
            vstd::arithmetic::power2::lemma_pow2_strictly_increases(0, (r - 31) as nat);
        }
        assert(m / d == 0x8000_0000) by {
            vstd::arithmetic::div_mod::lemma_fundamental_div_mod_converse(
                m as int,
                d as int,
                0x8000_0000,
                1,
            );
        }
        lemma_log2_frac_one(16);
    }
    lemma_log2_frac_bound(mantissa(m), 16);
}

/// Fixed-point log2 of a positive integer.
///
/// The integer part of the result is exactly the position of the leading
/// binary digit; the 16 fraction bits are the leading truncated binary
/// digits of the fractional part of log2(m).
#[verifier::loop_isolation(false)]
pub fn log2_fp(m: u64) -> (r: i64)
    requires
        m >= 1,
    ensures
        r == log2_fp_spec(m as nat),
        0 <= r < 0x40_0000,
        65536 * log2_floor(m as nat) <= r < 65536 * (log2_floor(m as nat) + 1),
        forall|e: nat| m == pow2(e) ==> r == 65536 * e,
{
    proof {
        lemma_log2_fp_bracket(m as nat);
        assert forall|e: nat| m == pow2(e) implies log2_fp_spec(m as nat) == 65536 * e by {
            lemma_log2_fp_pow2(e);
        }
    }
    let ghost mn = m as nat;
    // Integer part: strip binary digits.
    let mut k: u64 = 0;
    let mut t: u64 = m;
    proof {
        vstd::arithmetic::power2::lemma2_to64();
    }
    while t >= 2
        invariant
            1 <= t,
            t == mn / pow2(k as nat),
            log2_floor(mn) == k + log2_floor(t as nat),
            pow2(k as nat) <= mn <= u64::MAX,
        decreases t,
    {
        proof {
            vstd::arithmetic::power2::lemma_pow2_pos(k as nat);
            assert(pow2(k as nat + 1) == pow2(k as nat) * 2) by {
                vstd::arithmetic::power2::lemma_pow2_unfold(k as nat + 1);
            }
            assert(mn / pow2(k as nat) / 2 == mn / pow2(k as nat + 1)) by {
                vstd::arithmetic::div_mod::lemma_div_denominator(
                    mn as int,
                    pow2(k as nat) as int,
                    2,
                );
            }
            assert(pow2(k as nat + 1) <= mn) by {
                assert(mn / pow2(k as nat + 1) >= 1);
                vstd::arithmetic::div_mod::lemma_div_pos_is_pos(mn as int, pow2(k as nat + 1) as int);
                if pow2(k as nat + 1) > mn {
                    vstd::arithmetic::div_mod::lemma_basic_div(mn as int, pow2(k as nat + 1) as int);
                }
            }
            assert(k + 1 <= 63) by {
                if k + 1 > 63 {
                    assert(pow2(k as nat + 1) > u64::MAX as nat) by {
                        vstd::arithmetic::power2::lemma2_to64_rest();
                        if k as nat + 1 > 64 {
                            vstd::arithmetic::power2::lemma_pow2_strictly_increases(
                                64,
                                k as nat + 1,
                            );
                        }
                    }
                }
            }
        }
        t = t / 2;
        k = k + 1;
    }
    proof {
        assert(log2_floor(1) == 0);
        assert(log2_floor(mn) == k as nat);
        lemma_log2_floor_bracket(mn);
        assert(pow2(k as nat) <= mn < pow2(k as nat + 1));
        assert(mn * pow2(0) == mn);
        assert(mn / pow2(0) == mn) by {
            vstd::arithmetic::div_mod::lemma_div_by_self(1);
        }
        assert(k <= 63) by {
            if k > 63 {
                vstd::arithmetic::power2::lemma2_to64_rest();
                if k as nat > 64 {
                    vstd::arithmetic::power2::lemma_pow2_strictly_increases(64, k as nat);
                }
            }
        }
    }
    // Mantissa: scale into [2^31, 2^32).
    let ghost kk = k as nat;
    let mut x: u64 = m;
    let mut j: u64 = k;
    if k <= 31 {
        while j < 31
            invariant
                kk <= j <= 31,
                x == mn * pow2((j - kk) as nat),
                pow2(j as nat) <= x < pow2(j as nat + 1),
            decreases 31 - j,
        {
            proof {
                vstd::arithmetic::power2::lemma2_to64();
                assert(x * 2 == mn * pow2((j + 1 - kk) as nat)) by {
                    vstd::arithmetic::power2::lemma_pow2_unfold((j + 1 - kk) as nat);
                    vstd::arithmetic::mul::lemma_mul_is_associative(
                        mn as int,
                        pow2((j - kk) as nat) as int,
                        2,
                    );
                }
                assert(pow2(j as nat + 1) == 2 * pow2(j as nat)) by {
                    vstd::arithmetic::power2::lemma_pow2_unfold(j as nat + 1);
                }
                assert(pow2(j as nat + 2) == 2 * pow2(j as nat + 1)) by {
                    vstd::arithmetic::power2::lemma_pow2_unfold(j as nat + 2);
                }
                assert(pow2(j as nat + 1) <= pow2(32)) by {
                    if j as nat + 1 < 32 {
                        vstd::arithmetic::power2::lemma_pow2_strictly_increases(j as nat + 1, 32);
                    }
                }
            }
            x = x * 2;
            j = j + 1;
        }
    } else {
        while j > 31
            invariant
                31 <= j <= kk,
                x == mn / pow2((kk - j) as nat),
                pow2(j as nat) <= x < pow2(j as nat + 1),
            decreases j,
        {
            proof {
                let e = (kk - j) as nat;
                vstd::arithmetic::power2::lemma_pow2_pos(e);
                assert(pow2(e + 1) == pow2(e) * 2) by {
                    vstd::arithmetic::power2::lemma_pow2_unfold(e + 1);
                }
                assert(mn / pow2(e) / 2 == mn / pow2(e + 1)) by {
                    vstd::arithmetic::div_mod::lemma_div_denominator(mn as int, pow2(e) as int, 2);
                }
                assert(pow2(j as nat) == 2 * pow2((j - 1) as nat)) by {
                    vstd::arithmetic::power2::lemma_pow2_unfold(j as nat);
                }
                assert(pow2(j as nat + 1) == 2 * pow2(j as nat)) by {
                    vstd::arithmetic::power2::lemma_pow2_unfold(j as nat + 1);
                }
            }
            x = x / 2;
            j = j - 1;
        }
    }
    proof {
        vstd::arithmetic::power2::lemma2_to64();
        assert(x == mantissa(mn));
    }
    // Fraction digits by repeated squaring.
    let ghost x31 = x as nat;
    let mut acc: u64 = 0;
    let mut i: u64 = 0;
    while i < 16
        invariant
            i <= 16,
            0x8000_0000 <= x < 0x1_0000_0000,
            acc < pow2(i as nat),
            log2_frac(x31, 16) == acc * pow2((16 - i) as nat) + log2_frac(
                x as nat,
                (16 - i) as nat,
            ),
        decreases 16 - i,
    {
        proof {
            vstd::arithmetic::power2::lemma2_to64();
            assert(x * x < 0x1_0000_0000_0000_0000) by {
                vstd::arithmetic::mul::lemma_mul_strict_inequality(
                    x as int,
                    0x1_0000_0000,
                    x as int,
                );
                vstd::arithmetic::mul::lemma_mul_inequality(x as int, 0xFFFF_FFFF, 0x1_0000_0000);
            }
            assert(x * x >= 0x4000_0000_0000_0000) by {
                vstd::arithmetic::mul::lemma_mul_inequality(0x8000_0000, x as int, x as int);
                vstd::arithmetic::mul::lemma_mul_inequality(0x8000_0000, x as int, 0x8000_0000);
            }
        }
        let y: u64 = (x * x) / 0x8000_0000;
        proof {
            let n = (16 - i) as nat;
            assert(pow2(n) == 2 * pow2((n - 1) as nat)) by {
                vstd::arithmetic::power2::lemma_pow2_unfold(n);
            }
            assert(pow2(i as nat + 1) == 2 * pow2(i as nat)) by {
                vstd::arithmetic::power2::lemma_pow2_unfold(i as nat + 1);
            }
            if y >= 0x1_0000_0000 {
                assert((acc * 2 + 1) * pow2((n - 1) as nat) == acc * pow2(n) + pow2(
                    (n - 1) as nat,
                )) by {
                    vstd::arithmetic::mul::lemma_mul_is_distributive_add_other_way(
                        pow2((n - 1) as nat) as int,
                        acc * 2,
                        1,
                    );
                    vstd::arithmetic::mul::lemma_mul_is_associative(
                        acc as int,
                        2,
                        pow2((n - 1) as nat) as int,
                    );
                }
            } else {
                assert((acc * 2) * pow2((n - 1) as nat) == acc * pow2(n)) by {
                    vstd::arithmetic::mul::lemma_mul_is_associative(
                        acc as int,
                        2,
                        pow2((n - 1) as nat) as int,
                    );
                }
            }
        }
        if y >= 0x1_0000_0000 {
            acc = acc * 2 + 1;
            x = y / 2;
        } else {
            acc = acc * 2;
            x = y;
        }
        i = i + 1;
    }
    proof {
        vstd::arithmetic::power2::lemma2_to64();
        assert(log2_frac(x as nat, 0) == 0);
        assert(acc * pow2(0) == acc);
    }
    k as i64 * 65536 + acc as i64
}

} // verus!
