//! Verified utilities: proof-of-work sizing, minimum of fixed-point errors,
//! powers of two, and human-readable size rendering.

use vstd::prelude::*;
use vstd::arithmetic::power2::pow2;

use crate::fixed::FP_ONE;
use crate::fixed::UNBOUNDED_ERROR_FP;

verus! {

/// The proof-of-work bits that lift an error of `error` fixed-point bits up
/// to `security_level` whole bits: max(0, security_level - error).
pub open spec fn spec_pow_util(security_level: int, error: int) -> int {
    if security_level * FP_ONE - error >= 0 {
        security_level * FP_ONE - error
    } else {
        0
    }
}

/// Converts an achieved error into the required proof-of-work bits:
/// max(0, security_level - error), in fixed point.
pub fn pow_util(security_level: usize, error: i64) -> (r: i64)
    requires
        security_level <= 0x10_0000,
        -UNBOUNDED_ERROR_FP <= error <= UNBOUNDED_ERROR_FP,
    ensures
        r == spec_pow_util(security_level as int, error as int),
{
    let target = (security_level as i64) * FP_ONE;
    if target - error >= 0 {
        target - error
    } else {
        0
    }
}

/// The smaller of two fixed-point error terms.
pub fn min_fp(a: i64, b: i64) -> (r: i64)
    ensures
        r == if a <= b {
            a as int
        } else {
            b as int
        },
{
    if a <= b {
        a
    } else {
        b
    }
}

/// 2^e as a machine word.
#[verifier::loop_isolation(false)]
pub fn pow2_usize(e: usize) -> (r: usize)
    requires
        pow2(e as nat) <= usize::MAX,
    ensures
        r == pow2(e as nat),
{
    let mut r: usize = 1;
    let mut j: usize = 0;
    proof {
        vstd::arithmetic::power2::lemma2_to64();
    }
    while j < e
        invariant
            j <= e,
            r == pow2(j as nat),
            pow2(e as nat) <= usize::MAX,
        decreases e - j,
    {
        proof {
            assert(pow2(j as nat + 1) == 2 * pow2(j as nat)) by {
                vstd::arithmetic::power2::lemma_pow2_unfold(j as nat + 1);
            }
            assert(pow2(j as nat + 1) <= pow2(e as nat)) by {
                if j as nat + 1 < e as nat {
                    vstd::arithmetic::power2::lemma_pow2_strictly_increases(
                        j as nat + 1,
                        e as nat,
                    );
                }
            }
        }
        r = r * 2;
        j = j + 1;
    }
    r
}

/// 2^e as a u64.
#[verifier::loop_isolation(false)]
pub fn pow2_u64(e: u64) -> (r: u64)
    requires
        e <= 63,
    ensures
        r == pow2(e as nat),
{
    let mut r: u64 = 1;
    let mut j: u64 = 0;
    proof {
        vstd::arithmetic::power2::lemma2_to64();
        vstd::arithmetic::power2::lemma2_to64_rest();
    }
    while j < e
        invariant
            j <= e <= 63,
            r == pow2(j as nat),
        decreases e - j,
    {
        proof {
            assert(pow2(j as nat + 1) == 2 * pow2(j as nat)) by {
                vstd::arithmetic::power2::lemma_pow2_unfold(j as nat + 1);
            }
            assert(pow2(j as nat + 1) <= pow2(63)) by {
                if j as nat + 1 < 63 {
                    vstd::arithmetic::power2::lemma_pow2_strictly_increases(j as nat + 1, 63);
                }
            }
        }
        r = r * 2;
        j = j + 1;
    }
    r
}

/// The sum of the first n entries of a sequence of folding factors.
pub open spec fn spec_sum_prefix(s: Seq<usize>, n: int) -> int
    decreases n,
{
    if n <= 0 {
        0
    } else {
        spec_sum_prefix(s, n - 1) + s[n - 1]
    }
}

/// Prefix sums of machine words are nonnegative and monotone.
pub proof fn lemma_sum_prefix_mono(s: Seq<usize>, n: int, m: int)
    requires
        0 <= n <= m <= s.len(),
    ensures
        0 <= spec_sum_prefix(s, n) <= spec_sum_prefix(s, m),
    decreases m,
{
    if m > 0 {
        if n == m {
            lemma_sum_prefix_mono(s, n - 1, m - 1);
        } else {
            lemma_sum_prefix_mono(s, n, m - 1);
        }
    }
}

/// The character for one decimal digit.
pub open spec fn spec_digit_char(d: nat) -> char {
    if d == 0 {
        '0'
    } else if d == 1 {
        '1'
    } else if d == 2 {
        '2'
    } else if d == 3 {
        '3'
    } else if d == 4 {
        '4'
    } else if d == 5 {
        '5'
    } else if d == 6 {
        '6'
    } else if d == 7 {
        '7'
    } else if d == 8 {
        '8'
    } else {
        '9'
    }
}

/// The decimal rendering of a natural number.
pub open spec fn spec_decimal(n: nat) -> Seq<char>
    decreases n,
{
    if n < 10 {
        seq![spec_digit_char(n)]
    } else {
        spec_decimal(n / 10) + seq![spec_digit_char(n % 10)]
    }
}

/// The name of the i-th binary size unit.
pub open spec fn spec_size_unit(i: nat) -> Seq<char> {
    if i == 0 {
        seq!['B']
    } else if i == 1 {
        seq!['K', 'B']
    } else if i == 2 {
        seq!['M', 'B']
    } else if i == 3 {
        seq!['G', 'B']
    } else if i == 4 {
        seq!['T', 'B']
    } else if i == 5 {
        seq!['P', 'B']
    } else if i == 6 {
        seq!['E', 'B']
    } else if i == 7 {
        seq!['Z', 'B']
    } else {
        seq!['Y', 'B']
    }
}

/// The index of the unit a bit count is displayed in: the largest i such
/// that 8 * 1024^i <= bits, and 0 for fewer than 8 bits.
pub open spec fn spec_unit_index(bits: nat) -> nat
    decreases bits,
{
    if bits < 8192 {
        0
    } else {
        (1 + spec_unit_index(bits / 1024)) as nat
    }
}

/// The displayed scalar: bits / (8 * 1024^i), rounded half away from zero.
pub open spec fn spec_size_scalar(bits: nat) -> nat {
    let d = 8 * pow2(10 * spec_unit_index(bits));
    (2 * bits + d) / (2 * d)
}

/// The rendering of a bit count in an appropriate unit: the rounded scalar,
/// a space, and the unit name; zero bits render as "0B".
pub open spec fn spec_display_size(bits: nat) -> Seq<char> {
    if bits == 0 {
        seq!['0', 'B']
    } else {
        spec_decimal(spec_size_scalar(bits)) + seq![' '] + spec_size_unit(spec_unit_index(bits))
    }
}

/// One decimal digit as a string slice.
fn digit_str(d: u64) -> (r: &'static str)
    requires
        d < 10,
    ensures
        r@ == seq![spec_digit_char(d as nat)],
{
    proof {
        reveal_strlit("0");
        reveal_strlit("1");
        reveal_strlit("2");
        reveal_strlit("3");
        reveal_strlit("4");
        reveal_strlit("5");
        reveal_strlit("6");
        reveal_strlit("7");
        reveal_strlit("8");
        reveal_strlit("9");
    }
    let r = if d == 0 {
        "0"
    } else if d == 1 {
        "1"
    } else if d == 2 {
        "2"
    } else if d == 3 {
        "3"
    } else if d == 4 {
        "4"
    } else if d == 5 {
        "5"
    } else if d == 6 {
        "6"
    } else if d == 7 {
        "7"
    } else if d == 8 {
        "8"
    } else {
        "9"
    };
    proof {
        assert(r@ =~= seq![spec_digit_char(d as nat)]);
    }
    r
}

/// Renders a number in decimal.
pub fn u64_to_decimal(n: u64) -> (r: String)
    ensures
        r@ == spec_decimal(n as nat),
    decreases n,
{
    if n < 10 {
        let s = digit_str(n);
        let r = s.to_owned();
        proof {
            assert(r@ =~= spec_decimal(n as nat));
        }
        r
    } else {
        let mut r = u64_to_decimal(n / 10);
        r.append(digit_str(n % 10));
        proof {
            assert(r@ =~= spec_decimal(n as nat));
        }
        r
    }
}

/// The unit name for index i.
fn unit_str(i: u64) -> (r: &'static str)
    requires
        i <= 8,
    ensures
        r@ == spec_size_unit(i as nat),
{
    proof {
        reveal_strlit("B");
        reveal_strlit("KB");
        reveal_strlit("MB");
        reveal_strlit("GB");
        reveal_strlit("TB");
        reveal_strlit("PB");
        reveal_strlit("EB");
        reveal_strlit("ZB");
        reveal_strlit("YB");
    }
    let r = if i == 0 {
        "B"
    } else if i == 1 {
        "KB"
    } else if i == 2 {
        "MB"
    } else if i == 3 {
        "GB"
    } else if i == 4 {
        "TB"
    } else if i == 5 {
        "PB"
    } else if i == 6 {
        "EB"
    } else if i == 7 {
        "ZB"
    } else {
        "YB"
    };
    proof {
        assert(r@ =~= spec_size_unit(i as nat));
    }
    r
}

/// The bracket 8 * 1024^i <= bits < 8 * 1024^(i+1) pins the unit index.
proof fn lemma_unit_index_of_bracket(bits: nat, i: nat)
    requires
        8 * pow2(10 * i) <= bits < 8 * pow2(10 * (i + 1)),
    ensures
        spec_unit_index(bits) == i,
    decreases i,
{
    vstd::arithmetic::power2::lemma2_to64();
    if i == 0 {
    } else {
        assert(pow2(10 * i) == 1024 * pow2(10 * (i - 1) as nat)) by {
            vstd::arithmetic::power2::lemma_pow2_adds(10, (10 * i - 10) as nat);
        }
        assert(pow2(10 * (i + 1)) == 1024 * pow2(10 * i)) by {
            vstd::arithmetic::power2::lemma_pow2_adds(10, 10 * i);
        }
        assert(bits >= 8192) by {
            vstd::arithmetic::power2::lemma_pow2_pos(10 * (i - 1) as nat);
            assert(8 * (1024 * pow2(10 * (i - 1) as nat)) >= 8 * 1024) by {
                vstd::arithmetic::mul::lemma_mul_inequality(
                    1int,
                    pow2(10 * (i - 1) as nat) as int,
                    8192int,
                );
            }
        }
        assert(8 * pow2(10 * (i - 1) as nat) <= bits / 1024) by {
            vstd::arithmetic::div_mod::lemma_div_multiples_vanish(
                8 * pow2(10 * (i - 1) as nat) as int,
                1024,
            );
            vstd::arithmetic::div_mod::lemma_div_is_ordered(
                (8 * pow2(10 * i)) as int,
                bits as int,
                1024,
            );
        }
        assert(bits / 1024 < 8 * pow2(10 * i)) by {
            vstd::arithmetic::div_mod::lemma_multiply_divide_lt(
                bits as int,
                1024,
                (8 * pow2(10 * i)) as int,
            );
        }
        lemma_unit_index_of_bracket(bits / 1024, (i - 1) as nat);
    }
}

/// Converts a number of bits into an appropriate unit.
#[verifier::loop_isolation(false)]
pub fn display_size(bits: usize) -> (r: String)
    ensures
        r@ == spec_display_size(bits as nat),
{
    if bits == 0 {
        proof {
            reveal_strlit("0B");
            assert("0B"@ =~= spec_display_size(0));
        }
        return "0B".to_owned();
    }
    let b: u64 = bits as u64;
    let ghost bn = bits as nat;
    // Find the unit: the largest i with 8 * 1024^i <= bits.
    let mut d: u64 = 8;
    let mut i: u64 = 0;
    proof {
        vstd::arithmetic::power2::lemma2_to64();
        vstd::arithmetic::power2::lemma2_to64_rest();
    }
    while d <= b / 1024
        invariant
            d == 8 * pow2(10 * i as nat),
            i == 0 || d <= b,
            i <= 6,
        decreases b - i,
    {
        proof {
            let e = 10 * i as nat;
            assert(pow2(e + 10) == 1024 * pow2(e)) by {
                vstd::arithmetic::power2::lemma_pow2_adds(10, e);
            }
            assert((d * 1024) as nat <= bn) by {
                vstd::arithmetic::div_mod::lemma_fundamental_div_mod(b as int, 1024);
                vstd::arithmetic::mul::lemma_mul_inequality(d as int, (b / 1024) as int, 1024);
            }
            assert(i + 1 <= 6) by {
                if i + 1 > 6 {
                    assert(pow2(e + 10) > u64::MAX as nat) by {
                        if e + 10 > 73 {
                            vstd::arithmetic::power2::lemma_pow2_strictly_increases(73, e + 10);
                        }
                        assert(pow2(73) == pow2(64) * pow2(9)) by {
                            vstd::arithmetic::power2::lemma_pow2_adds(64, 9);
                        }
                    }
                    assert(8 * pow2(e + 10) > u64::MAX as nat);
                }
            }
        }
        d = d * 1024;
        i = i + 1;
    }
    proof {
        assert(bn < (d * 1024) as nat) by {
            vstd::arithmetic::div_mod::lemma_fundamental_div_mod(b as int, 1024);
        }
        assert(d * 1024 == 8 * pow2(10 * (i as nat + 1))) by {
            vstd::arithmetic::power2::lemma_pow2_adds(10 * i as nat, 10);
        }
        if i == 0 {
            assert(spec_unit_index(bn) == 0);
        } else {
            lemma_unit_index_of_bracket(bn, i as nat);
        }
        assert(spec_unit_index(bn) == i as nat);
    }
    // Round bits / d half away from zero.
    let num: u128 = 2 * (b as u128) + (d as u128);
    let den: u128 = 2 * (d as u128);
    let s128: u128 = num / den;
    proof {
        assert(d <= 8 * pow2(60)) by {
            if (10 * i as nat) < 60 {
                vstd::arithmetic::power2::lemma_pow2_strictly_increases(10 * i as nat, 60);
            }
        }
        assert(s128 <= num / 16) by {
            vstd::arithmetic::div_mod::lemma_div_is_ordered_by_denominator(
                num as int,
                16,
                den as int,
            );
        }
        assert(num / 16 < 0x1_0000_0000_0000_0000) by {
            vstd::arithmetic::div_mod::lemma_multiply_divide_lt(
                num as int,
                16,
                0x1_0000_0000_0000_0000,
            );
        }
    }
    let s: u64 = s128 as u64;
    proof {
        assert(s as nat == spec_size_scalar(bn));
    }
    let mut r = u64_to_decimal(s);
    proof {
        reveal_strlit(" ");
    }
    r.append(" ");
    r.append(unit_str(i));
    proof {
        assert(" "@ =~= seq![' ']);
        assert(r@ =~= spec_display_size(bn));
    }
    r
}

} // verus!
