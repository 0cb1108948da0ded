//! Numbers that are not 32-bit integers are carried as IEEE-754 binary64 bit
//! patterns. This module reads such a pattern with integer arithmetic only.

use vstd::prelude::*;
use vstd::arithmetic::div_mod::{
    lemma_basic_div, lemma_div_is_ordered, lemma_div_is_ordered_by_denominator,
    lemma_fundamental_div_mod, lemma_mod_multiples_basic, lemma_mod_multiples_vanish,
    lemma_mul_mod_noop_left, lemma_multiply_divide_lt, lemma_small_mod,
};
use vstd::arithmetic::power2::{
    lemma2_to64, lemma2_to64_rest, lemma_pow2_adds, lemma_pow2_pos, lemma_pow2_strictly_increases,
    pow2,
};
use vstd::bits::{lemma_u64_shl_is_mul, lemma_u64_shr_is_div};

verus! {

/// Sign bit of a binary64 pattern.
pub open spec fn sign_bit(bits: u64) -> bool {
    bits >> 63 == 1
}

/// Biased exponent field of a binary64 pattern (11 bits).
pub open spec fn exponent_field(bits: u64) -> u64 {
    (bits >> 52) & 0x7ff
}

/// Fraction field of a binary64 pattern (52 bits).
pub open spec fn fraction_field(bits: u64) -> u64 {
    bits & 0xf_ffff_ffff_ffff
}

/// The pattern is a NaN.
pub open spec fn is_nan(bits: u64) -> bool {
    exponent_field(bits) == 0x7ff && fraction_field(bits) != 0
}

/// The pattern is positive or negative infinity.
pub open spec fn is_infinite(bits: u64) -> bool {
    exponent_field(bits) == 0x7ff && fraction_field(bits) == 0
}

/// The pattern is neither a NaN nor an infinity.
pub open spec fn is_finite(bits: u64) -> bool {
    exponent_field(bits) != 0x7ff
}

/// The pattern is positive or negative zero.
pub open spec fn is_zero(bits: u64) -> bool {
    exponent_field(bits) == 0 && fraction_field(bits) == 0
}

pub fn double_is_nan(bits: u64) -> (r: bool)
    ensures
        r == is_nan(bits),
{
    ((bits >> 52) & 0x7ff) == 0x7ff && (bits & 0xf_ffff_ffff_ffff) != 0
}

pub fn double_is_finite(bits: u64) -> (r: bool)
    ensures
        r == is_finite(bits),
{
    ((bits >> 52) & 0x7ff) != 0x7ff
}

pub fn double_is_zero(bits: u64) -> (r: bool)
    ensures
        r == is_zero(bits),
{
    ((bits >> 52) & 0x7ff) == 0 && (bits & 0xf_ffff_ffff_ffff) == 0
}

/// The significand: the fraction field, with the implicit leading bit of a
/// normal number.
pub open spec fn significand(bits: u64) -> nat {
    if exponent_field(bits) == 0 {
        fraction_field(bits) as nat
    } else {
        (fraction_field(bits) + 0x10_0000_0000_0000) as nat
    }
}

/// The power of two that scales the significand: the magnitude of a finite
/// number is `significand * 2^exponent`.
pub open spec fn exponent(bits: u64) -> int {
    if exponent_field(bits) == 0 {
        -1074
    } else {
        exponent_field(bits) - 1075
    }
}

/// The magnitude of a finite number, rounded down to an integer.
pub open spec fn magnitude_floor(bits: u64) -> nat {
    if exponent(bits) >= 0 {
        significand(bits) * pow2(exponent(bits) as nat)
    } else {
        significand(bits) / pow2((-exponent(bits)) as nat)
    }
}

/// The number is finite and has no fractional part.
pub open spec fn is_integral(bits: u64) -> bool {
    is_finite(bits) && (exponent(bits) >= 0 || significand(bits) % pow2(
        (-exponent(bits)) as nat,
    ) == 0)
}

/// A finite number with its fractional part dropped.
pub open spec fn truncated(bits: u64) -> int {
    if sign_bit(bits) {
        -(magnitude_floor(bits) as int)
    } else {
        magnitude_floor(bits) as int
    }
}

/// The integer that the number is, if it is one.
pub open spec fn integer_value(bits: u64) -> Option<int> {
    if is_integral(bits) {
        Some(truncated(bits))
    } else {
        None
    }
}

/// The 32-bit two's complement integer with the same low 32 bits as `i`.
pub open spec fn wrap32(i: int) -> int {
    let m = i % 0x1_0000_0000;
    if m >= 0x8000_0000 {
        m - 0x1_0000_0000
    } else {
        m
    }
}

/// Conversion of a number to a 32-bit integer: NaN and the infinities give 0,
/// any other number is truncated towards zero and wrapped modulo 2^32.
pub open spec fn to_int32(bits: u64) -> int {
    if is_finite(bits) {
        wrap32(truncated(bits))
    } else {
        0
    }
}

/// `wrap32` of a number of the given sign whose magnitude leaves `low` when
/// divided by 2^32.
pub open spec fn wrap32_of_residue(negative: bool, low: int) -> int {
    let u = if negative && low != 0 {
        0x1_0000_0000 - low
    } else {
        low
    };
    if u >= 0x8000_0000 {
        u - 0x1_0000_0000
    } else {
        u
    }
}

/// `wrap32` of a signed magnitude depends on the magnitude's low 32 bits
/// only.
pub proof fn lemma_wrap32(negative: bool, magnitude: nat)
    ensures
        wrap32(
            if negative {
                -(magnitude as int)
            } else {
                magnitude as int
            },
        ) == wrap32_of_residue(negative, magnitude as int % 0x1_0000_0000),
{
    let m = 0x1_0000_0000int;
    let low = magnitude as int % m;
    let q = magnitude as int / m;
    lemma_fundamental_div_mod(magnitude as int, m);
    if negative {
        if low == 0 {
            assert(-(magnitude as int) == m * (-q) + 0) by (nonlinear_arith)
                requires
                    magnitude as int == m * q + low,
                    low == 0,
            ;
            lemma_mod_multiples_vanish(-q, 0, m);
        } else {
            assert(-(magnitude as int) == m * (-q - 1) + (m - low)) by (nonlinear_arith)
                requires
                    magnitude as int == m * q + low,
            ;
            lemma_mod_multiples_vanish(-q - 1, m - low, m);
            lemma_small_mod((m - low) as nat, m as nat);
        }
    }
}

/// The fields of a pattern, as the executable code reads them.
proof fn lemma_fields(bits: u64)
    ensures
        exponent_field(bits) <= 0x7ff,
        fraction_field(bits) < 0x10_0000_0000_0000,
        significand(bits) < 0x20_0000_0000_0000,
        exponent_field(bits) != 0 ==> significand(bits) >= 0x10_0000_0000_0000,
{
    assert((bits >> 52) & 0x7ff <= 0x7ff) by (bit_vector);
    assert(bits & 0xf_ffff_ffff_ffff < 0x10_0000_0000_0000) by (bit_vector);
}

/// A number below one in magnitude truncates to zero, and is integral only
/// if it is zero.
proof fn lemma_below_one(bits: u64)
    requires
        exponent_field(bits) < 1023,
    ensures
        magnitude_floor(bits) == 0,
        is_integral(bits) <==> significand(bits) == 0,
        significand(bits) == 0 <==> (exponent_field(bits) == 0 && fraction_field(bits) == 0),
{
    lemma_fields(bits);
    lemma2_to64_rest();
    let shift = (-exponent(bits)) as nat;
    assert(shift >= 53);
    if shift > 53 {
        lemma_pow2_strictly_increases(53, shift);
    }
    assert(significand(bits) < pow2(shift));
    lemma_basic_div(significand(bits) as int, pow2(shift) as int);
    lemma_small_mod(significand(bits), pow2(shift));
}

/// The powers of two up to `2^10`, and a lower bound on the others.
proof fn lemma_pow2_bounds(e: nat)
    ensures
        e <= 10 ==> 1 <= pow2(e) <= 1024,
        e >= 11 ==> pow2(e) >= 2048,
        e >= 12 ==> pow2(e) >= 4096,
        e < 32 ==> pow2(e) <= 0x8000_0000,
{
    lemma2_to64();
    lemma_pow2_pos(e);
    if e < 10 {
        lemma_pow2_strictly_increases(e, 10);
    }
    if e > 11 {
        lemma_pow2_strictly_increases(11, e);
    }
    if e > 12 {
        lemma_pow2_strictly_increases(12, e);
    }
    if e < 31 {
        lemma_pow2_strictly_increases(e, 31);
    }
}

/// The integer that the number is, if it is one that fits in 64 bits.
pub fn double_to_i64(bits: u64) -> (r: Option<i64>)
    ensures
        r == match integer_value(bits) {
            Some(i) => if i64::MIN <= i <= i64::MAX {
                Some(i as i64)
            } else {
                None
            },
            None => None,
        },
{
    let field: u64 = (bits >> 52) & 0x7ff;
    let fraction: u64 = bits & 0xf_ffff_ffff_ffff;
    let negative: bool = (bits >> 63) == 1;
    proof {
        lemma_fields(bits);
    }
    if field == 0x7ff {
        return None;
    }
    if field < 1023 {
        proof {
            lemma_below_one(bits);
        }
        return if field == 0 && fraction == 0 {
            Some(0)
        } else {
            None
        };
    }
    let sig: u64 = fraction + 0x10_0000_0000_0000;
    if field >= 1075 {
        let e: u64 = field - 1075;
        proof {
            lemma_pow2_bounds(e as nat);
        }
        if e <= 10 {
            proof {
                assert(sig * pow2(e as nat) < 0x8000_0000_0000_0000) by (nonlinear_arith)
                    requires
                        sig < 0x20_0000_0000_0000,
                        1 <= pow2(e as nat) <= 1024,
                ;
                lemma_u64_shl_is_mul(sig, e);
            }
            let m: u64 = sig << e;
            Some(
                if negative {
                    -(m as i64)
                } else {
                    m as i64
                },
            )
        } else if e == 11 && fraction == 0 && negative {
            proof {
                lemma2_to64();
                assert(sig * pow2(11) == 0x8000_0000_0000_0000) by (nonlinear_arith)
                    requires
                        sig == 0x10_0000_0000_0000,
                        pow2(11) == 2048,
                ;
            }
            Some(i64::MIN)
        } else {
            proof {
                lemma2_to64();
                if e == 11 {
                    if fraction == 0 {
                        assert(sig * pow2(11) == 0x8000_0000_0000_0000) by (nonlinear_arith)
                            requires
                                sig == 0x10_0000_0000_0000,
                                pow2(11) == 2048,
                        ;
                    } else {
                        assert(sig * pow2(11) > 0x8000_0000_0000_0000) by (nonlinear_arith)
                            requires
                                sig > 0x10_0000_0000_0000,
                                pow2(11) == 2048,
                        ;
                    }
                } else {
                    assert(sig * pow2(e as nat) > 0x8000_0000_0000_0000) by (nonlinear_arith)
                        requires
                            sig >= 0x10_0000_0000_0000,
                            pow2(e as nat) >= 4096,
                    ;
                }
            }
            None
        }
    } else {
        let shift: u64 = 1075 - field;
        let m: u64 = sig >> shift;
        proof {
            lemma_u64_shr_is_div(sig, shift);
            lemma_pow2_pos(shift as nat);
            lemma_fundamental_div_mod(sig as int, pow2(shift as nat) as int);
            assert(m * pow2(shift as nat) == pow2(shift as nat) * (sig as int / pow2(
                shift as nat,
            ) as int)) by (nonlinear_arith)
                requires
                    m == sig as int / pow2(shift as nat) as int,
            ;
            assert(m * pow2(shift as nat) <= sig);
            lemma_u64_shl_is_mul(m, shift);
            assert(m <= sig) by (nonlinear_arith)
                requires
                    m * pow2(shift as nat) <= sig,
                    pow2(shift as nat) >= 1,
                    m >= 0,
            ;
        }
        if (m << shift) == sig {
            Some(
                if negative {
                    -(m as i64)
                } else {
                    m as i64
                },
            )
        } else {
            None
        }
    }
}

/// The 32-bit integer of a sign and the low 32 bits of a magnitude.
pub fn wrap_residue(negative: bool, low: u64) -> (r: i32)
    requires
        low < 0x1_0000_0000,
    ensures
        r == wrap32_of_residue(negative, low as int),
{
    let u: u64 = if negative && low != 0 {
        0x1_0000_0000 - low
    } else {
        low
    };
    if u >= 0x8000_0000 {
        (u as i64 - 0x1_0000_0000) as i32
    } else {
        u as i32
    }
}

/// Conversion of a number to a 32-bit integer, as [`to_int32`] defines it.
pub fn double_to_int32(bits: u64) -> (r: i32)
    ensures
        r == to_int32(bits),
{
    let field: u64 = (bits >> 52) & 0x7ff;
    let fraction: u64 = bits & 0xf_ffff_ffff_ffff;
    let negative: bool = (bits >> 63) == 1;
    proof {
        lemma_fields(bits);
    }
    if field == 0x7ff {
        return 0;
    }
    if field < 1023 {
        proof {
            lemma_below_one(bits);
        }
        return 0;
    }
    let sig: u64 = fraction + 0x10_0000_0000_0000;
    let low: u64 = if field >= 1075 {
        let e: u64 = field - 1075;
        if e >= 32 {
            proof {
                lemma2_to64();
                lemma_pow2_adds(32, (e - 32) as nat);
                let rest = pow2((e - 32) as nat);
                assert(sig * pow2(e as nat) == (sig * rest) * 0x1_0000_0000) by (nonlinear_arith)
                    requires
                        pow2(e as nat) == 0x1_0000_0000 * rest,
                ;
                lemma_mod_multiples_basic((sig * rest) as int, 0x1_0000_0000);
            }
            0
        } else {
            let x: u64 = sig & 0xffff_ffff;
            proof {
                lemma_pow2_bounds(e as nat);
                assert(sig & 0xffff_ffff == sig % 0x1_0000_0000) by (bit_vector);
                assert(x * pow2(e as nat) <= 0xffff_ffff * 0x8000_0000) by (nonlinear_arith)
                    requires
                        x <= 0xffff_ffff,
                        pow2(e as nat) <= 0x8000_0000,
                ;
                lemma_u64_shl_is_mul(x, e);
                lemma_mul_mod_noop_left(sig as int, pow2(e as nat) as int, 0x1_0000_0000);
            }
            let y: u64 = x << e;
            assert(y & 0xffff_ffff == y % 0x1_0000_0000) by (bit_vector);
            y & 0xffff_ffff
        }
    } else {
        let shift: u64 = 1075 - field;
        let m: u64 = sig >> shift;
        proof {
            lemma_u64_shr_is_div(sig, shift);
        }
        assert(m & 0xffff_ffff == m % 0x1_0000_0000) by (bit_vector);
        m & 0xffff_ffff
    };
    proof {
        assert(low == magnitude_floor(bits) % 0x1_0000_0000);
        lemma_wrap32(negative, magnitude_floor(bits));
    }
    wrap_residue(negative, low)
}

/// An integer as a count between zero and ten: a negative integer counts as
/// zero, one above ten as ten.
pub open spec fn small_count(i: int) -> nat {
    if i < 0 {
        0
    } else if i > 10 {
        10
    } else {
        i as nat
    }
}

/// A number as a count between zero and ten: NaN counts as zero, an infinity
/// as zero or ten by its sign, and any other number by its integer part.
pub open spec fn count_of(bits: u64) -> nat {
    if is_nan(bits) {
        0
    } else if is_infinite(bits) {
        if sign_bit(bits) {
            0
        } else {
            10
        }
    } else {
        small_count(truncated(bits))
    }
}

/// A finite number is sixteen or more in magnitude exactly when its
/// exponent field is 1027 or more.
proof fn lemma_sixteen(bits: u64)
    requires
        is_finite(bits),
    ensures
        exponent_field(bits) >= 1027 <==> magnitude_floor(bits) >= 16,
{
    lemma_fields(bits);
    lemma2_to64();
    lemma2_to64_rest();
    let field = exponent_field(bits);
    let sig = significand(bits) as int;
    if field < 1023 {
        lemma_below_one(bits);
    } else if field >= 1075 {
        let e = (field - 1075) as nat;
        lemma_pow2_pos(e);
        assert(sig * pow2(e) >= 16) by (nonlinear_arith)
            requires
                sig >= 0x10_0000_0000_0000,
                pow2(e) >= 1,
        ;
    } else {
        let shift = (1075 - field) as nat;
        lemma_pow2_pos(shift);
        if field >= 1027 {
            if shift < 48 {
                lemma_pow2_strictly_increases(shift, 48);
            }
            lemma_div_is_ordered_by_denominator(sig, pow2(shift) as int, pow2(48) as int);
            lemma_div_is_ordered(0x10_0000_0000_0000, sig, pow2(48) as int);
            assert(0x10_0000_0000_0000int / 0x1_0000_0000_0000int == 16);
        } else {
            if shift > 49 {
                lemma_pow2_strictly_increases(49, shift);
            }
            lemma_div_is_ordered_by_denominator(sig, pow2(49) as int, pow2(shift) as int);
            lemma_multiply_divide_lt(sig, pow2(49) as int, 16);
        }
    }
}

/// A number as a count between zero and ten, as [`count_of`] defines it.
pub fn double_to_count(bits: u64) -> (r: u8)
    ensures
        r == count_of(bits),
{
    let field: u64 = (bits >> 52) & 0x7ff;
    let negative: bool = (bits >> 63) == 1;
    if double_is_nan(bits) {
        0
    } else if field == 0x7ff {
        if negative {
            0
        } else {
            10
        }
    } else {
        proof {
            lemma_sixteen(bits);
        }
        if field >= 1027 {
            if negative {
                0
            } else {
                10
            }
        } else {
            let i = double_to_int32(bits);
            proof {
                lemma_small_mod(magnitude_floor(bits), 0x1_0000_0000);
                lemma_wrap32(negative, magnitude_floor(bits));
            }
            if i < 0 {
                0
            } else if i > 10 {
                10
            } else {
                i as u8
            }
        }
    }
}

/// The 32-bit integer with the same low 32 bits as `i`.
pub fn wrap_to_int32(i: i64) -> (r: i32)
    ensures
        r == wrap32(i as int),
{
    let negative = i < 0;
    let magnitude: u64 = if i == i64::MIN {
        0x8000_0000_0000_0000
    } else if negative {
        (-i) as u64
    } else {
        i as u64
    };
    assert(magnitude & 0xffff_ffff == magnitude % 0x1_0000_0000) by (bit_vector);
    proof {
        lemma_wrap32(negative, magnitude as nat);
    }
    wrap_residue(negative, magnitude & 0xffff_ffff)
}

} // verus!
