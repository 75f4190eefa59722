//! Single-precision numbers of IEEE 754, read from their bits.
//!
//! A horizon is worked out in floating point and arrives here as the 32
//! bits of a single-precision number. This module turns those bits into a
//! whole number of milliseconds: rounded to the nearest, with whatever is
//! no number or lies below zero counted as zero, and whatever is too large
//! for a `u64`, infinity included, held at `u64::MAX`.

use vstd::arithmetic::div_mod::lemma_div_is_ordered;
use vstd::arithmetic::div_mod::lemma_div_multiples_vanish_quotient;
use vstd::arithmetic::div_mod::lemma_fundamental_div_mod_converse;
use vstd::arithmetic::mul::lemma_mul_is_associative;
use vstd::arithmetic::mul::lemma_mul_is_distributive_add_other_way;
use vstd::arithmetic::power2::lemma2_to64;
use vstd::arithmetic::power2::lemma_pow2_adds;
use vstd::arithmetic::power2::lemma_pow2_pos;
use vstd::arithmetic::power2::lemma_pow2_strictly_increases;
use vstd::arithmetic::power2::lemma_pow2_unfold;
use vstd::arithmetic::power2::pow2;
use vstd::bits::lemma_u64_shl_is_mul;
use vstd::bits::lemma_u64_shr_is_div;
use vstd::prelude::*;

verus! {

/// The bits of positive zero.
pub const ZERO: u32 = 0;

/// The bits of negative zero.
pub const NEGATIVE_ZERO: u32 = 0x8000_0000;

/// The bits of positive infinity. Every finite number that is not
/// negative has smaller bits.
pub const INFINITY: u32 = 0x7f80_0000;

/// Whether the sign bit is set.
pub open spec fn is_negative(bits: u32) -> bool {
    bits >= 0x8000_0000
}

/// The exponent field: the eight bits below the sign.
pub open spec fn exponent(bits: u32) -> nat {
    (bits as nat / 0x80_0000) % 0x100
}

/// The fraction field: the lowest 23 bits.
pub open spec fn fraction(bits: u32) -> nat {
    bits as nat % 0x80_0000
}

/// Whether the bits stand for no number at all.
pub open spec fn is_nan(bits: u32) -> bool {
    exponent(bits) == 255 && fraction(bits) != 0
}

/// Whether the bits stand for an infinity.
pub open spec fn is_infinite(bits: u32) -> bool {
    exponent(bits) == 255 && fraction(bits) == 0
}

/// Whether the bits stand for zero, of either sign.
pub open spec fn is_zero(bits: u32) -> bool {
    bits == ZERO || bits == NEGATIVE_ZERO
}

/// The place of a number among all numbers: the bits below the sign,
/// counted downwards from zero where the sign is set. Both zeros have the
/// place `0`.
pub open spec fn rank(bits: u32) -> int {
    if is_negative(bits) {
        NEGATIVE_ZERO - bits
    } else {
        bits as int
    }
}

/// `low <= high` as numbers: both are numbers, and `low` does not come
/// after `high`.
pub open spec fn le(low: u32, high: u32) -> bool {
    !is_nan(low) && !is_nan(high) && rank(low) <= rank(high)
}

/// The size of a finite number, its sign aside, counted in units of
/// `2^-149`. That unit is the smallest positive single-precision number,
/// so the count is exact.
pub open spec fn magnitude(bits: u32) -> nat {
    if exponent(bits) == 0 {
        fraction(bits)
    } else {
        (0x80_0000 + fraction(bits)) * pow2((exponent(bits) - 1) as nat)
    }
}

/// The whole number nearest to `units` times `2^-149`. What lies halfway
/// between two whole numbers goes to the larger one.
pub open spec fn nearest_whole(units: nat) -> nat {
    (units + pow2(148)) / pow2(149)
}

/// The number as a `u64`: rounded to the nearest whole number, halves away
/// from zero, and then forced into the range of the type. What is no
/// number and what is negative become `0`; positive infinity and every
/// number above `u64::MAX` become `u64::MAX`.
pub open spec fn rounded(bits: u32) -> u64 {
    if is_nan(bits) || is_negative(bits) {
        0
    } else if is_infinite(bits) {
        u64::MAX
    } else if nearest_whole(magnitude(bits)) >= u64::MAX {
        u64::MAX
    } else {
        nearest_whole(magnitude(bits)) as u64
    }
}

/// `(whole * 2^149 + 2^148) / 2^149` is `whole`.
proof fn lemma_nearest_of_whole(whole: nat)
    ensures
        nearest_whole(whole * pow2(149)) == whole,
{
    lemma_pow2_unfold(149);
    lemma_pow2_pos(148);
    lemma_fundamental_div_mod_converse(
        (whole * pow2(149) + pow2(148)) as int,
        pow2(149) as int,
        whole as int,
        pow2(148) as int,
    );
}

/// With `k` binary places behind the point, rounding looks at no more than
/// those places: `(m * 2^(149-k) + 2^148) / 2^149` is `(m + 2^(k-1)) / 2^k`.
proof fn lemma_nearest_of_places(m: nat, k: nat)
    requires
        1 <= k <= 149,
    ensures
        nearest_whole(m * pow2((149 - k) as nat)) == (m + pow2((k - 1) as nat)) / pow2(k),
{
    let unit = pow2((149 - k) as nat);
    let half = pow2((k - 1) as nat);
    lemma_pow2_pos((149 - k) as nat);
    lemma_pow2_pos(k);
    lemma_pow2_adds((k - 1) as nat, (149 - k) as nat);
    lemma_pow2_adds(k, (149 - k) as nat);
    assert(pow2(148) == half * unit);
    assert(pow2(149) == pow2(k) * unit);
    lemma_mul_is_distributive_add_other_way(unit as int, m as int, half as int);
    assert(m * unit + pow2(148) == (m + half) * unit);
    assert((m + half) * unit == unit * (m + half)) by (nonlinear_arith);
    assert(pow2(k) * unit == unit * pow2(k)) by (nonlinear_arith);
    lemma_div_multiples_vanish_quotient(unit as int, (m + half) as int, pow2(k) as int);
}

/// Zero of either sign rounds to `0`, as does everything that is negative
/// or no number; positive infinity rounds to `u64::MAX`.
pub proof fn lemma_rounded_ends(bits: u32)
    ensures
        is_zero(bits) || is_negative(bits) || is_nan(bits) ==> rounded(bits) == 0,
        bits == INFINITY ==> rounded(bits) == u64::MAX,
{
    if bits == ZERO {
        lemma_pow2_unfold(149);
        lemma_pow2_pos(148);
        lemma_fundamental_div_mod_converse(
            pow2(148) as int,
            pow2(149) as int,
            0,
            pow2(148) as int,
        );
    }
}

/// Among the finite numbers that are not negative, larger bits mean a
/// larger number.
pub proof fn lemma_magnitude_ordered(low: u32, high: u32)
    requires
        low <= high < INFINITY,
    ensures
        magnitude(low) <= magnitude(high),
{
    let low_exponent = exponent(low);
    let high_exponent = exponent(high);
    let low_fraction = fraction(low);
    let high_fraction = fraction(high);
    assert(low == low_exponent * 0x80_0000 + low_fraction);
    assert(high == high_exponent * 0x80_0000 + high_fraction);
    assert(low_exponent <= high_exponent);
    if high_exponent > 0 {
        let high_unit = pow2((high_exponent - 1) as nat);
        lemma_pow2_pos((high_exponent - 1) as nat);
        if low_exponent == high_exponent {
            assert((0x80_0000 + low_fraction) * high_unit <= (0x80_0000 + high_fraction)
                * high_unit) by (nonlinear_arith)
                requires
                    low_fraction <= high_fraction,
            ;
        } else if low_exponent == 0 {
            assert(low_fraction <= (0x80_0000 + high_fraction) * high_unit) by (nonlinear_arith)
                requires
                    low_fraction < 0x80_0000,
                    high_unit >= 1,
            ;
        } else {
            let low_unit = pow2((low_exponent - 1) as nat);
            lemma_pow2_unfold(low_exponent);
            if low_exponent < high_exponent - 1 {
                lemma_pow2_strictly_increases(low_exponent, (high_exponent - 1) as nat);
            }
            assert((0x80_0000 + low_fraction) * low_unit <= (0x80_0000 + high_fraction)
                * high_unit) by (nonlinear_arith)
                requires
                    low_fraction < 0x80_0000,
                    2 * low_unit <= high_unit,
            ;
        }
    }
}

/// Rounding keeps the order of numbers: of two numbers, the larger one
/// never rounds to less.
pub proof fn lemma_rounded_ordered(low: u32, high: u32)
    requires
        le(low, high),
    ensures
        rounded(low) <= rounded(high),
{
    if !is_negative(low) {
        if is_negative(high) {
            lemma_rounded_ends(low);
        } else if !is_infinite(high) {
            lemma_magnitude_ordered(low, high);
            lemma_pow2_pos(149);
            lemma_div_is_ordered(
                (magnitude(low) + pow2(148)) as int,
                (magnitude(high) + pow2(148)) as int,
                pow2(149) as int,
            );
        }
    }
}

/// Rounds a single-precision number, given by its bits, to a `u64`.
pub fn round(bits: u32) -> (whole: u64)
    ensures
        whole == rounded(bits),
{
    if bits >= NEGATIVE_ZERO {
        return 0;
    }
    let exponent_field: u32 = bits >> 23;
    let fraction_field: u32 = bits & 0x7f_ffff;
    assert(exponent_field == exponent(bits) && fraction_field == fraction(bits)) by {
        assert(bits >> 23 == bits / 0x80_0000) by (bit_vector);
        assert(bits & 0x7f_ffff == bits % 0x80_0000) by (bit_vector);
    }
    if exponent_field == 255 {
        return if fraction_field == 0 {
            u64::MAX
        } else {
            0
        };
    }
    if exponent_field == 0 {
        proof {
            lemma2_to64();
            lemma_pow2_strictly_increases(23, 148);
            lemma_pow2_unfold(149);
            lemma_fundamental_div_mod_converse(
                (fraction_field + pow2(148)) as int,
                pow2(149) as int,
                0,
                (fraction_field + pow2(148)) as int,
            );
        }
        return 0;
    }
    let significand: u64 = 0x80_0000 + fraction_field as u64;
    if exponent_field >= 150 {
        let shift: u64 = (exponent_field - 150) as u64;
        proof {
            lemma_pow2_adds(shift as nat, 149);
            lemma_mul_is_associative(significand as int, pow2(shift as nat) as int, pow2(149) as int);
            lemma_nearest_of_whole(significand as nat * pow2(shift as nat));
            lemma2_to64();
        }
        if shift >= 41 {
            proof {
                if shift > 41 {
                    lemma_pow2_strictly_increases(41, shift as nat);
                }
                assert(pow2(41) == 0x200_0000_0000) by {
                    lemma_pow2_adds(32, 9);
                }
                assert(significand * pow2(shift as nat) >= 0x80_0000 * 0x200_0000_0000)
                    by (nonlinear_arith)
                    requires
                        significand >= 0x80_0000,
                        pow2(shift as nat) >= 0x200_0000_0000,
                ;
            }
            u64::MAX
        } else {
            proof {
                if shift < 40 {
                    lemma_pow2_strictly_increases(shift as nat, 40);
                }
                assert(pow2(40) == 0x100_0000_0000) by {
                    lemma_pow2_adds(32, 8);
                }
                assert(significand * pow2(shift as nat) <= 0xff_ffff * 0x100_0000_0000)
                    by (nonlinear_arith)
                    requires
                        significand <= 0xff_ffff,
                        pow2(shift as nat) <= 0x100_0000_0000,
                ;
                lemma_u64_shl_is_mul(significand, shift);
            }
            significand << shift
        }
    } else {
        let places: u64 = (150 - exponent_field) as u64;
        proof {
            lemma_nearest_of_places(significand as nat, places as nat);
            lemma2_to64();
        }
        if places >= 25 {
            proof {
                if places > 25 {
                    lemma_pow2_strictly_increases(24, (places - 1) as nat);
                }
                lemma_pow2_unfold(places as nat);
                lemma_fundamental_div_mod_converse(
                    (significand + pow2((places - 1) as nat)) as int,
                    pow2(places as nat) as int,
                    0,
                    (significand + pow2((places - 1) as nat)) as int,
                );
            }
            0
        } else {
            let half: u64 = 1u64 << (places - 1);
            proof {
                if places < 24 {
                    lemma_pow2_strictly_increases((places - 1) as nat, 23);
                }
                lemma_u64_shl_is_mul(1, (places - 1) as u64);
                lemma_u64_shr_is_div((significand + half) as u64, places);
            }
            (significand + half) >> places
        }
    }
}

} // verus!
