//! Numbers carried as IEEE-754 double bit patterns, and their truncation
//! toward zero into integers.
use vstd::prelude::*;
use vstd::arithmetic::power2::{lemma2_to64, lemma2_to64_rest, pow2};
use vstd::bits::{lemma_u64_shl_is_mul, lemma_u64_shr_is_div};

verus! {

/// The biased exponent field of a double.
pub open spec fn exponent_bits(bits: u64) -> u64 {
    (bits >> 52u64) & 0x7ffu64
}

/// The fraction field of a double.
pub open spec fn fraction_bits(bits: u64) -> u64 {
    bits & 0xf_ffff_ffff_ffffu64
}

/// The double with these bits, truncated toward zero, when the result fits in
/// an `i64`. `None` for NaN, the infinities and values out of that range.
/// Subnormals and zeros truncate to 0.
pub open spec fn truncate_spec(bits: u64) -> Option<int> {
    let e = exponent_bits(bits) as int;
    let significand = fraction_bits(bits) as int + pow2(52) as int;
    let negative = bits >> 63u64 == 1u64;
    if e < 1023 {
        Some(0)
    } else if e == 1086 && negative && fraction_bits(bits) == 0 {
        Some(i64::MIN as int)
    } else if e > 1085 {
        None
    } else {
        let magnitude = if e >= 1075 {
            significand * pow2((e - 1075) as nat) as int
        } else {
            significand / pow2((1075 - e) as nat) as int
        };
        Some(if negative { -magnitude } else { magnitude })
    }
}

/// Truncates the double with these bits toward zero; `None` when it is NaN,
/// infinite, or outside what an `i64` holds.
pub fn truncate_to_i64(bits: u64) -> (r: Option<i64>)
    ensures
        match truncate_spec(bits) {
            Some(v) => r == Some(v as i64) && v == r->Some_0 as int,
            None => r is None,
        },
{
    let e = (bits >> 52u64) & 0x7ffu64;
    let f = bits & 0xf_ffff_ffff_ffffu64;
    let negative = bits >> 63u64 == 1u64;
    if e < 1023 {
        return Some(0);
    }
    if e == 1086 && negative && f == 0 {
        return Some(i64::MIN);
    }
    if e > 1085 {
        return None;
    }
    proof {
        lemma2_to64();
        lemma2_to64_rest();
        assert(f < 0x10_0000_0000_0000u64) by (bit_vector)
            requires
                f == bits & 0xf_ffff_ffff_ffffu64,
        ;
    }
    let significand: u64 = f + 0x10_0000_0000_0000u64;
    let magnitude: u64 = if e >= 1075 {
        let shift: u64 = e - 1075;
        proof {
            assert(pow2(shift as nat) <= 1024);
            assert(significand * pow2(shift as nat) <= 0x20_0000_0000_0000 * 1024) by (nonlinear_arith)
                requires
                    significand < 0x20_0000_0000_0000,
                    pow2(shift as nat) <= 1024,
            ;
            lemma_u64_shl_is_mul(significand, shift);
        }
        significand << shift
    } else {
        let shift: u64 = 1075 - e;
        proof {
            lemma_u64_shr_is_div(significand, shift);
        }
        significand >> shift
    };
    proof {
        if e >= 1075 {
            assert(pow2((e - 1075) as nat) <= 1024);
            assert(magnitude < 0x20_0000_0000_0000 * 1024) by (nonlinear_arith)
                requires
                    magnitude == significand * pow2((e - 1075) as nat),
                    significand < 0x20_0000_0000_0000,
                    pow2((e - 1075) as nat) <= 1024,
            ;
        }
    }
    let m = magnitude as i64;
    if negative { Some(-m) } else { Some(m) }
}

} // verus!
