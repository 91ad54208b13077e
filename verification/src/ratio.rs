//! Ratio-mode scaling: a crop fraction crosses the call boundary as the raw
//! bit pattern of an IEEE 754 single-precision value, and the pixel count it
//! stands for is the exact mathematical product of that value and a source
//! dimension, truncated.  The whole computation is integer arithmetic over
//! the pattern's fields.

use vstd::prelude::*;

verus! {

use vstd::arithmetic::power2::{lemma2_to64, lemma2_to64_rest, lemma_pow2_pos,
    lemma_pow2_strictly_increases, pow2};
use vstd::arithmetic::div_mod::{lemma_basic_div, lemma_fundamental_div_mod,
    lemma_fundamental_div_mod_converse};
use vstd::bits::{lemma_u64_mul_pow2_le_max_iff_max_shr, lemma_u64_shl_is_mul,
    lemma_u64_shr_is_div};

/// The sign bit of a single-precision pattern.
pub open spec fn f32_sign(bits: u32) -> u32 {
    bits >> 31
}

/// The stored exponent of a single-precision pattern.
pub open spec fn f32_exp(bits: u32) -> u32 {
    (bits >> 23) & 0xff
}

/// The stored fraction of a single-precision pattern.
pub open spec fn f32_frac(bits: u32) -> u32 {
    bits & 0x7f_ffff
}

/// The full significand: the fraction with its implicit leading bit, absent
/// on subnormal patterns.
pub open spec fn f32_sig(bits: u32) -> int {
    if f32_exp(bits) == 0 {
        f32_frac(bits) as int
    } else {
        f32_frac(bits) + 0x80_0000
    }
}

/// The effective exponent: a finite pattern stands for
/// `f32_sig(bits) * 2^(f32_ee(bits) - 150)`.
pub open spec fn f32_ee(bits: u32) -> int {
    if f32_exp(bits) == 0 {
        1
    } else {
        f32_exp(bits) as int
    }
}

/// The truncated product of the value the bits stand for and `dim`: the
/// pixel count a ratio-mode fraction resolves to.  None when the pattern is
/// an infinity or NaN, a negative value other than negative zero, or when
/// the product exceeds `u32::MAX`.
pub open spec fn ratio_scaled(bits: u32, dim: u32) -> Option<u32> {
    if f32_exp(bits) == 255 {
        None
    } else if f32_sign(bits) == 1 && f32_sig(bits) != 0 {
        None
    } else {
        let scaled = if f32_ee(bits) >= 150 {
            f32_sig(bits) * dim * pow2((f32_ee(bits) - 150) as nat)
        } else {
            (f32_sig(bits) * dim) / pow2((150 - f32_ee(bits)) as nat) as int
        };
        if scaled > u32::MAX {
            None
        } else {
            Some(scaled as u32)
        }
    }
}

/// Computes `ratio_scaled` on the raw bits of a ratio-mode fraction.
pub fn ratio_scale(bits: u32, dim: u32) -> (r: Option<u32>)
    ensures
        r == ratio_scaled(bits, dim),
{
    let e: u32 = (bits >> 23) & 0xff;
    let frac: u32 = bits & 0x7f_ffff;
    let sign: u32 = bits >> 31;
    proof {
        assert((bits >> 23) & 0xff < 256 && (bits & 0x7f_ffff) <= 0x7f_ffff) by (bit_vector);
    }
    if e == 255 {
        return None;
    }
    let sig: u64 = if e == 0 {
        frac as u64
    } else {
        frac as u64 + 0x80_0000
    };
    if sign == 1 && sig != 0 {
        return None;
    }
    let ee: u32 = if e == 0 {
        1
    } else {
        e
    };
    proof {
        assert(sig * (dim as u64) <= 0xff_ffff * 0xffff_ffff) by (nonlinear_arith)
            requires
                sig <= 0xff_ffff,
                dim <= 0xffff_ffff,
        ;
        assert(sig as int == f32_sig(bits) && ee as int == f32_ee(bits));
    }
    let prod: u64 = sig * (dim as u64);
    if ee >= 150 {
        let k: u32 = ee - 150;
        if prod == 0 {
            proof {
                assert(f32_sig(bits) * dim * pow2(k as nat) == 0) by (nonlinear_arith)
                    requires
                        f32_sig(bits) * dim == 0,
                ;
            }
            return Some(0);
        }
        if k >= 32 {
            proof {
                lemma2_to64();
                lemma2_to64_rest();
                if k > 32 {
                    lemma_pow2_strictly_increases(32, k as nat);
                }
                assert(pow2(k as nat) >= 0x1_0000_0000);
                assert(f32_sig(bits) * dim * pow2(k as nat) >= pow2(k as nat)) by (nonlinear_arith)
                    requires
                        f32_sig(bits) * dim >= 1,
                        pow2(k as nat) >= 1,
                ;
            }
            return None;
        }
        let limit: u64 = (u32::MAX as u64) >> k;
        proof {
            lemma_u64_mul_pow2_le_max_iff_max_shr(prod, k as u64, u32::MAX as u64);
        }
        if prod > limit {
            return None;
        }
        let shifted: u64 = prod << k;
        proof {
            lemma_u64_shl_is_mul(prod, k as u64);
        }
        Some(shifted as u32)
    } else {
        let k: u32 = 150 - ee;
        if k >= 64 {
            proof {
                lemma2_to64();
                lemma2_to64_rest();
                if k > 64 {
                    lemma_pow2_strictly_increases(64, k as nat);
                }
                lemma_pow2_pos(k as nat);
                assert(0 <= f32_sig(bits) * dim < pow2(k as nat) as int);
                lemma_basic_div(f32_sig(bits) * dim, pow2(k as nat) as int);
            }
            return Some(0);
        }
        let shifted: u64 = prod >> k;
        proof {
            lemma_u64_shr_is_div(prod, k as u64);
        }
        if shifted > u32::MAX as u64 {
            None
        } else {
            Some(shifted as u32)
        }
    }
}

/// The bit pattern of one half scales any dimension to exactly half of it,
/// truncated: ratio mode with a one-half fraction yields `dim / 2` pixels
/// for every source dimension.
pub proof fn lemma_ratio_half(dim: u32)
    ensures
        ratio_scaled(0x3f00_0000, dim) == Some(dim / 2),
{
    assert(((0x3f00_0000u32 >> 23) & 0xff) == 126 && (0x3f00_0000u32 & 0x7f_ffff) == 0 && (
    0x3f00_0000u32 >> 31) == 0) by (bit_vector);
    lemma2_to64();
    let q = dim as int / 2;
    let r = dim as int % 2;
    lemma_fundamental_div_mod(dim as int, 2);
    assert(0x80_0000 * (dim as int) == q * 0x100_0000 + r * 0x80_0000) by (nonlinear_arith)
        requires
            dim as int == 2 * q + r,
            q == dim as int / 2,
            r == dim as int % 2,
    ;
    lemma_fundamental_div_mod_converse(0x80_0000 * (dim as int), 0x100_0000, q, r * 0x80_0000);
}

} // verus!
