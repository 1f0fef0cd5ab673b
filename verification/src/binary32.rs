use vstd::arithmetic::mul::{lemma_mul_inequality, lemma_mul_upper_bound};
use vstd::arithmetic::power2::{
    lemma2_to64, lemma2_to64_rest, lemma_pow2_adds, lemma_pow2_pos, lemma_pow2_strictly_increases,
    pow2,
};
use vstd::prelude::*;

verus! {

// The model wire format stores seconds and one record count as IEEE 754
// binary32 words. This module turns such a bit pattern into plain integers:
// the whole number of microseconds it denotes, and its whole value. Both are
// exact floors of the mathematical value encoded by the bits, saturating at
// the target type's maximum; negative values and quiet non-numbers map to 0,
// positive infinity to the maximum.

/// The sign field of a binary32 word: 0 or 1.
pub open spec fn b32_sign(bits: u32) -> int {
    bits as int / 0x8000_0000
}

/// The biased exponent field of a binary32 word: 0 ..= 255.
pub open spec fn b32_exp(bits: u32) -> int {
    (bits as int / 0x80_0000) % 0x100
}

/// The fraction field of a binary32 word: 0 ..< 2^23.
pub open spec fn b32_frac(bits: u32) -> int {
    bits as int % 0x80_0000
}

/// The significand as a plain integer: the encoded value is
/// `b32_mantissa * 2^(b32_scale)` for every finite non-negative word.
pub open spec fn b32_mantissa(bits: u32) -> int {
    if b32_exp(bits) == 0 {
        b32_frac(bits)
    } else {
        b32_frac(bits) + 0x80_0000
    }
}

/// The power-of-two scale paired with `b32_mantissa`.
pub open spec fn b32_scale(bits: u32) -> int {
    if b32_exp(bits) == 0 {
        -149
    } else {
        b32_exp(bits) - 150
    }
}

/// `v * 2^s`, floored when `s` is negative.
pub open spec fn scale_by_pow2(v: int, s: int) -> int {
    if s >= 0 {
        v * pow2(s as nat)
    } else {
        v / pow2((-s) as nat) as int
    }
}

/// The whole number of microseconds denoted by a binary32 seconds value:
/// the floor of `seconds * 10^6`, clamped to `0 ..= u64::MAX`.
pub open spec fn micros_of_bits(bits: u32) -> u64 {
    if b32_sign(bits) == 1 {
        0u64
    } else if b32_exp(bits) == 0xff {
        if b32_frac(bits) == 0 {
            u64::MAX
        } else {
            0u64
        }
    } else {
        let v = scale_by_pow2(b32_mantissa(bits) * 1_000_000, b32_scale(bits));
        if v > u64::MAX {
            u64::MAX
        } else {
            v as u64
        }
    }
}

/// The whole part of a binary32 value, clamped to `0 ..= u64::MAX`.
pub open spec fn whole_of_bits(bits: u32) -> u64 {
    if b32_sign(bits) == 1 {
        0u64
    } else if b32_exp(bits) == 0xff {
        if b32_frac(bits) == 0 {
            u64::MAX
        } else {
            0u64
        }
    } else {
        let v = scale_by_pow2(b32_mantissa(bits), b32_scale(bits));
        if v > u64::MAX {
            u64::MAX
        } else {
            v as u64
        }
    }
}

/// 2^e as a u64.
fn pow2_u64(e: u32) -> (r: u64)
    requires
        e < 64,
    ensures
        r == pow2(e as nat),
{
    proof {
        lemma2_to64();
    }
    let mut r: u64 = 1;
    let mut i: u32 = 0;
    while i < e
        invariant
            i <= e < 64,
            r == pow2(i as nat),
        decreases e - i,
    {
        proof {
            lemma_pow2_strictly_increases((i + 1) as nat, 64);
            lemma_pow2_adds(i as nat, 1);
            lemma2_to64();
        }
        r = r * 2;
        i = i + 1;
    }
    r
}

/// Floor of `(m * factor) * 2^s`, clamped to `0 ..= u64::MAX`, for a
/// mantissa/scale pair taken from a finite binary32 word.
fn scaled_floor(m: u32, s: i32, factor: u32) -> (r: u64)
    requires
        m < 0x100_0000,
        1 <= factor <= 1_000_000,
        -149 <= s <= 105,
    ensures
        ({
            let v = scale_by_pow2(m as int * factor as int, s as int);
            r == if v > u64::MAX { u64::MAX } else { v as u64 }
        }),
{
    proof {
        lemma_mul_upper_bound(m as int, 0xff_ffff, factor as int, 1_000_000);
    }
    let base: u64 = (m as u64) * (factor as u64);
    proof {
        assert(base < 0x1_0000_0000_0000);
    }
    if s >= 0 {
        if base == 0 {
            return 0;
        }
        if s >= 64 {
            // base >= 1, so base * 2^s >= 2^64 > u64::MAX.
            proof {
                if s > 64 {
                    lemma_pow2_strictly_increases(64, s as nat);
                }
                lemma_mul_inequality(1, base as int, pow2(s as nat) as int);
                lemma2_to64();
            }
            return u64::MAX;
        }
        let p: u64 = pow2_u64(s as u32);
        proof {
            lemma_mul_upper_bound(base as int, 0xffff_ffff_ffff, p as int, 0xffff_ffff_ffff_ffff);
        }
        let wide: u128 = (base as u128) * (p as u128);
        if wide > u64::MAX as u128 {
            u64::MAX
        } else {
            wide as u64
        }
    } else {
        let k: u32 = (0 - s) as u32;
        if k >= 64 {
            // base < 2^48 <= 2^k, so the floor is 0.
            proof {
                lemma_pow2_strictly_increases(48, k as nat);
                lemma2_to64();
                lemma2_to64_rest();
                lemma_pow2_pos(k as nat);
                assert(base as int / pow2(k as nat) as int == 0) by {
                    vstd::arithmetic::div_mod::lemma_basic_div(base as int, pow2(k as nat) as int);
                }
            }
            return 0;
        }
        let p: u64 = pow2_u64(k);
        proof {
            lemma_pow2_pos(k as nat);
        }
        let q: u64 = base / p;
        proof {
            assert(q as int == base as int / p as int);
            assert(base as int / p as int <= u64::MAX) by {
                vstd::arithmetic::div_mod::lemma_div_is_ordered_by_denominator(
                    base as int,
                    1,
                    p as int,
                );
            }
        }
        q
    }
}

/// The exec form of `micros_of_bits`: microseconds from a binary32 seconds
/// word, by exact integer arithmetic on the bit fields.
pub fn secs_bits_to_micros(bits: u32) -> (r: u64)
    ensures
        r == micros_of_bits(bits),
{
    let sign: u32 = bits / 0x8000_0000;
    let exp: u32 = (bits / 0x80_0000) % 0x100;
    let frac: u32 = bits % 0x80_0000;
    if sign == 1 {
        0
    } else if exp == 0xff {
        if frac == 0 {
            u64::MAX
        } else {
            0
        }
    } else if exp == 0 {
        scaled_floor(frac, -149, 1_000_000)
    } else {
        scaled_floor(frac + 0x80_0000, exp as i32 - 150, 1_000_000)
    }
}

/// The exec form of `whole_of_bits`: the whole part of a binary32 word.
pub fn whole_from_bits(bits: u32) -> (r: u64)
    ensures
        r == whole_of_bits(bits),
{
    let sign: u32 = bits / 0x8000_0000;
    let exp: u32 = (bits / 0x80_0000) % 0x100;
    let frac: u32 = bits % 0x80_0000;
    if sign == 1 {
        0
    } else if exp == 0xff {
        if frac == 0 {
            u64::MAX
        } else {
            0
        }
    } else if exp == 0 {
        scaled_floor(frac, -149, 1)
    } else {
        scaled_floor(frac + 0x80_0000, exp as i32 - 150, 1)
    }
}

} // verus!
