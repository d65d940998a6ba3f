//! Binary payload words and their fixed-point values.
//!
//! Payloads decode to little-endian words of 4 or 8 bytes, each an IEEE
//! floating-point bit pattern.  The value of a pattern is mapped to a
//! fixed-point scale by exact integer arithmetic on the pattern's fields:
//! negative values and NaN clamp to 0, values beyond the range saturate at
//! the maximum, everything else truncates at the scale.  The scale is a
//! digit count: 13 for the mass dimension (m/z), 2 for the intensity
//! dimension, whose instrument magnitudes need the headroom.

use vstd::prelude::*;
use vstd::arithmetic::div_mod::lemma_basic_div;
use vstd::arithmetic::power2::lemma2_to64;
use vstd::arithmetic::power2::lemma2_to64_rest;
use vstd::arithmetic::power2::lemma_pow2_adds;
use vstd::arithmetic::power2::lemma_pow2_pos;
use vstd::arithmetic::power2::lemma_pow2_strictly_increases;
use vstd::arithmetic::power2::lemma_pow2_unfold;
use vstd::arithmetic::power2::pow2;
use crate::numtext::lemma_pow10_mono;
use crate::numtext::lemma_pow10_pos;
use crate::numtext::pow10;
use crate::search::sat64;

verus! {

/// Fixed-point digits of the mass dimension: masses, m/z values and times
/// carry 10^-13 units.
pub const MASS_DIGITS: u64 = 13;

/// Fixed-point digits of the intensity dimension: intensities, ion
/// currents, chromatogram values and totals carry 10^-2 units, reaching
/// about 1.8e17 source units before saturating.
pub const INTENSITY_DIGITS: u64 = 2;

/// Intensity-dimension units per source unit.
pub const INTENSITY_SCALE: u64 = 100;

/// Value of `n` little-endian bytes starting at `from`.
pub open spec fn le_val(s: Seq<u8>, from: int, n: int) -> int
    decreases n,
{
    if n <= 0 {
        0
    } else {
        s[from] + 256 * le_val(s, from + 1, n - 1)
    }
}

/// The fixed-point value of a 64-bit IEEE pattern at a scale of `d`
/// digits: sign, biased exponent and mantissa read as integers; the
/// represented magnitude times 10^d, truncated, saturated at `u64::MAX`;
/// 0 for negative values and NaN.
pub open spec fn fixed_of_f64_bits(bits: u64, d: nat) -> int {
    let sign = bits >> 63;
    let exp = (bits >> 52) & 0x7ff;
    let man = bits & 0xf_ffff_ffff_ffff;
    if sign != 0 {
        0
    } else if exp == 0x7ff {
        if man == 0 {
            u64::MAX as int
        } else {
            0
        }
    } else if exp == 0 {
        0
    } else if exp >= 1075 {
        sat64((man + 0x10_0000_0000_0000) * pow10(d) * pow2((exp - 1075) as nat))
    } else {
        sat64((man + 0x10_0000_0000_0000) * pow10(d) / pow2((1075 - exp) as nat) as int)
    }
}

/// The fixed-point value of a 32-bit IEEE pattern, by the same rules.
pub open spec fn fixed_of_f32_bits(bits: u32, d: nat) -> int {
    let sign = bits >> 31;
    let exp = (bits >> 23) & 0xff;
    let man = bits & 0x7f_ffff;
    if sign != 0 {
        0
    } else if exp == 0xff {
        if man == 0 {
            u64::MAX as int
        } else {
            0
        }
    } else if exp == 0 {
        0
    } else if exp >= 150 {
        sat64((man + 0x80_0000) * pow10(d) * pow2((exp - 150) as nat))
    } else {
        sat64((man + 0x80_0000) * pow10(d) / pow2((150 - exp) as nat) as int)
    }
}

/// The fixed-point values of a payload of little-endian IEEE patterns at a
/// scale of `d` digits; `wide` selects 64-bit over 32-bit patterns.  A
/// trailing incomplete word is dropped.
pub open spec fn spec_payload_values(bytes: Seq<u8>, wide: bool, d: nat) -> Seq<u64> {
    if wide {
        Seq::new(
            (bytes.len() / 8) as nat,
            |j: int| fixed_of_f64_bits(le_val(bytes, 8 * j, 8) as u64, d) as u64,
        )
    } else {
        Seq::new(
            (bytes.len() / 4) as nat,
            |j: int| fixed_of_f32_bits(le_val(bytes, 4 * j, 4) as u32, d) as u64,
        )
    }
}

/// `10^d` as a wide word.
fn pow10_u128(d: u64) -> (p: u128)
    requires
        d <= 13,
    ensures
        p == pow10(d as nat),
        p >= 1,
{
    let mut p: u128 = 1;
    let mut j: u64 = 0;
    while j < d
        invariant
            0 <= j <= d,
            d <= 13,
            p == pow10(j as nat),
            p >= 1,
        decreases d - j,
    {
        proof {
            lemma_pow10_mono(j as nat, 12nat);
            reveal_with_fuel(pow10, 15);
            assert(pow10((j + 1) as nat) == 10 * pow10(j as nat));
        }
        p = p * 10;
        j = j + 1;
    }
    p
}

/// `q / 2^k`, saturated at `u64::MAX`; `q` must fit below 2^97.
fn div_pow2_sat(q: u128, k: u64) -> (r: u64)
    requires
        q < 0x2_0000_0000_0000_0000_0000_0000u128,
        k >= 1,
    ensures
        r == sat64(q as int / pow2(k as nat) as int),
{
    if k >= 97 {
        proof {
            lemma2_to64();
            lemma2_to64_rest();
            lemma_pow2_adds(64, 33);
            if k > 97 {
                lemma_pow2_strictly_increases(97, k as nat);
            }
            lemma_basic_div(q as int, pow2(k as nat) as int);
        }
        return 0;
    }
    let mut denom: u128 = 1;
    let mut j: u64 = 0;
    proof {
        lemma2_to64();
    }
    while j < k
        invariant
            0 <= j <= k,
            k <= 96,
            denom == pow2(j as nat),
        decreases k - j,
    {
        proof {
            lemma_pow2_unfold((j + 1) as nat);
            if j + 1 < 97 {
                lemma_pow2_strictly_increases((j + 1) as nat, 97);
            }
            lemma2_to64();
            lemma2_to64_rest();
            lemma_pow2_adds(64, 33);
        }
        denom = denom * 2;
        j = j + 1;
    }
    proof {
        lemma_pow2_pos(k as nat);
    }
    let q2: u128 = q / denom;
    if q2 > u64::MAX as u128 {
        u64::MAX
    } else {
        q2 as u64
    }
}

/// `q * 2^k`, saturated at `u64::MAX`.
fn mul_pow2_sat(q: u128, k: u64) -> (r: u64)
    requires
        q < 0x2_0000_0000_0000_0000_0000_0000u128,
        k < 64,
    ensures
        r == sat64(q as int * pow2(k as nat)),
{
    let mut x: u128 = if q > u64::MAX as u128 {
        0x1_0000_0000_0000_0000u128
    } else {
        q
    };
    let mut j: u64 = 0;
    proof {
        lemma2_to64();
        assert(q as int * pow2(0) == q as int) by (nonlinear_arith)
            requires
                pow2(0) == 1,
        ;
    }
    while j < k
        invariant
            0 <= j <= k,
            x <= u64::MAX || x == 0x1_0000_0000_0000_0000u128,
            x == if q as int * pow2(j as nat) <= u64::MAX {
                q as int * pow2(j as nat)
            } else {
                0x1_0000_0000_0000_0000int
            },
        decreases k - j,
    {
        let next: u128 = if x > u64::MAX as u128 {
            x
        } else {
            x * 2
        };
        proof {
            let p = pow2(j as nat);
            let p1 = pow2((j + 1) as nat);
            lemma_pow2_unfold((j + 1) as nat);
            lemma_pow2_pos(j as nat);
            assert(q as int * p >= 0) by (nonlinear_arith)
                requires
                    q as int >= 0,
                    p >= 1,
            ;
            assert(q as int * p1 == (q as int * p) * 2) by (nonlinear_arith)
                requires
                    p1 == 2 * p,
            ;
            assert((q as int * p) * 2 >= q as int * p) by (nonlinear_arith)
                requires
                    q as int * p >= 0,
            ;
        }
        x = if next > u64::MAX as u128 {
            0x1_0000_0000_0000_0000u128
        } else {
            next
        };
        j = j + 1;
    }
    if x > u64::MAX as u128 {
        u64::MAX
    } else {
        x as u64
    }
}

/// Map one 64-bit pattern to its fixed-point value at `digits` digits.
pub fn fixed_of_f64(bits: u64, digits: u64) -> (r: u64)
    requires
        digits <= 13,
    ensures
        r == fixed_of_f64_bits(bits, digits as nat),
{
    let sign: u64 = bits >> 63;
    let exp: u64 = (bits >> 52) & 0x7ff;
    let man: u64 = bits & 0xf_ffff_ffff_ffff;
    if sign != 0 {
        return 0;
    }
    if exp == 0x7ff {
        if man == 0 {
            return u64::MAX;
        } else {
            return 0;
        }
    }
    if exp == 0 {
        return 0;
    }
    proof {
        assert(man <= 0xf_ffff_ffff_ffff) by (bit_vector)
            requires
                man == bits & 0xf_ffff_ffff_ffff,
        ;
    }
    let m: u64 = man + 0x10_0000_0000_0000;
    let p10: u128 = pow10_u128(digits);
    proof {
        lemma_pow10_mono(digits as nat, 13nat);
        reveal_with_fuel(pow10, 15);
        assert((m as int) * (p10 as int) < 0x2_0000_0000_0000_0000_0000_0000) by (nonlinear_arith)
            requires
                0 <= m as int <= 0x20_0000_0000_0000,
                0 <= p10 as int <= 10_000_000_000_000,
        ;
        assert((m as int) * (p10 as int) >= m as int) by (nonlinear_arith)
            requires
                m as int >= 0,
                p10 as int >= 1,
        ;
    }
    let num: u128 = (m as u128) * p10;
    if exp >= 1075 {
        let shift: u64 = exp - 1075;
        if shift >= 64 {
            proof {
                lemma2_to64();
                lemma2_to64_rest();
                lemma_pow2_pos(shift as nat);
                if shift > 64 {
                    lemma_pow2_strictly_increases(64, shift as nat);
                }
                assert((num as int) * pow2(shift as nat) >= 0x10_0000_0000_0000int
                    * 0x1_0000_0000_0000_0000int) by (nonlinear_arith)
                    requires
                        num as int >= 0x10_0000_0000_0000,
                        pow2(shift as nat) >= 0x1_0000_0000_0000_0000,
                ;
            }
            return u64::MAX;
        }
        mul_pow2_sat(num, shift)
    } else {
        let k: u64 = 1075 - exp;
        div_pow2_sat(num, k)
    }
}

/// Map one 32-bit pattern to its fixed-point value at `digits` digits.
pub fn fixed_of_f32(bits: u32, digits: u64) -> (r: u64)
    requires
        digits <= 13,
    ensures
        r == fixed_of_f32_bits(bits, digits as nat),
{
    let sign: u32 = bits >> 31;
    let exp: u32 = (bits >> 23) & 0xff;
    let man: u32 = bits & 0x7f_ffff;
    if sign != 0 {
        return 0;
    }
    if exp == 0xff {
        if man == 0 {
            return u64::MAX;
        } else {
            return 0;
        }
    }
    if exp == 0 {
        return 0;
    }
    proof {
        assert(man <= 0x7f_ffff) by (bit_vector)
            requires
                man == bits & 0x7f_ffff,
        ;
    }
    let m: u32 = man + 0x80_0000;
    let p10: u128 = pow10_u128(digits);
    proof {
        lemma_pow10_mono(digits as nat, 13nat);
        reveal_with_fuel(pow10, 15);
        assert((m as int) * (p10 as int) < 0x2_0000_0000_0000_0000_0000_0000) by (nonlinear_arith)
            requires
                0 <= m as int <= 0x100_0000,
                0 <= p10 as int <= 10_000_000_000_000,
        ;
        assert((m as int) * (p10 as int) >= m as int) by (nonlinear_arith)
            requires
                m as int >= 0,
                p10 as int >= 1,
        ;
    }
    let num: u128 = (m as u128) * p10;
    if exp >= 150 {
        let shift: u64 = (exp - 150) as u64;
        if shift >= 64 {
            proof {
                lemma2_to64();
                lemma2_to64_rest();
                lemma_pow2_pos(shift as nat);
                if shift > 64 {
                    lemma_pow2_strictly_increases(64, shift as nat);
                }
                assert((num as int) * pow2(shift as nat) >= 0x80_0000int
                    * 0x1_0000_0000_0000_0000int) by (nonlinear_arith)
                    requires
                        num as int >= 0x80_0000,
                        pow2(shift as nat) >= 0x1_0000_0000_0000_0000,
                ;
            }
            return u64::MAX;
        }
        mul_pow2_sat(num, shift)
    } else {
        let k: u64 = (150 - exp) as u64;
        div_pow2_sat(num, k)
    }
}

/// Decode a payload into fixed-point values at the given width and scale,
/// dropping any trailing incomplete word.
pub fn payload_values(bytes: &Vec<u8>, wide: bool, digits: u64) -> (r: Vec<u64>)
    requires
        digits <= 13,
    ensures
        r@ == spec_payload_values(bytes@, wide, digits as nat),
{
    let mut out: Vec<u64> = Vec::new();
    let n: usize = bytes.len();
    let step: usize = if wide {
        8
    } else {
        4
    };
    let count: usize = n / step;
    let mut j: usize = 0;
    while j < count
        invariant
            n == bytes@.len(),
            step == if wide { 8int } else { 4int },
            count == n as int / step as int,
            digits <= 13,
            0 <= j <= count,
            out@.len() == j,
            forall|i: int|
                0 <= i < j ==> out@[i] == spec_payload_values(bytes@, wide, digits as nat)[i],
        decreases count - j,
    {
        proof {
            vstd::arithmetic::div_mod::lemma_fundamental_div_mod(n as int, step as int);
            vstd::arithmetic::div_mod::lemma_mod_bound(n as int, step as int);
            assert(step as int * count as int <= n);
            assert(step * j + step <= step * count) by (nonlinear_arith)
                requires
                    j + 1 <= count,
                    step as int >= 1,
            ;
        }
        let base: usize = j * step;
        let v: u64;
        if wide {
            let w: u64 = le_word64(bytes, base);
            v = fixed_of_f64(w, digits);
        } else {
            let w: u32 = le_word32(bytes, base);
            v = fixed_of_f32(w, digits);
        }
        out.push(v);
        j = j + 1;
    }
    proof {
        assert(out@ =~= spec_payload_values(bytes@, wide, digits as nat));
    }
    out
}

/// Read one 8-byte little-endian word.
fn le_word64(bytes: &Vec<u8>, base: usize) -> (w: u64)
    requires
        base + 8 <= bytes@.len(),
    ensures
        w == le_val(bytes@, base as int, 8),
{
    let n: usize = bytes.len();
    let mut w: u64 = bytes[base + 7] as u64;
    w = w * 256 + bytes[base + 6] as u64;
    w = w * 256 + bytes[base + 5] as u64;
    w = w * 256 + bytes[base + 4] as u64;
    w = w * 256 + bytes[base + 3] as u64;
    w = w * 256 + bytes[base + 2] as u64;
    w = w * 256 + bytes[base + 1] as u64;
    w = w * 256 + bytes[base] as u64;
    proof {
        reveal_with_fuel(le_val, 10);
    }
    w
}

/// Read one 4-byte little-endian word.
fn le_word32(bytes: &Vec<u8>, base: usize) -> (w: u32)
    requires
        base + 4 <= bytes@.len(),
    ensures
        w == le_val(bytes@, base as int, 4),
{
    let n: usize = bytes.len();
    let mut w: u32 = bytes[base + 3] as u32;
    w = w * 256 + bytes[base + 2] as u32;
    w = w * 256 + bytes[base + 1] as u32;
    w = w * 256 + bytes[base] as u32;
    proof {
        reveal_with_fuel(le_val, 6);
    }
    w
}

} // verus!
