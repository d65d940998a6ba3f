//! Decimal text to fixed-point values.
//!
//! Attribute values in the document format are decimal numbers, optionally
//! signed, with an optional fraction and exponent.  They are parsed here
//! directly into a fixed-point scale (a digit count: 13 for masses and
//! times, 2 for ion currents) with exact integer arithmetic: no rounding
//! beyond the final truncation — or, for ion currents, rounding up — at
//! the scale, and saturation at the representable maximum.  A mantissa
//! over 37 digits or an exponent over 4 digits is rejected as unparsable
//! (machine limits).

use vstd::prelude::*;
use vstd::arithmetic::div_mod::lemma_basic_div;
use crate::search::sat64;

verus! {

pub open spec fn bdigit(b: u8) -> bool {
    48 <= b <= 57
}

/// Length of the run of decimal digits in `s` starting at `i`.
pub open spec fn brun(s: Seq<u8>, i: int) -> int
    decreases s.len() - i,
{
    if 0 <= i < s.len() && bdigit(s[i]) {
        1 + brun(s, i + 1)
    } else {
        0
    }
}

/// Value of the decimal digits `s[from..to]`.
pub open spec fn bval(s: Seq<u8>, from: int, to: int) -> int
    decreases to - from,
{
    if from >= to {
        0
    } else {
        bval(s, from, to - 1) * 10 + (s[to - 1] - 48)
    }
}

pub open spec fn pow10(n: nat) -> int
    decreases n,
{
    if n == 0 {
        1
    } else {
        10 * pow10((n - 1) as nat)
    }
}

/// Number layout: `[+|-] digits [. digits] [ (e|E) [+|-] digits ]`.
pub open spec fn num_neg(s: Seq<u8>) -> bool {
    s.len() > 0 && s[0] == 45
}

pub open spec fn num_int_start(s: Seq<u8>) -> int {
    if s.len() > 0 && (s[0] == 43 || s[0] == 45) {
        1
    } else {
        0
    }
}

pub open spec fn num_int_len(s: Seq<u8>) -> int {
    brun(s, num_int_start(s))
}

pub open spec fn num_has_frac(s: Seq<u8>) -> bool {
    num_int_start(s) + num_int_len(s) < s.len() && s[num_int_start(s) + num_int_len(s)] == 46
}

pub open spec fn num_frac_start(s: Seq<u8>) -> int {
    num_int_start(s) + num_int_len(s) + 1
}

pub open spec fn num_frac_len(s: Seq<u8>) -> int {
    if num_has_frac(s) {
        brun(s, num_frac_start(s))
    } else {
        0
    }
}

pub open spec fn num_exp_pos(s: Seq<u8>) -> int {
    if num_has_frac(s) {
        num_frac_start(s) + num_frac_len(s)
    } else {
        num_int_start(s) + num_int_len(s)
    }
}

pub open spec fn num_has_exp(s: Seq<u8>) -> bool {
    num_exp_pos(s) < s.len() && (s[num_exp_pos(s)] == 101 || s[num_exp_pos(s)] == 69)
}

pub open spec fn num_exp_neg(s: Seq<u8>) -> bool {
    num_has_exp(s) && num_exp_pos(s) + 1 < s.len() && s[num_exp_pos(s) + 1] == 45
}

pub open spec fn num_exp_dstart(s: Seq<u8>) -> int {
    if num_has_exp(s) && num_exp_pos(s) + 1 < s.len() && (s[num_exp_pos(s) + 1] == 43 || s[
        num_exp_pos(s) + 1
    ] == 45) {
        num_exp_pos(s) + 2
    } else {
        num_exp_pos(s) + 1
    }
}

pub open spec fn num_exp_dlen(s: Seq<u8>) -> int {
    if num_has_exp(s) {
        brun(s, num_exp_dstart(s))
    } else {
        0
    }
}

pub open spec fn num_end(s: Seq<u8>) -> int {
    if num_has_exp(s) {
        num_exp_dstart(s) + num_exp_dlen(s)
    } else {
        num_exp_pos(s)
    }
}

/// The text is one complete number of the grammar, within this parser's
/// size limits.
pub open spec fn valid_number(s: Seq<u8>) -> bool {
    &&& s.len() > 0
    &&& num_int_len(s) + num_frac_len(s) >= 1
    &&& num_int_len(s) + num_frac_len(s) <= 37
    &&& (num_has_exp(s) ==> 1 <= num_exp_dlen(s) <= 4)
    &&& num_end(s) == s.len()
}

/// The mantissa digits (integer and fraction parts concatenated).
pub open spec fn num_mantissa(s: Seq<u8>) -> int {
    bval(s, num_int_start(s), num_int_start(s) + num_int_len(s)) * pow10(num_frac_len(s) as nat)
        + bval(s, num_frac_start(s), num_frac_start(s) + num_frac_len(s))
}

pub open spec fn num_exp_val(s: Seq<u8>) -> int {
    if num_exp_neg(s) {
        -bval(s, num_exp_dstart(s), num_exp_dstart(s) + num_exp_dlen(s))
    } else {
        bval(s, num_exp_dstart(s), num_exp_dstart(s) + num_exp_dlen(s))
    }
}

/// The net power of ten between the mantissa digits and a fixed-point
/// scale of `d` digits.
pub open spec fn num_scale_at(s: Seq<u8>, d: int) -> int {
    d + num_exp_val(s) - num_frac_len(s)
}

/// The net power of ten at the mass scale (13 digits).
pub open spec fn num_scale(s: Seq<u8>) -> int {
    num_scale_at(s, 13)
}

/// The value a valid number denotes at a fixed-point scale of `d` digits:
/// the mantissa shifted to the scale, truncated, saturated at `u64::MAX`,
/// and clamped to 0 when negative.
pub open spec fn spec_number_fp_at(s: Seq<u8>, d: int) -> int {
    if num_neg(s) {
        0
    } else {
        let m = num_mantissa(s);
        let t = num_scale_at(s, d);
        if t >= 0 {
            sat64(m * pow10(t as nat))
        } else {
            sat64(m / pow10((-t) as nat))
        }
    }
}

/// The value at the mass scale (13 digits).
pub open spec fn spec_number_fp(s: Seq<u8>) -> int {
    spec_number_fp_at(s, 13)
}

/// Like `spec_number_fp_at`, but rounding up at the scale: any nonzero
/// magnitude yields at least one unit, so only an exactly-zero value reads
/// as zero.
pub open spec fn spec_number_fp_ceil_at(s: Seq<u8>, d: int) -> int {
    if num_neg(s) {
        0
    } else {
        let m = num_mantissa(s);
        let t = num_scale_at(s, d);
        if t >= 0 {
            sat64(m * pow10(t as nat))
        } else {
            sat64((m + pow10((-t) as nat) - 1) / pow10((-t) as nat))
        }
    }
}

proof fn lemma_brun_nonneg(s: Seq<u8>, i: int)
    requires
        0 <= i <= s.len(),
    ensures
        0 <= brun(s, i),
        i + brun(s, i) <= s.len(),
    decreases s.len() - i,
{
    if 0 <= i < s.len() && bdigit(s[i]) {
        lemma_brun_nonneg(s, i + 1);
    }
}

proof fn lemma_brun_digits(s: Seq<u8>, i: int)
    requires
        0 <= i <= s.len(),
    ensures
        forall|k: int| i <= k < i + brun(s, i) ==> bdigit(s[k]),
    decreases s.len() - i,
{
    if 0 <= i < s.len() && bdigit(s[i]) {
        lemma_brun_digits(s, i + 1);
    }
}

proof fn lemma_bval_nonneg(s: Seq<u8>, from: int, to: int)
    requires
        forall|k: int| from <= k < to ==> bdigit(s[k]),
    ensures
        bval(s, from, to) >= 0,
    decreases to - from,
{
    if from < to {
        lemma_bval_nonneg(s, from, to - 1);
    }
}

pub proof fn lemma_pow10_pos(n: nat)
    ensures
        pow10(n) >= 1,
    decreases n,
{
    if n > 0 {
        lemma_pow10_pos((n - 1) as nat);
    }
}

pub proof fn lemma_pow10_mono(a: nat, b: nat)
    requires
        a <= b,
    ensures
        pow10(a) <= pow10(b),
    decreases b,
{
    if a < b {
        lemma_pow10_mono(a, (b - 1) as nat);
        lemma_pow10_pos((b - 1) as nat);
    }
}

/// Scan the digit run starting at `start`; returns the index just past it,
/// with the digits' value (clamped just above `cap`) in `acc`.
fn scan_digits(bytes: &Vec<u8>, start: usize, cap: u128) -> (r: (usize, u128))
    requires
        start <= bytes@.len(),
        cap <= 0x1000_0000_0000_0000_0000_0000_0000_0000u128,
    ensures
        r.0 == start + brun(bytes@, start as int),
        start <= r.0 <= bytes@.len(),
        r.1 == if bval(bytes@, start as int, r.0 as int) <= cap {
            bval(bytes@, start as int, r.0 as int)
        } else {
            (cap + 1) as int
        },
{
    let n: usize = bytes.len();
    let mut j: usize = start;
    let mut acc: u128 = 0;
    let ghost mut true_val: int = 0int;
    proof {
        lemma_brun_nonneg(bytes@, start as int);
    }
    while j < n
        invariant
            n == bytes@.len(),
            start <= j <= n,
            cap <= 0x1000_0000_0000_0000_0000_0000_0000_0000u128,
            0 <= true_val,
            acc == if true_val <= cap {
                true_val
            } else {
                (cap + 1) as int
            },
            true_val == bval(bytes@, start as int, j as int),
            brun(bytes@, start as int) == brun(bytes@, j as int) + j - start,
        ensures
            n == bytes@.len(),
            start <= j <= n,
            0 <= true_val,
            acc == if true_val <= cap {
                true_val
            } else {
                (cap + 1) as int
            },
            true_val == bval(bytes@, start as int, j as int),
            brun(bytes@, start as int) == brun(bytes@, j as int) + j - start,
            j == n || !bdigit(bytes@[j as int]),
        decreases n - j,
    {
        let b: u8 = bytes[j];
        if !(48 <= b && b <= 57) {
            break;
        }
        let d: u128 = (b - 48) as u128;
        let next: u128 = acc * 10 + d;
        acc = if next > cap {
            cap + 1
        } else {
            next
        };
        proof {
            true_val = true_val * 10 + (b - 48);
        }
        j = j + 1;
    }
    proof {
        assert(brun(bytes@, j as int) == 0);
    }
    (j, acc)
}

/// Parse decimal text into a fixed-point value at the mass scale
/// (13 digits).
///
/// `None` exactly when the text is not a number of the accepted grammar;
/// otherwise the value per `spec_number_fp`: truncated to the fixed-point
/// scale, saturated at the maximum, 0 for negative input.
pub fn parse_fixed(bytes: &Vec<u8>) -> (r: Option<u64>)
    ensures
        r is Some <==> valid_number(bytes@),
        r matches Some(v) ==> v == spec_number_fp(bytes@),
{
    parse_fixed_at(bytes, 13, false)
}

/// Parse decimal text into a fixed-point value at a scale of `digits`
/// digits, truncating or (with `round_up`) rounding up at the scale.
pub fn parse_fixed_at(bytes: &Vec<u8>, digits: u64, round_up: bool) -> (r: Option<u64>)
    requires
        digits <= 13,
    ensures
        r is Some <==> valid_number(bytes@),
        r matches Some(v) ==> v == if round_up {
            spec_number_fp_ceil_at(bytes@, digits as int)
        } else {
            spec_number_fp_at(bytes@, digits as int)
        },
{
    let n: usize = bytes.len();
    if n == 0 {
        return None;
    }
    let first: u8 = bytes[0];
    let neg: bool = first == 45;
    let int_start: usize = if first == 43 || first == 45 {
        1
    } else {
        0
    };
    // Any mantissa within the 37-digit limit stays below this cap, so its
    // scanned value is exact.
    let cap: u128 = 0x1000_0000_0000_0000_0000_0000_0000_0000u128;
    let (int_end, int_acc) = scan_digits(bytes, int_start, cap);
    let int_len: usize = int_end - int_start;
    let mut pos: usize = int_end;
    let mut frac_len: usize = 0;
    let mut frac_acc: u128 = 0;
    let mut frac_start: usize = int_end;
    if pos < n && bytes[pos] == 46 {
        let (frac_end, facc) = scan_digits(bytes, pos + 1, cap);
        frac_start = pos + 1;
        frac_len = frac_end - frac_start;
        frac_acc = facc;
        pos = frac_end;
    }
    proof {
        assert(num_int_start(bytes@) == int_start);
        assert(num_int_len(bytes@) == int_len);
        assert(num_has_frac(bytes@) == (int_end < n && bytes@[int_end as int] == 46));
        assert(num_frac_len(bytes@) == frac_len);
        assert(num_exp_pos(bytes@) == pos);
    }
    if int_len + frac_len < 1 || int_len + frac_len > 37 {
        return None;
    }
    let mut exp_neg: bool = false;
    let mut exp_acc: u128 = 0;
    let mut has_exp: bool = false;
    if pos < n {
        let e: u8 = bytes[pos];
        if e == 101 || e == 69 {
            has_exp = true;
            let mut dstart: usize = pos + 1;
            if pos + 1 < n {
                let sgn: u8 = bytes[pos + 1];
                if sgn == 43 || sgn == 45 {
                    dstart = pos + 2;
                    exp_neg = sgn == 45;
                }
            }
            let (exp_end, eacc) = scan_digits(bytes, dstart, cap);
            let exp_dlen: usize = exp_end - dstart;
            proof {
                assert(num_has_exp(bytes@));
                assert(num_exp_dstart(bytes@) == dstart);
                assert(num_exp_dlen(bytes@) == exp_dlen);
                assert(num_end(bytes@) == exp_end);
            }
            if exp_dlen < 1 || exp_dlen > 4 {
                return None;
            }
            if exp_end != n {
                return None;
            }
            exp_acc = eacc;
            proof {
                lemma_brun_digits(bytes@, dstart as int);
                lemma_bval_nonneg(bytes@, dstart as int, exp_end as int);
                lemma_bval_small(bytes@, dstart as int, exp_end as int);
            }
        } else {
            return None;
        }
    } else {
        proof {
            assert(!num_has_exp(bytes@));
            assert(num_end(bytes@) == pos);
        }
    }
    // The grammar is satisfied; compute the value.
    proof {
        assert(valid_number(bytes@));
    }
    if neg {
        return Some(0);
    }
    // Mantissa: integer digits shifted past the fraction, plus the fraction.
    proof {
        lemma_brun_digits(bytes@, int_start as int);
        lemma_bval_nonneg(bytes@, int_start as int, int_end as int);
        if num_has_frac(bytes@) {
            lemma_brun_digits(bytes@, frac_start as int);
            lemma_bval_nonneg(bytes@, frac_start as int, (frac_start + frac_len) as int);
        }
        lemma_bval_bounded(bytes@, int_start as int, int_end as int);
        if num_has_frac(bytes@) {
            lemma_bval_bounded(bytes@, frac_start as int, (frac_start + frac_len) as int);
        }
        lemma_pow10_37_value();
        lemma_pow10_mono((int_end - int_start) as nat, 37nat);
        lemma_pow10_mono(frac_len as nat, 37nat);
    }
    let mantissa: u128 = mantissa_value(bytes, int_start, int_end, frac_start, frac_len, int_acc,
        frac_acc);
    let exp_small: u32 = exp_acc as u32;
    // Net scale t = digits + exp - frac_len (exp negative when exp_neg).
    let t_abs: u64;
    let t_nonneg: bool;
    if exp_neg {
        let down: u64 = exp_small as u64 + frac_len as u64;
        if down <= digits {
            t_nonneg = true;
            t_abs = digits - down;
        } else {
            t_nonneg = false;
            t_abs = down - digits;
        }
    } else {
        let up: u64 = digits + exp_small as u64;
        if up >= frac_len as u64 {
            t_nonneg = true;
            t_abs = up - frac_len as u64;
        } else {
            t_nonneg = false;
            t_abs = frac_len as u64 - up;
        }
    }
    proof {
        assert(num_exp_val(bytes@) == if num_exp_neg(bytes@) {
            -(exp_small as int)
        } else {
            exp_small as int
        });
        assert(t_nonneg ==> num_scale_at(bytes@, digits as int) == t_abs);
        assert(!t_nonneg ==> num_scale_at(bytes@, digits as int) == -(t_abs as int));
    }
    if t_nonneg {
        Some(scale_up_sat(mantissa, t_abs))
    } else if round_up {
        Some(scale_down_sat_ceil(mantissa, t_abs))
    } else {
        Some(scale_down_sat(mantissa, t_abs))
    }
}

/// `(d + 10^t - 1) / 10^t`: division by the scale, rounding up, saturated
/// at `u64::MAX`.
fn scale_down_sat_ceil(d: u128, t: u64) -> (r: u64)
    requires
        d < 0x8000_0000_0000_0000_0000_0000_0000_0000u128,
    ensures
        r == sat64((d as int + pow10(t as nat) - 1) / pow10(t as nat)),
{
    if t >= 39 {
        proof {
            lemma_pow10_39_large();
            lemma_pow10_mono(39nat, t as nat);
            let p = pow10(t as nat);
            if d == 0 {
                lemma_basic_div(p - 1, p);
            } else {
                vstd::arithmetic::div_mod::lemma_fundamental_div_mod_converse_div(
                    d as int + p - 1,
                    p,
                    1,
                    d as int - 1,
                );
            }
        }
        if d == 0 {
            return 0;
        }
        return 1;
    }
    let mut p: u128 = 1;
    let mut j: u64 = 0;
    while j < t
        invariant
            0 <= j <= t,
            t <= 38,
            p == pow10(j as nat),
            p >= 1,
        decreases t - j,
    {
        proof {
            lemma_pow10_mono(j as nat, 37nat);
            lemma_pow10_37_value();
            assert(pow10((j + 1) as nat) == 10 * pow10(j as nat));
        }
        p = p * 10;
        j = j + 1;
    }
    proof {
        lemma_pow10_mono(t as nat, 38nat);
        lemma_pow10_38_value();
        lemma_pow10_pos(t as nat);
    }
    let q: u128 = (d + p - 1) / p;
    if q > u64::MAX as u128 {
        u64::MAX
    } else {
        q as u64
    }
}

/// `d * 10^t`, saturated at `u64::MAX`.
fn scale_up_sat(d: u128, t: u64) -> (r: u64)
    requires
        d < 0x8000_0000_0000_0000_0000_0000_0000_0000u128,
    ensures
        r == sat64(d as int * pow10(t as nat)),
{
    let mut x: u128 = if d > u64::MAX as u128 {
        0x1_0000_0000_0000_0000u128
    } else {
        d
    };
    let mut j: u64 = 0;
    while j < t
        invariant
            0 <= j <= t,
            d < 0x8000_0000_0000_0000_0000_0000_0000_0000u128,
            x <= u64::MAX || x == 0x1_0000_0000_0000_0000u128,
            x == if d as int * pow10(j as nat) <= u64::MAX {
                d as int * pow10(j as nat)
            } else {
                0x1_0000_0000_0000_0000int
            },
        decreases t - j,
    {
        let next: u128 = if x > u64::MAX as u128 {
            x
        } else {
            x * 10
        };
        proof {
            let p = pow10(j as nat);
            let p1 = pow10((j + 1) as nat);
            assert(p1 == 10 * p);
            lemma_pow10_pos(j as nat);
            assert(d as int * p >= 0) by (nonlinear_arith)
                requires
                    d as int >= 0,
                    p >= 1,
            ;
            assert(d as int * p1 == (d as int * p) * 10) by (nonlinear_arith)
                requires
                    p1 == 10 * p,
            ;
            assert((d as int * p) * 10 >= d as int * p) by (nonlinear_arith)
                requires
                    d as int * p >= 0,
            ;
        }
        x = if next > u64::MAX as u128 {
            0x1_0000_0000_0000_0000u128
        } else {
            next
        };
        j = j + 1;
    }
    if x > u64::MAX as u128 {
        u64::MAX
    } else {
        x as u64
    }
}

/// `d / 10^t`, saturated at `u64::MAX`.
fn scale_down_sat(d: u128, t: u64) -> (r: u64)
    requires
        d < 0x8000_0000_0000_0000_0000_0000_0000_0000u128,
    ensures
        r == sat64(d as int / pow10(t as nat)),
{
    if t >= 39 {
        proof {
            lemma_pow10_39_large();
            lemma_pow10_mono(39nat, t as nat);
            lemma_basic_div(d as int, pow10(t as nat));
        }
        return 0;
    }
    let mut p: u128 = 1;
    let mut j: u64 = 0;
    while j < t
        invariant
            0 <= j <= t,
            t <= 38,
            p == pow10(j as nat),
            p >= 1,
        decreases t - j,
    {
        proof {
            lemma_pow10_mono(j as nat, 37nat);
            lemma_pow10_37_value();
            assert(pow10((j + 1) as nat) == 10 * pow10(j as nat));
        }
        p = p * 10;
        j = j + 1;
    }
    let q: u128 = d / p;
    proof {
        lemma_pow10_pos(t as nat);
    }
    if q > u64::MAX as u128 {
        u64::MAX
    } else {
        q as u64
    }
}

proof fn lemma_pow10_37_value()
    ensures
        pow10(37nat) == 0x785ee10d5da46d900f436a000000000int,
{
    reveal_with_fuel(pow10, 39);
}

proof fn lemma_pow10_38_value()
    ensures
        pow10(38nat) == 0x4b3b4ca85a86c47a098a224000000000int,
{
    reveal_with_fuel(pow10, 40);
}

proof fn lemma_pow10_39_large()
    ensures
        pow10(39nat) > 0x8000_0000_0000_0000_0000_0000_0000_0000int,
{
    reveal_with_fuel(pow10, 41);
}

/// Digit values are bounded by a power of ten at their length.
proof fn lemma_bval_bounded(s: Seq<u8>, from: int, to: int)
    requires
        from <= to,
        forall|k: int| from <= k < to ==> bdigit(s[k]),
    ensures
        0 <= bval(s, from, to) < pow10((to - from) as nat),
    decreases to - from,
{
    if from < to {
        lemma_bval_bounded(s, from, to - 1);
        let prev = bval(s, from, to - 1);
        let p = pow10((to - 1 - from) as nat);
        assert(pow10((to - from) as nat) == 10 * p);
        assert(prev * 10 <= (p - 1) * 10) by (nonlinear_arith)
            requires
                prev <= p - 1,
        ;
    }
}

proof fn lemma_bval_small(s: Seq<u8>, from: int, to: int)
    requires
        from <= to,
        to - from <= 4,
        forall|k: int| from <= k < to ==> bdigit(s[k]),
    ensures
        0 <= bval(s, from, to) <= 9999,
{
    lemma_bval_bounded(s, from, to);
    reveal_with_fuel(pow10, 6);
}

/// Combine the integer and fraction digit values into the mantissa.
fn mantissa_value(
    bytes: &Vec<u8>,
    int_start: usize,
    int_end: usize,
    frac_start: usize,
    frac_len: usize,
    int_acc: u128,
    frac_acc: u128,
) -> (r: u128)
    requires
        int_start <= int_end,
        int_end - int_start + frac_len <= 37,
        int_acc == bval(bytes@, int_start as int, int_end as int),
        frac_acc == if num_has_frac(bytes@) {
            bval(bytes@, frac_start as int, (frac_start + frac_len) as int)
        } else {
            0
        },
        num_int_start(bytes@) == int_start,
        num_int_len(bytes@) == int_end - int_start,
        num_frac_len(bytes@) == frac_len,
        num_has_frac(bytes@) ==> num_frac_start(bytes@) == frac_start,
        0 <= int_acc < pow10((int_end - int_start) as nat),
        0 <= frac_acc < pow10(frac_len as nat),
    ensures
        r == num_mantissa(bytes@),
        r < 0x8000_0000_0000_0000_0000_0000_0000_0000u128,
{
    let mut p: u128 = 1;
    let mut j: usize = 0;
    while j < frac_len
        invariant
            0 <= j <= frac_len,
            frac_len <= 37,
            p == pow10(j as nat),
            p >= 1,
        decreases frac_len - j,
    {
        proof {
            lemma_pow10_mono(j as nat, 36nat);
            lemma_pow10_37_value();
            assert(pow10(37nat) == 10 * pow10(36nat));
            assert(pow10((j + 1) as nat) == 10 * pow10(j as nat));
        }
        p = p * 10;
        j = j + 1;
    }
    proof {
        lemma_pow10_mono((int_end - int_start + frac_len) as nat, 37nat);
        lemma_pow10_37_value();
        lemma_mantissa_bound(
            int_acc as int,
            frac_acc as int,
            (int_end - int_start) as nat,
            frac_len as nat,
        );
        if !num_has_frac(bytes@) {
            assert(num_frac_len(bytes@) == 0);
            assert(bval(bytes@, num_frac_start(bytes@), num_frac_start(bytes@) + 0) == 0);
        }
    }
    int_acc * p + frac_acc
}

/// `a * 10^fb + b < 10^(fa + fb)` when `a < 10^fa` and `b < 10^fb`.
proof fn lemma_mantissa_bound(a: int, b: int, fa: nat, fb: nat)
    requires
        0 <= a < pow10(fa),
        0 <= b < pow10(fb),
    ensures
        0 <= a * pow10(fb) + b < pow10(fa + fb),
        a * pow10(fb) >= 0,
    decreases fa,
{
    lemma_pow10_pos(fb);
    lemma_pow10_adds(fa, fb);
    assert(a * pow10(fb) >= 0) by (nonlinear_arith)
        requires
            a >= 0,
            pow10(fb) >= 1,
    ;
    assert(a * pow10(fb) <= (pow10(fa) - 1) * pow10(fb)) by (nonlinear_arith)
        requires
            a <= pow10(fa) - 1,
            pow10(fb) >= 1,
    ;
    assert((pow10(fa) - 1) * pow10(fb) == pow10(fa) * pow10(fb) - pow10(fb)) by (nonlinear_arith);
}

proof fn lemma_pow10_adds(a: nat, b: nat)
    ensures
        pow10(a + b) == pow10(a) * pow10(b),
    decreases a,
{
    if a == 0 {
    } else {
        lemma_pow10_adds((a - 1) as nat, b);
        assert(pow10(a) == 10 * pow10((a - 1) as nat));
        assert(pow10(a + b) == 10 * pow10((a - 1 + b) as nat));
        assert(10 * (pow10((a - 1) as nat) * pow10(b)) == (10 * pow10((a - 1) as nat)) * pow10(b))
            by (nonlinear_arith);
    }
}

/// Parse an unsigned byte (optional leading `+`, then digits).
pub fn parse_u8_text(bytes: &Vec<u8>) -> (r: Option<u8>)
    ensures
        r is Some <==> valid_u8_text(bytes@),
        r matches Some(v) ==> v == u8_text_value(bytes@),
{
    let n: usize = bytes.len();
    if n == 0 {
        return None;
    }
    let start: usize = if bytes[0] == 43 {
        1
    } else {
        0
    };
    let (end, acc) = scan_digits(bytes, start, 0xffff_ffff_ffff_ffffu128);
    if end != n || end == start {
        return None;
    }
    if acc > 255 {
        return None;
    }
    Some(acc as u8)
}

pub open spec fn u8_text_start(s: Seq<u8>) -> int {
    if s.len() > 0 && s[0] == 43 {
        1
    } else {
        0
    }
}

/// The text is an optional `+` followed by one or more digits whose value
/// fits a `u8`.
pub open spec fn valid_u8_text(s: Seq<u8>) -> bool {
    &&& s.len() > 0
    &&& brun(s, u8_text_start(s)) == s.len() - u8_text_start(s)
    &&& s.len() - u8_text_start(s) >= 1
    &&& bval(s, u8_text_start(s), s.len() as int) <= 255
}

pub open spec fn u8_text_value(s: Seq<u8>) -> int {
    bval(s, u8_text_start(s), s.len() as int)
}

} // verus!
