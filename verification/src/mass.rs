//! Monoisotopic masses and empirical-formula evaluation.
//!
//! Every mass and m/z value in this crate is a fixed-point integer in units
//! of 10^-13 dalton, so each table entry below is exact and formula sums are
//! computed without rounding.

use vstd::prelude::*;
use vstd::string::StrSliceExecFns;

verus! {

/// Number of fixed-point units per dalton.
pub const MASS_SCALE: u64 = 10_000_000_000_000;

/// Mass of one proton, in fixed-point units.
pub const PROTON: u64 = 10_072_764_668_129;

/// Mass of one neutron, in fixed-point units.
pub const NEUTRON: u64 = 10_086_649_158_849;

/// First value strictly above every representable `u64`; sums are clamped
/// here so that "would not fit" is still visible after clamping.
pub const MASS_CLAMP: u128 = 0x1_0000_0000_0000_0000;

/// Why a formula could not be evaluated.
#[derive(Clone, Copy, Debug, PartialEq, Eq, Structural)]
pub enum MassError {
    /// A group matched the grammar but its element symbol is not in the table.
    UnknownElement,
    /// The summed mass does not fit in the fixed-point range.
    Overflow,
}

pub open spec fn is_upper(c: char) -> bool {
    'A' <= c && c <= 'Z'
}

pub open spec fn is_lower(c: char) -> bool {
    'a' <= c && c <= 'z'
}

pub open spec fn is_digit(c: char) -> bool {
    '0' <= c && c <= '9'
}

/// Monoisotopic mass of an element symbol (one uppercase letter, optionally
/// followed by one lowercase letter), or `None` if the symbol is unknown.
pub open spec fn spec_symbol_mass(c0: char, c1: Option<char>) -> Option<int> {
    match c1 {
        None => match c0 {
            'C' => Some(120_000_000_000_000int),
            'H' => Some(10_078_250_320_710int),
            'O' => Some(159_949_146_195_616int),
            'N' => Some(140_030_740_048_600int),
            _ => None,
        },
        Some(c) => {
            if c0 == 'N' && c == 'a' {
                Some(229_897_692_820_190int)
            } else if c0 == 'S' && c == 'i' {
                Some(279_769_265_350_500int)
            } else {
                None
            }
        },
    }
}

/// Length of the run of decimal digits in `s` starting at `i`.
pub open spec fn digit_run(s: Seq<char>, i: int) -> int
    decreases s.len() - i,
{
    if 0 <= i < s.len() && is_digit(s[i]) {
        1 + digit_run(s, i + 1)
    } else {
        0
    }
}

/// Value of the decimal digits `s[from..to]`.
pub open spec fn digits_value(s: Seq<char>, from: int, to: int) -> int
    decreases to - from,
{
    if from >= to {
        0
    } else {
        digits_value(s, from, to - 1) * 10 + (s[to - 1] as int - '0' as int)
    }
}

/// Summed mass of the formula groups found in `s` from position `i` on.
///
/// The grammar is that of the catalog formulas: repeated groups of
/// one uppercase letter, an optional lowercase letter, and an optional
/// decimal count defaulting to 1; characters that start no group are
/// skipped.  `None` means some group's symbol is not in the table.
pub open spec fn spec_formula_mass_from(s: Seq<char>, i: int) -> Option<int>
    decreases s.len() - i, 0int,
    via spec_formula_mass_from_dec
{
    if i < 0 || i >= s.len() {
        Some(0)
    } else if !is_upper(s[i]) {
        spec_formula_mass_from(s, i + 1)
    } else {
        let symlen: int = if i + 1 < s.len() && is_lower(s[i + 1]) {
            2
        } else {
            1
        };
        let c1: Option<char> = if symlen == 2 {
            Some(s[i + 1])
        } else {
            None
        };
        match spec_symbol_mass(s[i], c1) {
            None => None,
            Some(m) => {
                let dlen = digit_run(s, i + symlen);
                let count: int = if dlen == 0 {
                    1
                } else {
                    digits_value(s, i + symlen, i + symlen + dlen)
                };
                spec_formula_tail(s, i + symlen + dlen, m * count)
            },
        }
    }
}

proof fn lemma_digit_run_nonneg(s: Seq<char>, i: int)
    requires
        0 <= i <= s.len(),
    ensures
        0 <= digit_run(s, i),
        i + digit_run(s, i) <= s.len(),
    decreases s.len() - i,
{
    if 0 <= i < s.len() && is_digit(s[i]) {
        lemma_digit_run_nonneg(s, i + 1);
    }
}

proof fn lemma_digit_run_digits(s: Seq<char>, i: int)
    requires
        0 <= i <= s.len(),
    ensures
        forall|k: int| i <= k < i + digit_run(s, i) ==> is_digit(s[k]),
    decreases s.len() - i,
{
    if 0 <= i < s.len() && is_digit(s[i]) {
        lemma_digit_run_digits(s, i + 1);
    }
}

proof fn lemma_digits_value_nonneg(s: Seq<char>, from: int, to: int)
    requires
        forall|k: int| from <= k < to ==> is_digit(s[k]),
    ensures
        digits_value(s, from, to) >= 0,
    decreases to - from,
{
    if from < to {
        lemma_digits_value_nonneg(s, from, to - 1);
    }
}

/// Every mass the formula grammar yields is nonnegative.
pub proof fn lemma_formula_mass_nonneg(s: Seq<char>, i: int)
    ensures
        spec_formula_mass_from(s, i) matches Some(m) ==> m >= 0,
    decreases s.len() - i,
{
    if i < 0 || i >= s.len() {
    } else if !is_upper(s[i]) {
        lemma_formula_mass_nonneg(s, i + 1);
    } else {
        let symlen: int = if i + 1 < s.len() && is_lower(s[i + 1]) {
            2
        } else {
            1
        };
        let c1: Option<char> = if symlen == 2 {
            Some(s[i + 1])
        } else {
            None
        };
        match spec_symbol_mass(s[i], c1) {
            None => {},
            Some(m) => {
                lemma_digit_run_nonneg(s, i + symlen);
                lemma_digit_run_digits(s, i + symlen);
                let dlen = digit_run(s, i + symlen);
                let count: int = if dlen == 0 {
                    1
                } else {
                    digits_value(s, i + symlen, i + symlen + dlen)
                };
                lemma_digits_value_nonneg(s, i + symlen, i + symlen + dlen);
                assert(m * count >= 0) by (nonlinear_arith)
                    requires
                        m >= 0,
                        count >= 0,
                ;
                lemma_formula_mass_nonneg(s, i + symlen + dlen);
                assert(spec_formula_mass_from(s, i) == spec_formula_tail(
                    s,
                    i + symlen + dlen,
                    m * count,
                ));
            },
        }
    }
}

#[via_fn]
proof fn spec_formula_mass_from_dec(s: Seq<char>, i: int) {
    if 0 <= i < s.len() && is_upper(s[i]) {
        let symlen: int = if i + 1 < s.len() && is_lower(s[i + 1]) {
            2
        } else {
            1
        };
        lemma_digit_run_nonneg(s, i + symlen);
    }
}

/// Helper that adds `acc` to the mass of the remaining groups.
pub open spec fn spec_formula_tail(s: Seq<char>, i: int, acc: int) -> Option<int>
    decreases s.len() - i, 1int,
{
    match spec_formula_mass_from(s, i) {
        None => None,
        Some(rest) => Some(acc + rest),
    }
}

/// Summed monoisotopic mass of an empirical formula, in fixed-point units.
pub open spec fn spec_formula_mass(s: Seq<char>) -> Option<int> {
    spec_formula_mass_from(s, 0)
}

/// Whether a formula evaluates to a mass that fits the fixed-point range.
pub open spec fn formula_fits(s: Seq<char>) -> bool {
    match spec_formula_mass(s) {
        Some(m) => m <= u64::MAX,
        None => false,
    }
}

/// The mass a formula evaluates to (meaningful when `formula_fits` holds).
pub open spec fn formula_val(s: Seq<char>) -> int {
    match spec_formula_mass(s) {
        Some(m) => m,
        None => 0,
    }
}

/// m/z of a mass at a given charge: the mass split over the charge, plus one
/// proton when the ion is protonated.  Division is fixed-point (truncating).
pub open spec fn spec_mz(mass: int, charge: int, protonate: bool) -> int {
    mass / charge + if protonate {
        PROTON as int
    } else {
        0
    }
}

/// Mass table lookup for one element symbol.
fn atomic_mass(c0: char, c1: Option<char>) -> (r: Option<u64>)
    ensures
        match r {
            Some(m) => spec_symbol_mass(c0, c1) == Some(m as int),
            None => spec_symbol_mass(c0, c1) is None,
        },
{
    match c1 {
        None => match c0 {
            'C' => Some(120_000_000_000_000u64),
            'H' => Some(10_078_250_320_710u64),
            'O' => Some(159_949_146_195_616u64),
            'N' => Some(140_030_740_048_600u64),
            _ => None,
        },
        Some(c) => {
            if c0 == 'N' && c == 'a' {
                Some(229_897_692_820_190u64)
            } else if c0 == 'S' && c == 'i' {
                Some(279_769_265_350_500u64)
            } else {
                None
            }
        },
    }
}

/// Compute the summed monoisotopic mass of an empirical formula.
///
/// Returns the exact fixed-point sum of the grammar's groups; an unknown
/// element symbol is reported as `MassError::UnknownElement` (the catalog is
/// closed, so this is a configuration fault), and a sum beyond the
/// fixed-point range as `MassError::Overflow`.
pub fn formula_mass(formula: &str) -> (r: Result<u64, MassError>)
    ensures
        match spec_formula_mass(formula@) {
            None => r == Err::<u64, MassError>(MassError::UnknownElement),
            Some(m) => if m <= u64::MAX {
                r == Ok::<u64, MassError>(m as u64)
            } else {
                r == Err::<u64, MassError>(MassError::Overflow)
            },
        },
        spec_formula_mass(formula@) matches Some(m) ==> m >= 0,
{
    proof {
        lemma_formula_mass_nonneg(formula@, 0);
    }
    let n: usize = formula.unicode_len();
    let mut i: usize = 0;
    let mut total: u128 = 0;
    let ghost mut true_total: int = 0int;
    while i < n
        invariant
            n == formula@.len(),
            0 <= i <= n,
            0 <= true_total,
            total == if true_total <= MASS_CLAMP {
                true_total
            } else {
                MASS_CLAMP as int
            },
            match spec_formula_mass_from(formula@, i as int) {
                None => spec_formula_mass(formula@) is None,
                Some(rest) => spec_formula_mass(formula@) == Some(true_total + rest),
            },
        decreases n - i,
    {
        let c0 = formula.get_char(i);
        if !('A' <= c0 && c0 <= 'Z') {
            i = i + 1;
        } else {
            let mut symlen: usize = 1;
            let mut c1: Option<char> = None;
            if i + 1 < n {
                let cnext = formula.get_char(i + 1);
                if 'a' <= cnext && cnext <= 'z' {
                    symlen = 2;
                    c1 = Some(cnext);
                }
            }
            let m: u64 = match atomic_mass(c0, c1) {
                Some(m) => m,
                None => {
                    return Err(MassError::UnknownElement);
                },
            };
            // Scan the digit run that gives this group's count.
            let start: usize = i + symlen;
            let mut j: usize = start;
            let mut count: u128 = 0;
            let ghost mut true_count: int = 0int;
            while j < n
                invariant
                    n == formula@.len(),
                    start <= j <= n,
                    0 <= true_count,
                    count == if true_count <= MASS_CLAMP {
                        true_count
                    } else {
                        MASS_CLAMP as int
                    },
                    true_count == digits_value(formula@, start as int, j as int),
                    digit_run(formula@, start as int) == digit_run(formula@, j as int) + j
                        - start,
                ensures
                    n == formula@.len(),
                    start <= j <= n,
                    0 <= true_count,
                    count == if true_count <= MASS_CLAMP {
                        true_count
                    } else {
                        MASS_CLAMP as int
                    },
                    true_count == digits_value(formula@, start as int, j as int),
                    digit_run(formula@, start as int) == digit_run(formula@, j as int) + j
                        - start,
                    j == n || !is_digit(formula@[j as int]),
                decreases n - j,
            {
                let cj = formula.get_char(j);
                if !('0' <= cj && cj <= '9') {
                    break;
                }
                let d: u128 = (cj as u32 as u128) - ('0' as u32 as u128);
                let next: u128 = count * 10 + d;
                count = if next > MASS_CLAMP {
                    MASS_CLAMP
                } else {
                    next
                };
                proof {
                    true_count = true_count * 10 + (cj as int - '0' as int);
                }
                j = j + 1;
            }
            proof {
                assert(digit_run(formula@, j as int) == 0);
            }
            let dlen: usize = j - start;
            if dlen == 0 {
                count = 1;
                proof {
                    true_count = 1int;
                }
            }
            // Add this group's contribution, clamped at MASS_CLAMP.
            let addend: u128 = (m as u128) * count;
            let ghost true_addend: int = m as int * true_count;
            let addend_c: u128 = if addend > MASS_CLAMP {
                MASS_CLAMP
            } else {
                addend
            };
            proof {
                let s = formula@;
                let ii = i as int;
                let jj = j as int;
                let sl = symlen as int;
                assert(digit_run(s, jj) == 0);
                assert(digit_run(s, ii + sl) == jj - (ii + sl));
                assert(m as int * true_count >= 0) by (nonlinear_arith)
                    requires m as int >= 0 && true_count >= 0;
                if true_count <= MASS_CLAMP {
                    assert(addend == true_addend);
                } else {
                    assert(count == MASS_CLAMP);
                    assert(m >= 1);
                    assert(m as int * true_count >= m as int * MASS_CLAMP) by (nonlinear_arith)
                        requires m as int >= 1 && true_count >= MASS_CLAMP as int;
                    assert(addend >= MASS_CLAMP);
                }
                assert(spec_formula_mass_from(s, ii) == spec_formula_tail(
                    s,
                    jj,
                    m as int * true_count,
                ));
            }
            let next_total: u128 = total + addend_c;
            total = if next_total > MASS_CLAMP {
                MASS_CLAMP
            } else {
                next_total
            };
            proof {
                true_total = true_total + true_addend;
            }
            i = j;
        }
    }
    if total > u64::MAX as u128 {
        Err(MassError::Overflow)
    } else {
        Ok(total as u64)
    }
}

/// Convert a mass to an m/z value.
///
/// The result is `mass / charge` in fixed-point units, plus one proton mass
/// when `protonate` is set.
pub fn mass_to_mz(mass: u64, charge: u32, protonate: bool) -> (r: u64)
    requires
        charge >= 1,
        mass as int / charge as int + PROTON as int <= u64::MAX,
    ensures
        r == spec_mz(mass as int, charge as int, protonate),
{
    let q: u64 = mass / (charge as u64);
    if protonate {
        q + PROTON
    } else {
        q
    }
}

/// m/z conversion at charge 1 with protonation adds exactly one proton mass.
pub proof fn lemma_mz_charge_one_protonated(mass: int)
    ensures
        spec_mz(mass, 1, true) == mass + PROTON,
{
}

/// m/z conversion at charge 2 with protonation halves the mass (fixed-point
/// division) and adds exactly one proton mass.
pub proof fn lemma_mz_charge_two_protonated(mass: int)
    ensures
        spec_mz(mass, 2, true) == mass / 2 + PROTON,
{
}

} // verus!
