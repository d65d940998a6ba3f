//! Formula-mass and m/z conversion behaviour.
//!
//! All values are fixed-point integers in units of 10^-13 dalton.

use mzsniffer::mass::formula_mass;
use mzsniffer::mass::mass_to_mz;
use mzsniffer::mass::MassError;
use mzsniffer::mass::MASS_SCALE;
use mzsniffer::mass::PROTON;

#[test]
fn test_formulas() {
    assert_eq!(formula_mass("H2O"), Ok(180_105_646_837_036));
    assert_eq!(formula_mass("Si2H"), Ok(569_616_781_021_710));
}

#[test]
fn test_mass_to_mz() {
    let mass = formula_mass("H2O").unwrap();
    assert_eq!(mass_to_mz(mass, 1, true), 190_178_411_505_165);
    assert_eq!(mass_to_mz(mass, 2, true), 100_125_588_086_647);
}

#[test]
fn empty_formula_is_massless() {
    assert_eq!(formula_mass(""), Ok(0));
}

#[test]
fn multi_digit_counts_and_two_letter_symbols() {
    // C14H22ONa: one of the catalog cores.
    let expected: u64 =
        14 * 120_000_000_000_000 + 22 * 10_078_250_320_710 + 159_949_146_195_616
            + 229_897_692_820_190;
    assert_eq!(formula_mass("C14H22ONa"), Ok(expected));
}

#[test]
fn count_zero_contributes_nothing() {
    assert_eq!(formula_mass("C0H2O"), formula_mass("H2O"));
}

#[test]
fn unknown_element_is_rejected() {
    assert_eq!(formula_mass("Xy2"), Err(MassError::UnknownElement));
    // A known letter followed by an unknown two-letter pairing.
    assert_eq!(formula_mass("Hg"), Err(MassError::UnknownElement));
}

#[test]
fn characters_outside_the_grammar_are_skipped() {
    assert_eq!(formula_mass("(H2O)"), formula_mass("H2O"));
}

#[test]
fn oversized_formula_overflows() {
    assert_eq!(formula_mass("C99999999999999999999"), Err(MassError::Overflow));
}

#[test]
fn unprotonated_mz_is_plain_division() {
    assert_eq!(mass_to_mz(100 * MASS_SCALE, 2, false), 50 * MASS_SCALE);
}

#[test]
fn proton_constant_matches_reference_value() {
    // 1.00727646681290 Da at the fixed-point scale.
    assert_eq!(PROTON, 10_072_764_668_129);
}
