//! Ladder generation and tolerance windows.

use mzsniffer::mass::formula_mass;
use mzsniffer::mass::MASS_SCALE;
use mzsniffer::mass::PROTON;
use mzsniffer::polymer::Polymer;

#[test]
fn polymer_smoke() {
    let mut poly = Polymer::new("test", "CH3", "OH", 3, true);
    poly.calculate_bounds(&(100 * MASS_SCALE), &(10 * MASS_SCALE), "ppm").unwrap();
    assert!(poly.precursors.is_some());
    assert!(poly.tols.is_some());
}

#[test]
fn ladder_points_follow_core_plus_repeats() {
    let mut poly = Polymer::new("PEG+1H", "H2O", "C2H4O", 1, true);
    let ceiling: u64 = 120 * MASS_SCALE;
    poly.calculate_bounds(&ceiling, &MASS_SCALE, "da").unwrap();
    let ps = poly.precursors.as_ref().unwrap();
    let core = formula_mass("H2O").unwrap();
    let rep = formula_mass("C2H4O").unwrap();
    assert!(ps.len() >= 1);
    for (k, p) in ps.iter().enumerate() {
        let expected = core + (k as u64) * rep + PROTON;
        assert_eq!(*p, expected);
        assert!(*p <= ceiling);
    }
    // The next point would exceed the ceiling.
    let next = core + (ps.len() as u64) * rep + PROTON;
    assert!(next > ceiling);
}

#[test]
fn zero_repeat_mass_gives_one_point() {
    let mut poly = Polymer::new("plain", "H2O", "", 1, true);
    poly.calculate_bounds(&(1_000_000 * MASS_SCALE), &MASS_SCALE, "da").unwrap();
    assert_eq!(poly.precursors.as_ref().unwrap().len(), 1);
    assert_eq!(poly.precursors.as_ref().unwrap()[0], 190_178_411_505_165);

    // A far higher ceiling still yields exactly the one point.
    let mut tall = Polymer::new("plain", "H2O", "", 1, true);
    tall.calculate_bounds(&(u64::MAX / 2), &MASS_SCALE, "da").unwrap();
    assert_eq!(tall.precursors.as_ref().unwrap().len(), 1);
}

#[test]
fn charge_divides_and_protonates_each_point() {
    let mut poly = Polymer::new("PEG+2H", "H2O", "C2H4O", 2, true);
    poly.calculate_bounds(&(100 * MASS_SCALE), &MASS_SCALE, "da").unwrap();
    let ps = poly.precursors.as_ref().unwrap();
    let core = formula_mass("H2O").unwrap();
    let rep = formula_mass("C2H4O").unwrap();
    for (k, p) in ps.iter().enumerate() {
        assert_eq!(*p, (core + (k as u64) * rep) / 2 + PROTON);
    }
}

#[test]
fn da_tolerance_is_constant() {
    let mut poly = Polymer::new("PEG+1H", "H2O", "C2H4O", 1, true);
    let tol: u64 = 5 * MASS_SCALE / 10;  // 0.5 Da
    poly.calculate_bounds(&(500 * MASS_SCALE), &tol, "da").unwrap();
    let ps = poly.precursors.as_ref().unwrap();
    let ts = poly.tols.as_ref().unwrap();
    assert_eq!(ps.len(), ts.len());
    for t in ts.iter() {
        assert_eq!(*t, tol);
    }
}

#[test]
fn ppm_tolerance_scales_with_each_point() {
    let mut poly = Polymer::new("PEG+1H", "H2O", "C2H4O", 1, true);
    let tol: u64 = 10 * MASS_SCALE;  // 10 ppm
    poly.calculate_bounds(&(500 * MASS_SCALE), &tol, "ppm").unwrap();
    let ps = poly.precursors.as_ref().unwrap();
    let ts = poly.tols.as_ref().unwrap();
    assert_eq!(ps.len(), ts.len());
    for (p, t) in ps.iter().zip(ts.iter()) {
        let wide = (*p as u128) * (tol as u128) / 10_000_000_000_000_000_000u128;
        assert_eq!(*t as u128, wide);
    }
    // Larger points get larger windows.
    for k in 1..ts.len() {
        assert!(ts[k] >= ts[k - 1]);
    }
}

#[test]
fn unit_names_are_case_insensitive() {
    let mut a = Polymer::new("x", "H2O", "C2H4O", 1, true);
    assert!(a.calculate_bounds(&(100 * MASS_SCALE), &MASS_SCALE, "Da").is_ok());
    let mut b = Polymer::new("x", "H2O", "C2H4O", 1, true);
    assert!(b.calculate_bounds(&(100 * MASS_SCALE), &MASS_SCALE, "PPM").is_ok());
}

#[test]
fn unknown_unit_is_a_configuration_error() {
    let mut poly = Polymer::new("x", "H2O", "C2H4O", 1, true);
    let r = poly.calculate_bounds(&(100 * MASS_SCALE), &MASS_SCALE, "mDa");
    assert!(r.is_err());
    // The polymer is left untouched.
    assert!(poly.precursors.is_none());
    assert!(poly.tols.is_none());
}

#[test]
fn unknown_element_in_formula_is_reported() {
    let mut poly = Polymer::new("bad", "Qq", "C2H4O", 1, true);
    assert!(poly.calculate_bounds(&(100 * MASS_SCALE), &MASS_SCALE, "da").is_err());
}
