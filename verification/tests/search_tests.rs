//! Peak matching and result aggregation.

use mzsniffer::defaults::DefaultPolymers;
use mzsniffer::mass::MASS_SCALE;
use mzsniffer::mzml::MS1Spectra;
use mzsniffer::mzml::Representation;
use mzsniffer::mzml::Spectrum;
use mzsniffer::polymer::Polymer;
use mzsniffer::search::find_peaks;
use mzsniffer::search::search;
use mzsniffer::search::search_for_polymer;

fn spectrum(mz: Vec<u64>, intensity: Vec<u64>, tic: u64, rt: u64) -> Spectrum {
    Spectrum {
        ms_level: 1,
        id: String::new(),
        representation: Representation::Centroid,
        scan_start_time: rt,
        total_ion_current: tic,
        mz,
        intensity,
    }
}

#[test]
fn test_smoke() {
    let _ = DefaultPolymers::new();
}

#[test]
fn catalog_has_the_sixteen_known_contaminants() {
    let catalog = DefaultPolymers::new();
    assert_eq!(catalog.0.len(), 16);
    assert_eq!(catalog.0[0].name, "PEG+1H");
    assert_eq!(catalog.0[15].name, "IGEPAL CA-630 (NP-40)");
}

#[test]
fn no_peak_within_tolerance_gives_zero() {
    // One ladder point at 100 Da with a 0.1 Da window; peaks far away.
    let q = vec![100 * MASS_SCALE];
    let t = vec![MASS_SCALE / 10];
    let mz = vec![90 * MASS_SCALE, 110 * MASS_SCALE];
    let it = vec![500u64, 700u64];
    assert_eq!(find_peaks(&q, &t, &mz, &it), 0);
}

#[test]
fn single_matching_peak_gives_its_intensity() {
    let q = vec![100 * MASS_SCALE];
    let t = vec![MASS_SCALE / 10];
    let mz = vec![90 * MASS_SCALE, 100 * MASS_SCALE + 1000, 110 * MASS_SCALE];
    let it = vec![500u64, 42u64, 700u64];
    assert_eq!(find_peaks(&q, &t, &mz, &it), 42);
}

#[test]
fn several_matching_peaks_give_the_maximum_not_the_sum() {
    let q = vec![100 * MASS_SCALE];
    let t = vec![MASS_SCALE];
    let mz = vec![
        100 * MASS_SCALE - 5000,
        100 * MASS_SCALE,
        100 * MASS_SCALE + 5000,
    ];
    let it = vec![30u64, 90u64, 60u64];
    assert_eq!(find_peaks(&q, &t, &mz, &it), 90);
}

#[test]
fn each_ladder_point_contributes_its_own_best_peak() {
    let q = vec![100 * MASS_SCALE, 200 * MASS_SCALE];
    let t = vec![MASS_SCALE, MASS_SCALE];
    let mz = vec![100 * MASS_SCALE, 200 * MASS_SCALE];
    let it = vec![11u64, 31u64];
    assert_eq!(find_peaks(&q, &t, &mz, &it), 42);
}

#[test]
fn window_boundaries_are_inclusive() {
    let q = vec![100 * MASS_SCALE];
    let t = vec![1000u64];
    let mz = vec![100 * MASS_SCALE - 1000, 100 * MASS_SCALE + 1000];
    let it = vec![5u64, 9u64];
    assert_eq!(find_peaks(&q, &t, &mz, &it), 9);
}

#[test]
fn search_for_polymer_fills_one_value_per_spectrum() {
    let mut poly = Polymer::new("PEG+1H", "H2O", "C2H4O", 1, true);
    let s1 = spectrum(vec![190_178_411_505_165], vec![1000], 5, 1);
    let s2 = spectrum(vec![90 * MASS_SCALE], vec![800], 7, 2);
    let collection = MS1Spectra { spectra: vec![s1, s2], scan_range: (0, 200 * MASS_SCALE) };
    let res = search_for_polymer(&mut poly, &collection, &(10 * MASS_SCALE), "ppm").unwrap();
    assert_eq!(res.name, "PEG+1H");
    assert_eq!(res.xic.len(), 2);
    assert_eq!(res.xic[0], 1000);
    assert_eq!(res.xic[1], 0);
    assert_eq!(res.total, 1000);
}

#[test]
fn search_reports_every_catalog_entry_and_the_axes() {
    let s1 = spectrum(vec![], vec![], 50, 10);
    let s2 = spectrum(vec![], vec![], 70, 20);
    let collection = MS1Spectra { spectra: vec![s1, s2], scan_range: (0, 100 * MASS_SCALE) };
    let res = search("run.mzML".to_string(), collection, &(10 * MASS_SCALE), "ppm").unwrap();
    assert_eq!(res.filename, "run.mzML");
    assert_eq!(res.polymers.len(), 16);
    for poly in res.polymers.iter() {
        assert_eq!(poly.xic.len(), 2);
        assert_eq!(poly.total, 0);
    }
    assert_eq!(res.ret_times, vec![10, 20]);
    assert_eq!(res.tic, vec![50, 70]);
    assert_eq!(res.total, 120);
}

#[test]
fn search_rejects_an_unknown_unit() {
    let collection = MS1Spectra { spectra: vec![], scan_range: (0, 100 * MASS_SCALE) };
    assert!(search("x".to_string(), collection, &MASS_SCALE, "lightyears").is_err());
}

#[test]
fn spiked_contaminant_dominates_every_other_catalog_entry() {
    // Put peaks of realistic instrument magnitude (1e11 source units,
    // 1e13 intensity units) exactly on the PEG+1H ladder and see that its
    // total is at least an order of magnitude above every other entry's.
    let peak: u64 = 10_000_000_000_000;
    let mut peg = Polymer::new("PEG+1H", "H2O", "C2H4O", 1, true);
    let ceiling: u64 = 1500 * MASS_SCALE;
    peg.calculate_bounds(&ceiling, &(10 * MASS_SCALE), "ppm").unwrap();
    let points = peg.precursors.clone().unwrap();
    let count = points.len() as u64;
    let intensities: Vec<u64> = points.iter().map(|_| peak).collect();
    let s = spectrum(points, intensities, 1, 1);
    let collection = MS1Spectra { spectra: vec![s], scan_range: (0, ceiling) };
    let res = search("spiked.mzML".to_string(), collection, &(10 * MASS_SCALE), "ppm").unwrap();
    let mut peg_total: u64 = 0;
    let mut best_other: u64 = 0;
    for poly in res.polymers.iter() {
        if poly.name == "PEG+1H" {
            peg_total = poly.total;
        } else if poly.total > best_other {
            best_other = poly.total;
        }
    }
    // Every ladder point found its peak, with no saturation.
    assert_eq!(peg_total, count * peak);
    assert!(peg_total >= 10 * best_other.max(1));
}
