//! Detection of polymer contaminants in mass-spectrometry acquisitions.
//!
//! The crate parses instrument-output documents into first-stage spectra,
//! generates theoretical mass ladders for a catalog of known contaminants,
//! and scores each ladder against every spectrum.  Every quantity is a
//! fixed-point integer, so every computation is exact integer arithmetic
//! with truncating division and saturation at the representable maximum.
//! Masses, m/z values and times carry 10^-13 units; intensities, ion
//! currents and their sums carry 10^-2 units, giving them headroom far
//! beyond the magnitudes real instruments report.

pub mod mass;
pub mod numtext;
pub mod ieee;
mod xmlio;
pub mod mzml;
pub mod polymer;
pub mod defaults;
pub mod search;

pub use mass::formula_mass;
pub use mass::mass_to_mz;
