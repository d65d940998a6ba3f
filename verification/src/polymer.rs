//! Theoretical mass ladders for polymer contaminants.
//!
//! A `Polymer` pairs a non-repeating core formula with a repeating-unit
//! formula; `calculate_bounds` derives the ladder of theoretical m/z points
//! up to a ceiling, together with one matching tolerance per point.

use vstd::prelude::*;
use vstd::arithmetic::div_mod::lemma_div_is_ordered;
use vstd::string::StrSliceExecFns;
use crate::mass::formula_fits;
use crate::mass::formula_mass;
use crate::mass::formula_val;
use crate::mass::spec_mz;
use crate::mass::MassError;
use crate::mass::PROTON;
use crate::search::SearchError;

verus! {

/// `point * tol / PPM_DIVISOR` is the ppm tolerance: the divisor folds the
/// 1e6 of "parts per million" with the fixed-point scale of `tol`.
pub const PPM_DIVISOR: u128 = 10_000_000_000_000_000_000;

/// The k-th theoretical m/z point of a ladder: core plus k repeats,
/// converted to m/z.
pub open spec fn ladder_point(core: int, rep: int, charge: int, protonate: bool, k: int) -> int {
    spec_mz(core + k * rep, charge, protonate)
}

/// `ps` is exactly the ladder of points that stay within `ceiling`:
/// successive points until the first one above the ceiling, or the single
/// k = 0 point when the repeat mass is zero.
pub open spec fn is_ladder(
    ps: Seq<u64>,
    core: int,
    rep: int,
    charge: int,
    protonate: bool,
    ceiling: int,
) -> bool {
    &&& forall|k: int|
        0 <= k < ps.len() ==> ps[k] == ladder_point(core, rep, charge, protonate, k)
    &&& forall|k: int| 0 <= k < ps.len() ==> ladder_point(core, rep, charge, protonate, k) <= ceiling
    &&& (rep == 0 ==> ps.len() == if ladder_point(core, rep, charge, protonate, 0) <= ceiling {
        1int
    } else {
        0int
    })
    &&& (rep != 0 ==> ladder_point(core, rep, charge, protonate, ps.len() as int) > ceiling)
}

/// Dalton tolerances: the given tolerance, replicated once per point.
pub open spec fn is_da_tolerance(ts: Seq<u64>, ps: Seq<u64>, tol: int) -> bool {
    &&& ts.len() == ps.len()
    &&& forall|k: int| 0 <= k < ts.len() ==> ts[k] == tol
}

/// ppm tolerances: each point's value scaled by `tol` parts per million
/// (fixed-point division).
pub open spec fn is_ppm_tolerance(ts: Seq<u64>, ps: Seq<u64>, tol: int) -> bool {
    &&& ts.len() == ps.len()
    &&& forall|k: int| 0 <= k < ts.len() ==> ts[k] == ps[k] * tol / (PPM_DIVISOR as int)
}

/// Case-insensitive match for the dalton unit name.
pub open spec fn is_da_unit(s: Seq<char>) -> bool {
    &&& s.len() == 2
    &&& (s[0] == 'd' || s[0] == 'D')
    &&& (s[1] == 'a' || s[1] == 'A')
}

/// Case-insensitive match for the ppm unit name.
pub open spec fn is_ppm_unit(s: Seq<char>) -> bool {
    &&& s.len() == 3
    &&& (s[0] == 'p' || s[0] == 'P')
    &&& (s[1] == 'p' || s[1] == 'P')
    &&& (s[2] == 'm' || s[2] == 'M')
}

/// One known polymer contaminant and, once computed, its search ladder.
#[derive(Debug)]
pub struct Polymer {
    /// The name of the polymer.
    pub name: String,
    /// The empirical formula for the non-repeating parts of the molecule.
    pub core_formula: String,
    /// The empirical formula for the repeating part of the molecule.
    pub rep_formula: String,
    /// The charge of the molecule.
    pub charge: u32,
    /// Add protons to account for the charge?  If false, the charged atoms
    /// belong in the core formula.
    pub protonate: bool,
    /// The theoretical precursor m/z values.
    pub precursors: Option<Vec<u64>>,
    /// The tolerance around each m/z value.
    pub tols: Option<Vec<u64>>,
}

impl Polymer {
    pub open spec fn spec_core(self) -> Seq<char> {
        self.core_formula@
    }

    pub open spec fn spec_rep(self) -> Seq<char> {
        self.rep_formula@
    }

    pub open spec fn spec_charge(self) -> u32 {
        self.charge
    }

    pub open spec fn spec_protonate(self) -> bool {
        self.protonate
    }

    /// Both formulas evaluate to masses in the fixed-point range.
    pub open spec fn formulas_ok(self) -> bool {
        formula_fits(self.spec_core()) && formula_fits(self.spec_rep())
    }

    /// `ps` is this polymer's ladder under `ceiling`.
    pub open spec fn spec_ladder(self, ps: Seq<u64>, ceiling: int) -> bool {
        is_ladder(
            ps,
            formula_val(self.spec_core()),
            formula_val(self.spec_rep()),
            self.spec_charge() as int,
            self.spec_protonate(),
            ceiling,
        )
    }

    pub fn new(
        name: &str,
        core_formula: &str,
        rep_formula: &str,
        charge: u32,
        protonate: bool,
    ) -> (r: Polymer)
        requires
            charge >= 1,
        ensures
            r.name@ == name@,
            r.spec_core() == core_formula@,
            r.spec_rep() == rep_formula@,
            r.spec_charge() == charge,
            r.spec_protonate() == protonate,
            r.precursors is None,
            r.tols is None,
    {
        Polymer {
            name: name.to_owned(),
            core_formula: core_formula.to_owned(),
            rep_formula: rep_formula.to_owned(),
            charge,
            protonate,
            precursors: None,
            tols: None,
        }
    }

    /// The ladder of theoretical m/z values not above `max_mz`.
    ///
    /// Points are `core + k * rep` converted to m/z for k = 0, 1, 2, ...,
    /// appended while they stay within the ceiling; a zero repeat mass stops
    /// after the k = 0 point so a non-repeating molecule gives no unbounded
    /// series.
    fn mz_array(&self, max_mz: &u64) -> (r: Result<Vec<u64>, SearchError>)
        requires
            self.spec_charge() >= 1,
        ensures
            r is Ok <==> self.formulas_ok(),
            r matches Ok(ps) ==> self.spec_ladder(ps@, *max_mz as int),
    {
        let core_mass: u64 = match formula_mass(self.core_formula.as_str()) {
            Ok(m) => m,
            Err(MassError::UnknownElement) => {
                return Err(SearchError::new("unknown element in core formula"));
            },
            Err(MassError::Overflow) => {
                return Err(SearchError::new("core formula mass out of range"));
            },
        };
        let rep_mass: u64 = match formula_mass(self.rep_formula.as_str()) {
            Ok(m) => m,
            Err(MassError::UnknownElement) => {
                return Err(SearchError::new("unknown element in repeat formula"));
            },
            Err(MassError::Overflow) => {
                return Err(SearchError::new("repeat formula mass out of range"));
            },
        };
        let ghost cm: int = core_mass as int;
        let ghost rm: int = rep_mass as int;
        let ghost ch: int = self.charge as int;
        let ghost ceiling: int = *max_mz as int;
        let charge128: u128 = self.charge as u128;
        let ceiling128: u128 = *max_mz as u128;
        let proton128: u128 = if self.protonate {
            PROTON as u128
        } else {
            0
        };
        let mut mass: u128 = core_mass as u128;
        let mut out: Vec<u64> = Vec::new();
        proof {
            assert(out@.len() * rm == 0) by (nonlinear_arith)
                requires
                    out@.len() == 0,
            ;
        }
        loop
            invariant_except_break
                out@.len() >= 1 ==> rm != 0,
            invariant
                charge128 == ch,
                ceiling128 == ceiling,
                0 <= ceiling <= u64::MAX as int,
                1 <= ch <= u32::MAX as int,
                proton128 == if self.protonate {
                    PROTON as int
                } else {
                    0
                },
                rep_mass == rm,
                mass == cm + out@.len() * rm,
                forall|k: int|
                    0 <= k < out@.len() ==> out@[k] == ladder_point(
                        cm,
                        rm,
                        ch,
                        self.protonate,
                        k,
                    ),
                forall|k: int|
                    0 <= k < out@.len() ==> ladder_point(cm, rm, ch, self.protonate, k)
                        <= ceiling,
                mass < 0x8_0000_0000_0000_0000_0000_0000,
            ensures
                is_ladder(out@, cm, rm, ch, self.protonate, ceiling),
            decreases vstd::math::max((ceiling + 1) * ch - mass as int, 0int),
        {
            proof {
                assert(mass as int / ch <= mass as int) by (nonlinear_arith)
                    requires
                        1 <= ch,
                        0 <= mass,
                ;
            }
            let point128: u128 = mass / charge128 + proton128;
            proof {
                assert(point128 == ladder_point(cm, rm, ch, self.protonate, out@.len() as int));
            }
            if point128 > ceiling128 {
                proof {
                    if rm == 0 && out@.len() == 0 {
                        assert(ladder_point(cm, rm, ch, self.protonate, 0) > ceiling);
                    }
                }
                break;
            }
            out.push(point128 as u64);
            if rep_mass == 0 {
                proof {
                    assert(out@.len() == 1);
                }
                break;
            }
            proof {
                let k = out@.len() as int;
                assert(cm + (k - 1) * rm + rm == cm + k * rm) by (nonlinear_arith);
                assert(mass as int / ch <= ceiling);
                assert(mass <= ceiling * ch + ch - 1) by (nonlinear_arith)
                    requires
                        mass as int / ch <= ceiling,
                        1 <= ch,
                        0 <= mass,
                ;
                assert((ceiling + 1) * ch == ceiling * ch + ch) by (nonlinear_arith);
                assert(ceiling * ch <= (u64::MAX as int) * (u32::MAX as int)) by (nonlinear_arith)
                    requires
                        0 <= ceiling <= u64::MAX as int,
                        0 <= ch <= u32::MAX as int,
                ;
            }
            mass = mass + rep_mass as u128;
        }
        proof {
            assert(formula_val(self.spec_core()) == cm);
            assert(formula_val(self.spec_rep()) == rm);
            assert(ch == self.spec_charge() as int);
            assert(ceiling == *max_mz as int);
            assert(is_ladder(out@, cm, rm, ch, self.protonate, ceiling));
        }
        Ok(out)
    }

    /// Compute this polymer's ladder and tolerance windows.
    ///
    /// `tol` is a fixed-point tolerance value; with unit `"da"` it is used
    /// as-is for every point, with unit `"ppm"` each point gets
    /// `point * tol / 1e6` (fixed-point).  Any other unit, and any formula
    /// fault, is a configuration error and leaves the polymer unchanged.
    pub fn calculate_bounds(&mut self, max_mz: &u64, tol: &u64, unit: &str) -> (r: Result<
        (),
        SearchError,
    >)
        requires
            old(self).spec_charge() >= 1,
            is_ppm_unit(unit@) ==> *tol <= PPM_DIVISOR,
        ensures
            final(self).name == old(self).name,
            final(self).spec_core() == old(self).spec_core(),
            final(self).spec_rep() == old(self).spec_rep(),
            final(self).spec_charge() == old(self).spec_charge(),
            final(self).spec_protonate() == old(self).spec_protonate(),
            r is Ok <==> (is_da_unit(unit@) || is_ppm_unit(unit@)) && old(self).formulas_ok(),
            r is Err ==> *final(self) == *old(self),
            r is Ok ==> ({
                &&& final(self).precursors matches Some(ps)
                &&& final(self).tols matches Some(ts)
                &&& old(self).spec_ladder(ps@, *max_mz as int)
                &&& (is_da_unit(unit@) ==> is_da_tolerance(ts@, ps@, *tol as int))
                &&& (!is_da_unit(unit@) ==> is_ppm_tolerance(ts@, ps@, *tol as int))
            }),
    {
        // The unit is configuration; check it eagerly, once.
        let da: bool = unit.unicode_len() == 2 && {
            let c0 = unit.get_char(0);
            c0 == 'd' || c0 == 'D'
        } && {
            let c1 = unit.get_char(1);
            c1 == 'a' || c1 == 'A'
        };
        let ppm: bool = unit.unicode_len() == 3 && {
            let c0 = unit.get_char(0);
            c0 == 'p' || c0 == 'P'
        } && {
            let c1 = unit.get_char(1);
            c1 == 'p' || c1 == 'P'
        } && {
            let c2 = unit.get_char(2);
            c2 == 'm' || c2 == 'M'
        };
        if !da && !ppm {
            return Err(SearchError::new("invalid tolerance unit"));
        }
        let points: Vec<u64> = match self.mz_array(max_mz) {
            Ok(ps) => ps,
            Err(e) => {
                return Err(e);
            },
        };
        let n: usize = points.len();
        let mut tol_vals: Vec<u64> = Vec::new();
        if da {
            let mut k: usize = 0;
            while k < n
                invariant
                    0 <= k <= n,
                    tol_vals@.len() == k,
                    forall|j: int| 0 <= j < k ==> tol_vals@[j] == tol,
                decreases n - k,
            {
                tol_vals.push(*tol);
                k = k + 1;
            }
        } else {
            let mut k: usize = 0;
            while k < n
                invariant
                    0 <= k <= n,
                    n == points@.len(),
                    *tol <= PPM_DIVISOR,
                    tol_vals@.len() == k,
                    forall|j: int|
                        0 <= j < k ==> tol_vals@[j] == points@[j] * *tol / (PPM_DIVISOR as int),
                decreases n - k,
            {
                let p: u64 = points[k];
                proof {
                    assert((p as int) * (*tol as int) <= (u64::MAX as int) * (u64::MAX as int))
                        by (nonlinear_arith)
                        requires
                            0 <= p as int <= u64::MAX as int,
                            0 <= *tol as int <= u64::MAX as int,
                    ;
                }
                let wide: u128 = (p as u128) * (*tol as u128);
                let t: u128 = wide / PPM_DIVISOR;
                proof {
                    assert((p as int) * (*tol as int) <= (p as int) * (PPM_DIVISOR as int))
                        by (nonlinear_arith)
                        requires
                            *tol as int <= PPM_DIVISOR as int,
                            0 <= p as int,
                    ;
                    lemma_div_is_ordered(
                        (p as int) * (*tol as int),
                        (p as int) * (PPM_DIVISOR as int),
                        PPM_DIVISOR as int,
                    );
                    assert((p as int) * (PPM_DIVISOR as int) / (PPM_DIVISOR as int) == p as int)
                        by (nonlinear_arith)
                        requires
                            PPM_DIVISOR as int > 0,
                    ;
                }
                tol_vals.push(t as u64);
                k = k + 1;
            }
        }
        self.precursors = Some(points);
        self.tols = Some(tol_vals);
        Ok(())
    }
}

/// A zero repeat mass yields exactly one ladder point (whenever the k = 0
/// point itself is within the ceiling), no matter how high the ceiling is.
pub proof fn lemma_ladder_zero_repeat(
    ps: Seq<u64>,
    core: int,
    charge: int,
    protonate: bool,
    ceiling: int,
)
    requires
        is_ladder(ps, core, 0, charge, protonate, ceiling),
        ladder_point(core, 0, charge, protonate, 0) <= ceiling,
    ensures
        ps.len() == 1,
{
}

/// With a nonzero repeat mass, every ladder point is within the ceiling and
/// the next point after the last would exceed it.
pub proof fn lemma_ladder_stops_at_ceiling(
    ps: Seq<u64>,
    core: int,
    rep: int,
    charge: int,
    protonate: bool,
    ceiling: int,
)
    requires
        is_ladder(ps, core, rep, charge, protonate, ceiling),
        rep != 0,
    ensures
        forall|k: int| 0 <= k < ps.len() ==> ps[k] <= ceiling,
        ladder_point(core, rep, charge, protonate, ps.len() as int) > ceiling,
{
}

/// A contaminant definition has exactly one ladder under a given ceiling:
/// the stopping rule pins the length, the point formula each entry.
pub proof fn lemma_ladder_unique(
    ps1: Seq<u64>,
    ps2: Seq<u64>,
    core: int,
    rep: int,
    charge: int,
    protonate: bool,
    ceiling: int,
)
    requires
        is_ladder(ps1, core, rep, charge, protonate, ceiling),
        is_ladder(ps2, core, rep, charge, protonate, ceiling),
    ensures
        ps1 == ps2,
{
    if rep != 0 {
        if ps1.len() < ps2.len() {
            assert(ladder_point(core, rep, charge, protonate, ps1.len() as int) <= ceiling);
            assert(false);
        }
        if ps2.len() < ps1.len() {
            assert(ladder_point(core, rep, charge, protonate, ps2.len() as int) <= ceiling);
            assert(false);
        }
    }
    assert(ps1 =~= ps2);
}

/// Dalton tolerances are the same value at every ladder point.
pub proof fn lemma_da_tolerance_constant(ts: Seq<u64>, ps: Seq<u64>, tol: int)
    requires
        is_da_tolerance(ts, ps, tol),
    ensures
        forall|i: int, j: int| 0 <= i < ts.len() && 0 <= j < ts.len() ==> ts[i] == ts[j],
{
}

/// ppm tolerances scale with the point value: a larger point never gets a
/// smaller window, and each window is exactly the point scaled by
/// `tol` parts per million.
pub proof fn lemma_ppm_tolerance_scales(ts: Seq<u64>, ps: Seq<u64>, tol: int)
    requires
        is_ppm_tolerance(ts, ps, tol),
        tol >= 0,
    ensures
        forall|i: int, j: int|
            0 <= i < ts.len() && 0 <= j < ts.len() && ps[i] <= ps[j] ==> ts[i] <= ts[j],
{
    assert forall|i: int, j: int|
        0 <= i < ts.len() && 0 <= j < ts.len() && ps[i] <= ps[j] implies ts[i] <= ts[j] by {
        assert((ps[i] as int) * tol <= (ps[j] as int) * tol) by (nonlinear_arith)
            requires
                ps[i] as int <= ps[j] as int,
                tol >= 0,
        ;
        lemma_div_is_ordered((ps[i] as int) * tol, (ps[j] as int) * tol, PPM_DIVISOR as int);
    }
}

} // verus!
