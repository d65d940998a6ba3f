//! Peak-matching search over parsed spectra: one result per contaminant.
//!
//! For each contaminant ladder and each spectrum, every ladder point picks
//! the most intense observed peak inside its tolerance window; the sum over
//! points is that spectrum's chromatogram value, and the sum over spectra is
//! the contaminant's total.  Sums saturate at the fixed-point maximum.

use vstd::prelude::*;
use crate::defaults::catalog_charge;
use crate::defaults::catalog_core;
use crate::defaults::catalog_name;
use crate::defaults::catalog_protonate;
use crate::defaults::catalog_rep;
use crate::defaults::DefaultPolymers;
use crate::mass::formula_val;
use crate::mzml::MS1Spectra;
use crate::mzml::Spectrum;
use crate::polymer::is_da_tolerance;
use crate::polymer::is_da_unit;
use crate::polymer::is_ppm_tolerance;
use crate::polymer::is_ppm_unit;
use crate::polymer::Polymer;
use crate::polymer::PPM_DIVISOR;

verus! {

/// `m` lies within `tol` of `q`.
pub open spec fn in_window(q: int, tol: int, m: int) -> bool {
    q - tol <= m && m <= q + tol
}

/// The best (largest) intensity among the first `n` peaks whose m/z lies in
/// the window around `q`; 0 when none does.  Ties keep the earlier peak,
/// mirroring the strict comparison of the scan.
pub open spec fn best_match(q: int, tol: int, mz: Seq<u64>, inten: Seq<u64>, n: int) -> int
    decreases n,
{
    if n <= 0 {
        0
    } else {
        let prev = best_match(q, tol, mz, inten, n - 1);
        if in_window(q, tol, mz[n - 1] as int) && inten[n - 1] > prev {
            inten[n - 1] as int
        } else {
            prev
        }
    }
}

/// Length of the paired prefix of two arrays (entries beyond it are ignored).
pub open spec fn zip_len(a: Seq<u64>, b: Seq<u64>) -> int {
    if a.len() <= b.len() {
        a.len() as int
    } else {
        b.len() as int
    }
}

/// The best matched intensity for one ladder point over a whole spectrum.
pub open spec fn spec_best_peak(q: u64, tol: u64, mz: Seq<u64>, inten: Seq<u64>) -> int {
    best_match(q as int, tol as int, mz, inten, zip_len(mz, inten))
}

/// Sum of the best matched intensities of the first `k` ladder points.
pub open spec fn xic_sum(qs: Seq<u64>, ts: Seq<u64>, mz: Seq<u64>, inten: Seq<u64>, k: int) -> int
    decreases k,
{
    if k <= 0 {
        0
    } else {
        xic_sum(qs, ts, mz, inten, k - 1) + spec_best_peak(qs[k - 1], ts[k - 1], mz, inten)
    }
}

/// One spectrum's chromatogram value for a ladder: the sum over all ladder
/// points of the best matched intensity.
pub open spec fn spec_xic_value(qs: Seq<u64>, ts: Seq<u64>, mz: Seq<u64>, inten: Seq<u64>) -> int {
    xic_sum(qs, ts, mz, inten, zip_len(qs, ts))
}

/// Clamp a mathematical sum at the largest representable value.
pub open spec fn sat64(x: int) -> int {
    if x > u64::MAX {
        u64::MAX as int
    } else {
        x
    }
}

/// Sum of the first `k` entries of a sequence.
pub open spec fn seq_sum(xs: Seq<u64>, k: int) -> int
    decreases k,
{
    if k <= 0 {
        0
    } else {
        seq_sum(xs, k - 1) + xs[k - 1]
    }
}

proof fn lemma_best_match_nonneg(q: int, tol: int, mz: Seq<u64>, inten: Seq<u64>, n: int)
    ensures
        best_match(q, tol, mz, inten, n) >= 0,
    decreases n,
{
    if n > 0 {
        lemma_best_match_nonneg(q, tol, mz, inten, n - 1);
    }
}

proof fn lemma_best_match_props(q: int, tol: int, mz: Seq<u64>, inten: Seq<u64>, n: int)
    requires
        n <= zip_len(mz, inten),
    ensures
        forall|i: int|
            0 <= i < n && in_window(q, tol, mz[i] as int) ==> inten[i] as int <= best_match(
                q,
                tol,
                mz,
                inten,
                n,
            ),
        best_match(q, tol, mz, inten, n) == 0 || exists|i: int|
            0 <= i < n && in_window(q, tol, mz[i] as int) && inten[i] as int == best_match(
                q,
                tol,
                mz,
                inten,
                n,
            ),
    decreases n,
{
    if n > 0 {
        lemma_best_match_props(q, tol, mz, inten, n - 1);
    }
}

/// A ladder point whose window holds no observed peak contributes nothing:
/// its best matched intensity is 0.
pub proof fn lemma_best_peak_no_match(q: u64, tol: u64, mz: Seq<u64>, inten: Seq<u64>)
    requires
        forall|i: int| 0 <= i < zip_len(mz, inten) ==> !in_window(q as int, tol as int, mz[i] as int),
    ensures
        spec_best_peak(q, tol, mz, inten) == 0,
{
    lemma_best_match_props(q as int, tol as int, mz, inten, zip_len(mz, inten));
}

/// When exactly one peak lies in a ladder point's window, the point's best
/// matched intensity is exactly that peak's intensity.
pub proof fn lemma_best_peak_single_match(q: u64, tol: u64, mz: Seq<u64>, inten: Seq<u64>, j: int)
    requires
        0 <= j < zip_len(mz, inten),
        in_window(q as int, tol as int, mz[j] as int),
        forall|i: int|
            0 <= i < zip_len(mz, inten) && i != j ==> !in_window(q as int, tol as int, mz[i] as int),
    ensures
        spec_best_peak(q, tol, mz, inten) == inten[j],
{
    lemma_best_match_single(q as int, tol as int, mz, inten, j, zip_len(mz, inten));
}

proof fn lemma_best_match_single(q: int, tol: int, mz: Seq<u64>, inten: Seq<u64>, j: int, n: int)
    requires
        0 <= j < zip_len(mz, inten),
        n <= zip_len(mz, inten),
        in_window(q, tol, mz[j] as int),
        forall|i: int| 0 <= i < zip_len(mz, inten) && i != j ==> !in_window(q, tol, mz[i] as int),
    ensures
        best_match(q, tol, mz, inten, n) == if n <= j {
            0int
        } else {
            inten[j] as int
        },
    decreases n,
{
    if n > 0 {
        lemma_best_match_single(q, tol, mz, inten, j, n - 1);
    }
}

/// Several peaks in one window contribute their maximum, not their sum: the
/// best matched intensity is at least every matching peak's intensity, and
/// (when any peak matches) is itself one of the matching intensities.
pub proof fn lemma_best_peak_is_max(q: u64, tol: u64, mz: Seq<u64>, inten: Seq<u64>)
    ensures
        forall|i: int|
            0 <= i < zip_len(mz, inten) && in_window(q as int, tol as int, mz[i] as int)
                ==> inten[i] as int <= spec_best_peak(q, tol, mz, inten),
        spec_best_peak(q, tol, mz, inten) == 0 || exists|i: int|
            0 <= i < zip_len(mz, inten) && in_window(q as int, tol as int, mz[i] as int)
                && inten[i] as int == spec_best_peak(q, tol, mz, inten),
{
    lemma_best_match_props(q as int, tol as int, mz, inten, zip_len(mz, inten));
}

/// A spectrum with no peak inside any ladder point's window has chromatogram
/// value 0.
pub proof fn lemma_xic_value_no_match(qs: Seq<u64>, ts: Seq<u64>, mz: Seq<u64>, inten: Seq<u64>)
    requires
        forall|k: int, i: int|
            0 <= k < zip_len(qs, ts) && 0 <= i < zip_len(mz, inten) ==> !in_window(
                qs[k] as int,
                ts[k] as int,
                mz[i] as int,
            ),
    ensures
        spec_xic_value(qs, ts, mz, inten) == 0,
{
    lemma_xic_sum_no_match(qs, ts, mz, inten, zip_len(qs, ts));
}

proof fn lemma_xic_sum_no_match(qs: Seq<u64>, ts: Seq<u64>, mz: Seq<u64>, inten: Seq<u64>, k: int)
    requires
        k <= zip_len(qs, ts),
        forall|k2: int, i: int|
            0 <= k2 < zip_len(qs, ts) && 0 <= i < zip_len(mz, inten) ==> !in_window(
                qs[k2] as int,
                ts[k2] as int,
                mz[i] as int,
            ),
    ensures
        xic_sum(qs, ts, mz, inten, k) == 0,
    decreases k,
{
    if k > 0 {
        lemma_xic_sum_no_match(qs, ts, mz, inten, k - 1);
        lemma_best_peak_no_match(qs[k - 1], ts[k - 1], mz, inten);
    }
}

/// `res` is the exact search outcome for a contaminant with the given
/// definition: its name, one chromatogram value per spectrum computed from
/// the definition's ladder and tolerance windows under `ceiling`, and their
/// saturating sum.
pub open spec fn entry_result_ok(
    name: Seq<char>,
    core: Seq<char>,
    rep: Seq<char>,
    charge: u32,
    protonate: bool,
    res: PolymerResult,
    spectra: Seq<Spectrum>,
    ceiling: int,
    tol: u64,
    da: bool,
) -> bool {
    exists|ps: Seq<u64>, ts: Seq<u64>|
        #![trigger is_da_tolerance(ts, ps, tol as int)]
        #![trigger is_ppm_tolerance(ts, ps, tol as int)]
        {
            &&& crate::polymer::is_ladder(
                ps,
                formula_val(core),
                formula_val(rep),
                charge as int,
                protonate,
                ceiling,
            )
            &&& if da {
                is_da_tolerance(ts, ps, tol as int)
            } else {
                is_ppm_tolerance(ts, ps, tol as int)
            }
            &&& res.name@ == name
            &&& res.xic@.len() == spectra.len()
            &&& (forall|j: int|
                0 <= j < spectra.len() ==> res.xic@[j] == sat64(
                    spec_xic_value(ps, ts, spectra[j].mz@, spectra[j].intensity@),
                ))
            &&& res.total == sat64(seq_sum(res.xic@, res.xic@.len() as int))
        }
}

/// The search is deterministic: any two results for the same contaminant
/// definition, spectra, ceiling and tolerance carry the same name, the
/// same chromatogram and the same total.
pub proof fn lemma_entry_result_unique(
    name: Seq<char>,
    core: Seq<char>,
    rep: Seq<char>,
    charge: u32,
    protonate: bool,
    res1: PolymerResult,
    res2: PolymerResult,
    spectra: Seq<Spectrum>,
    ceiling: int,
    tol: u64,
    da: bool,
)
    requires
        entry_result_ok(name, core, rep, charge, protonate, res1, spectra, ceiling, tol, da),
        entry_result_ok(name, core, rep, charge, protonate, res2, spectra, ceiling, tol, da),
    ensures
        res1.name@ == res2.name@,
        res1.xic@ == res2.xic@,
        res1.total == res2.total,
{
    let (ps1, ts1): (Seq<u64>, Seq<u64>) = choose|ps: Seq<u64>, ts: Seq<u64>|
        #![trigger is_da_tolerance(ts, ps, tol as int)]
        #![trigger is_ppm_tolerance(ts, ps, tol as int)]
        {
            &&& crate::polymer::is_ladder(
                ps,
                formula_val(core),
                formula_val(rep),
                charge as int,
                protonate,
                ceiling,
            )
            &&& if da {
                is_da_tolerance(ts, ps, tol as int)
            } else {
                is_ppm_tolerance(ts, ps, tol as int)
            }
            &&& res1.name@ == name
            &&& res1.xic@.len() == spectra.len()
            &&& (forall|j: int|
                0 <= j < spectra.len() ==> res1.xic@[j] == sat64(
                    spec_xic_value(ps, ts, spectra[j].mz@, spectra[j].intensity@),
                ))
            &&& res1.total == sat64(seq_sum(res1.xic@, res1.xic@.len() as int))
        };
    let (ps2, ts2): (Seq<u64>, Seq<u64>) = choose|ps: Seq<u64>, ts: Seq<u64>|
        #![trigger is_da_tolerance(ts, ps, tol as int)]
        #![trigger is_ppm_tolerance(ts, ps, tol as int)]
        {
            &&& crate::polymer::is_ladder(
                ps,
                formula_val(core),
                formula_val(rep),
                charge as int,
                protonate,
                ceiling,
            )
            &&& if da {
                is_da_tolerance(ts, ps, tol as int)
            } else {
                is_ppm_tolerance(ts, ps, tol as int)
            }
            &&& res2.name@ == name
            &&& res2.xic@.len() == spectra.len()
            &&& (forall|j: int|
                0 <= j < spectra.len() ==> res2.xic@[j] == sat64(
                    spec_xic_value(ps, ts, spectra[j].mz@, spectra[j].intensity@),
                ))
            &&& res2.total == sat64(seq_sum(res2.xic@, res2.xic@.len() as int))
        };
    crate::polymer::lemma_ladder_unique(
        ps1,
        ps2,
        formula_val(core),
        formula_val(rep),
        charge as int,
        protonate,
        ceiling,
    );
    assert(ts1 =~= ts2);
    assert(res1.xic@ =~= res2.xic@);
}

/// The filename's results: every contaminant's outcome plus the axes shared
/// by all of them.
#[derive(Clone, Debug)]
pub struct PolymerResults {
    pub filename: String,
    pub polymers: Vec<PolymerResult>,
    pub ret_times: Vec<u64>,
    pub tic: Vec<u64>,
    pub total: u64,
}

/// One contaminant's outcome: its per-spectrum chromatogram and the total.
#[derive(Clone, Debug)]
pub struct PolymerResult {
    pub name: String,
    pub total: u64,
    pub xic: Vec<u64>,
}

impl PolymerResult {
    pub fn new(name: &str) -> (r: Self)
        ensures
            r.name@ == name@,
            r.total == 0,
            r.xic@ == Seq::<u64>::empty(),
    {
        PolymerResult { name: name.to_owned(), total: 0, xic: Vec::new() }
    }
}

/// A fatal configuration fault found while preparing or running a search.
#[derive(Debug)]
pub struct SearchError {
    details: String,
}

impl SearchError {
    /// The description carried by this error.
    pub closed spec fn spec_details(self) -> Seq<char> {
        self.details@
    }

    pub(crate) fn new(msg: &str) -> (r: SearchError)
        ensures
            r.spec_details() == msg@,
    {
        SearchError { details: msg.to_owned() }
    }

    /// The human-readable description of the fault.
    pub fn message(&self) -> (r: &str)
        ensures
            r@ == self.spec_details(),
    {
        self.details.as_str()
    }
}

/// For each ladder point, the most intense peak within tolerance; their sum
/// (saturating) is the spectrum's value for this ladder.
pub fn find_peaks(
    query_vec: &Vec<u64>,
    tol_vec: &Vec<u64>,
    mz_vec: &Vec<u64>,
    intensity_vec: &Vec<u64>,
) -> (r: u64)
    ensures
        r == sat64(spec_xic_value(query_vec@, tol_vec@, mz_vec@, intensity_vec@)),
{
    let klen: usize = if query_vec.len() <= tol_vec.len() {
        query_vec.len()
    } else {
        tol_vec.len()
    };
    let mlen: usize = if mz_vec.len() <= intensity_vec.len() {
        mz_vec.len()
    } else {
        intensity_vec.len()
    };
    let mut total: u64 = 0;
    let mut k: usize = 0;
    while k < klen
        invariant
            klen == zip_len(query_vec@, tol_vec@),
            mlen == zip_len(mz_vec@, intensity_vec@),
            0 <= k <= klen,
            total == sat64(xic_sum(query_vec@, tol_vec@, mz_vec@, intensity_vec@, k as int)),
        decreases klen - k,
    {
        let q: u64 = query_vec[k];
        let tol: u64 = tol_vec[k];
        let mut biggest: u64 = 0;
        let mut idx: usize = 0;
        while idx < mlen
            invariant
                mlen == zip_len(mz_vec@, intensity_vec@),
                0 <= idx <= mlen,
                biggest == best_match(q as int, tol as int, mz_vec@, intensity_vec@, idx as int),
            decreases mlen - idx,
        {
            let mzv: u64 = mz_vec[idx];
            let inten: u64 = intensity_vec[idx];
            let diff: u64 = if mzv >= q {
                mzv - q
            } else {
                q - mzv
            };
            if diff <= tol && inten > biggest {
                biggest = inten;
            }
            idx = idx + 1;
        }
        proof {
            lemma_best_match_nonneg(q as int, tol as int, mz_vec@, intensity_vec@, mlen as int);
        }
        total = total.saturating_add(biggest);
        k = k + 1;
    }
    total
}

/// Search one contaminant against every spectrum.
///
/// The polymer's ladder is computed against the collection's upper scan
/// bound; the result holds one chromatogram value per spectrum (in
/// collection order) and their saturating sum.
pub fn search_for_polymer(poly: &mut Polymer, spec: &MS1Spectra, tol: &u64, unit: &str) -> (r:
    Result<PolymerResult, SearchError>)
    requires
        old(poly).spec_charge() >= 1,
        is_ppm_unit(unit@) ==> *tol <= PPM_DIVISOR,
    ensures
        final(poly).name == old(poly).name,
        final(poly).spec_core() == old(poly).spec_core(),
        final(poly).spec_rep() == old(poly).spec_rep(),
        final(poly).spec_charge() == old(poly).spec_charge(),
        final(poly).spec_protonate() == old(poly).spec_protonate(),
        r is Ok <==> (is_da_unit(unit@) || is_ppm_unit(unit@)) && old(poly).formulas_ok(),
        r is Err ==> *final(poly) == *old(poly),
        r matches Ok(res) ==> ({
            &&& final(poly).precursors matches Some(ps)
            &&& final(poly).tols matches Some(ts)
            &&& old(poly).spec_ladder(ps@, spec.scan_range.1 as int)
            &&& (is_da_unit(unit@) ==> is_da_tolerance(ts@, ps@, *tol as int))
            &&& (!is_da_unit(unit@) ==> is_ppm_tolerance(ts@, ps@, *tol as int))
            &&& res.name@ == old(poly).name@
            &&& res.xic@.len() == spec.spectra@.len()
            &&& (forall|j: int|
                0 <= j < spec.spectra@.len() ==> res.xic@[j] == sat64(
                    spec_xic_value(
                        ps@,
                        ts@,
                        spec.spectra@[j].mz@,
                        spec.spectra@[j].intensity@,
                    ),
                ))
            &&& res.total == sat64(seq_sum(res.xic@, res.xic@.len() as int))
        }),
{
    match poly.calculate_bounds(&spec.scan_range.1, tol, unit) {
        Ok(()) => {},
        Err(e) => {
            return Err(e);
        },
    }
    let mut results = PolymerResult::new(poly.name.as_str());
    let precursors: &Vec<u64> = match &poly.precursors {
        Some(ps) => ps,
        None => {
            return Err(SearchError::new("ladder missing after bounds computation"));
        },
    };
    let tols: &Vec<u64> = match &poly.tols {
        Some(ts) => ts,
        None => {
            return Err(SearchError::new("tolerances missing after bounds computation"));
        },
    };
    let n: usize = spec.spectra.len();
    let mut xic: Vec<u64> = Vec::new();
    let mut j: usize = 0;
    while j < n
        invariant
            n == spec.spectra@.len(),
            0 <= j <= n,
            xic@.len() == j,
            forall|i: int|
                0 <= i < j ==> xic@[i] == sat64(
                    spec_xic_value(
                        precursors@,
                        tols@,
                        spec.spectra@[i].mz@,
                        spec.spectra@[i].intensity@,
                    ),
                ),
        decreases n - j,
    {
        let s = &spec.spectra[j];
        let v: u64 = find_peaks(precursors, tols, &s.mz, &s.intensity);
        xic.push(v);
        j = j + 1;
    }
    let mut total: u64 = 0;
    let mut k: usize = 0;
    while k < n
        invariant
            n == xic@.len(),
            0 <= k <= n,
            total == sat64(seq_sum(xic@, k as int)),
        decreases n - k,
    {
        total = total.saturating_add(xic[k]);
        k = k + 1;
    }
    results.xic = xic;
    results.total = total;
    Ok(results)
}

/// Run every catalog contaminant against the collection and assemble the
/// file's results: per-contaminant chromatograms plus the retention-time and
/// TIC axes (in collection order) and the run-wide TIC sum.
pub fn search(filename: String, spec: MS1Spectra, tol: &u64, unit: &str) -> (r: Result<
    PolymerResults,
    SearchError,
>)
    requires
        is_ppm_unit(unit@) ==> *tol <= PPM_DIVISOR,
    ensures
        r is Ok <==> is_da_unit(unit@) || is_ppm_unit(unit@),
        r matches Ok(res) ==> ({
            &&& res.filename@ == filename@
            &&& res.polymers@.len() == 16
            &&& (forall|p: int|
                0 <= p < 16 ==> entry_result_ok(
                    catalog_name(p),
                    catalog_core(p),
                    catalog_rep(p),
                    catalog_charge(p),
                    catalog_protonate(p),
                    #[trigger] res.polymers@[p],
                    spec.spectra@,
                    spec.scan_range.1 as int,
                    *tol,
                    is_da_unit(unit@),
                ))
            &&& (forall|p: int|
                0 <= p < res.polymers@.len() ==> (#[trigger] res.polymers@[p]).xic@.len()
                    == spec.spectra@.len())
            &&& res.ret_times@.len() == spec.spectra@.len()
            &&& res.tic@.len() == spec.spectra@.len()
            &&& (forall|i: int|
                0 <= i < spec.spectra@.len() ==> res.ret_times@[i] == spec.spectra@[
                    i
                ].scan_start_time)
            &&& (forall|i: int|
                0 <= i < spec.spectra@.len() ==> res.tic@[i] == spec.spectra@[
                    i
                ].total_ion_current)
            &&& res.total == sat64(seq_sum(res.tic@, res.tic@.len() as int))
        }),
{
    let polymers = DefaultPolymers::new();
    let mut polys: Vec<Polymer> = polymers.0;
    let count: usize = polys.len();
    let mut poly_results: Vec<PolymerResult> = Vec::new();
    let mut p: usize = 0;
    while p < count
        invariant
            count == 16,
            polys@.len() == 16,
            0 <= p <= count,
            is_ppm_unit(unit@) ==> *tol <= PPM_DIVISOR,
            forall|i: int| 0 <= i < polys@.len() ==> (#[trigger] polys@[i]).spec_charge() >= 1,
            forall|i: int| 0 <= i < polys@.len() ==> (#[trigger] polys@[i]).formulas_ok(),
            forall|i: int|
                0 <= i < 16 ==> ({
                    &&& (#[trigger] polys@[i]).name@ == catalog_name(i)
                    &&& polys@[i].spec_core() == catalog_core(i)
                    &&& polys@[i].spec_rep() == catalog_rep(i)
                    &&& polys@[i].spec_charge() == catalog_charge(i)
                    &&& polys@[i].spec_protonate() == catalog_protonate(i)
                }),
            poly_results@.len() == p,
            p > 0 ==> is_da_unit(unit@) || is_ppm_unit(unit@),
            forall|i: int|
                0 <= i < p ==> entry_result_ok(
                    catalog_name(i),
                    catalog_core(i),
                    catalog_rep(i),
                    catalog_charge(i),
                    catalog_protonate(i),
                    #[trigger] poly_results@[i],
                    spec.spectra@,
                    spec.scan_range.1 as int,
                    *tol,
                    is_da_unit(unit@),
                ),
            forall|i: int|
                0 <= i < p ==> (#[trigger] poly_results@[i]).xic@.len() == spec.spectra@.len(),
        decreases count - p,
    {
        let one = match search_for_polymer(&mut polys[p], &spec, tol, unit) {
            Ok(res) => res,
            Err(e) => {
                return Err(e);
            },
        };
        proof {
            let pe = polys@[p as int];
            let psw = pe.precursors.unwrap()@;
            let tsw = pe.tols.unwrap()@;
            assert(crate::polymer::is_ladder(
                psw,
                formula_val(catalog_core(p as int)),
                formula_val(catalog_rep(p as int)),
                catalog_charge(p as int) as int,
                catalog_protonate(p as int),
                spec.scan_range.1 as int,
            ));
            if is_da_unit(unit@) {
                assert(is_da_tolerance(tsw, psw, *tol as int));
            } else {
                assert(is_ppm_tolerance(tsw, psw, *tol as int));
            }
            assert(entry_result_ok(
                catalog_name(p as int),
                catalog_core(p as int),
                catalog_rep(p as int),
                catalog_charge(p as int),
                catalog_protonate(p as int),
                one,
                spec.spectra@,
                spec.scan_range.1 as int,
                *tol,
                is_da_unit(unit@),
            ));
        }
        poly_results.push(one);
        p = p + 1;
    }
    let mut ret_times: Vec<u64> = Vec::new();
    let mut tic: Vec<u64> = Vec::new();
    let n: usize = spec.spectra.len();
    let mut i: usize = 0;
    while i < n
        invariant
            n == spec.spectra@.len(),
            0 <= i <= n,
            ret_times@.len() == i,
            tic@.len() == i,
            forall|j: int| 0 <= j < i ==> ret_times@[j] == spec.spectra@[j].scan_start_time,
            forall|j: int| 0 <= j < i ==> tic@[j] == spec.spectra@[j].total_ion_current,
        decreases n - i,
    {
        let s = &spec.spectra[i];
        ret_times.push(s.scan_start_time);
        tic.push(s.total_ion_current);
        i = i + 1;
    }
    let mut total: u64 = 0;
    let mut k: usize = 0;
    while k < n
        invariant
            n == tic@.len(),
            0 <= k <= n,
            total == sat64(seq_sum(tic@, k as int)),
        decreases n - k,
    {
        total = total.saturating_add(tic[k]);
        k = k + 1;
    }
    Ok(PolymerResults { filename, polymers: poly_results, ret_times, tic, total })
}

} // verus!
