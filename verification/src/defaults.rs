//! The built-in catalog of known polymer contaminants.

use vstd::prelude::*;
use crate::mass::digit_run;
use crate::mass::digits_value;
use crate::mass::formula_fits;
use crate::mass::spec_formula_mass_from;
use crate::mass::spec_formula_tail;
use crate::polymer::Polymer;

verus! {

/// Every formula named by the built-in catalog evaluates to a mass in the
/// fixed-point range; `lemma_default_catalog_formulas_ok` proves it.
pub open spec fn default_catalog_formulas_ok() -> bool {
    &&& formula_fits("H2O"@)
    &&& formula_fits("C2H4O"@)
    &&& formula_fits("C3H6O"@)
    &&& formula_fits("C14H22O"@)
    &&& formula_fits("C14H28O"@)
    &&& formula_fits("C14H22ONa"@)
    &&& formula_fits("C14H28ONa"@)
    &&& formula_fits("C15H24O"@)
    &&& formula_fits("C15H30O"@)
    &&& formula_fits(""@)
    &&& formula_fits("C2H6SiO"@)
    &&& formula_fits("C18H34O6Na"@)
    &&& formula_fits("C22H42O6Na"@)
    &&& formula_fits("C24H46O6Na"@)
    &&& formula_fits("C24H44O6Na"@)
}

proof fn catalog_fits_h2o()
    ensures
        formula_fits("H2O"@),
{
    reveal_strlit("H2O");
    let s = "H2O"@;
    assert(spec_formula_mass_from(s, 3) == Some(0int));
    assert(digit_run(s, 3) == 0);
    assert(spec_formula_tail(s, 3, 159949146195616int) == Some(159949146195616int));
    assert(spec_formula_mass_from(s, 2) == Some(159949146195616int));
    assert(digit_run(s, 2) == 0);
    assert(digit_run(s, 1) == 1);
    assert(digits_value(s, 1, 1) == 0int);
    assert(digits_value(s, 1, 2) == 2int);
    assert(spec_formula_tail(s, 2, 20156500641420int) == Some(180105646837036int));
    assert(spec_formula_mass_from(s, 0) == Some(180105646837036int));
}

proof fn catalog_fits_c2h4o()
    ensures
        formula_fits("C2H4O"@),
{
    reveal_strlit("C2H4O");
    let s = "C2H4O"@;
    assert(spec_formula_mass_from(s, 5) == Some(0int));
    assert(digit_run(s, 5) == 0);
    assert(spec_formula_tail(s, 5, 159949146195616int) == Some(159949146195616int));
    assert(spec_formula_mass_from(s, 4) == Some(159949146195616int));
    assert(digit_run(s, 4) == 0);
    assert(digit_run(s, 3) == 1);
    assert(digits_value(s, 3, 3) == 0int);
    assert(digits_value(s, 3, 4) == 4int);
    assert(spec_formula_tail(s, 4, 40313001282840int) == Some(200262147478456int));
    assert(spec_formula_mass_from(s, 2) == Some(200262147478456int));
    assert(digit_run(s, 2) == 0);
    assert(digit_run(s, 1) == 1);
    assert(digits_value(s, 1, 1) == 0int);
    assert(digits_value(s, 1, 2) == 2int);
    assert(spec_formula_tail(s, 2, 240000000000000int) == Some(440262147478456int));
    assert(spec_formula_mass_from(s, 0) == Some(440262147478456int));
}

proof fn catalog_fits_c3h6o()
    ensures
        formula_fits("C3H6O"@),
{
    reveal_strlit("C3H6O");
    let s = "C3H6O"@;
    assert(spec_formula_mass_from(s, 5) == Some(0int));
    assert(digit_run(s, 5) == 0);
    assert(spec_formula_tail(s, 5, 159949146195616int) == Some(159949146195616int));
    assert(spec_formula_mass_from(s, 4) == Some(159949146195616int));
    assert(digit_run(s, 4) == 0);
    assert(digit_run(s, 3) == 1);
    assert(digits_value(s, 3, 3) == 0int);
    assert(digits_value(s, 3, 4) == 6int);
    assert(spec_formula_tail(s, 4, 60469501924260int) == Some(220418648119876int));
    assert(spec_formula_mass_from(s, 2) == Some(220418648119876int));
    assert(digit_run(s, 2) == 0);
    assert(digit_run(s, 1) == 1);
    assert(digits_value(s, 1, 1) == 0int);
    assert(digits_value(s, 1, 2) == 3int);
    assert(spec_formula_tail(s, 2, 360000000000000int) == Some(580418648119876int));
    assert(spec_formula_mass_from(s, 0) == Some(580418648119876int));
}

proof fn catalog_fits_c14h22o()
    ensures
        formula_fits("C14H22O"@),
{
    reveal_strlit("C14H22O");
    let s = "C14H22O"@;
    assert(spec_formula_mass_from(s, 7) == Some(0int));
    assert(digit_run(s, 7) == 0);
    assert(spec_formula_tail(s, 7, 159949146195616int) == Some(159949146195616int));
    assert(spec_formula_mass_from(s, 6) == Some(159949146195616int));
    assert(digit_run(s, 6) == 0);
    assert(digit_run(s, 5) == 1);
    assert(digit_run(s, 4) == 2);
    assert(digits_value(s, 4, 4) == 0int);
    assert(digits_value(s, 4, 5) == 2int);
    assert(digits_value(s, 4, 6) == 22int);
    assert(spec_formula_tail(s, 6, 221721507055620int) == Some(381670653251236int));
    assert(spec_formula_mass_from(s, 3) == Some(381670653251236int));
    assert(digit_run(s, 3) == 0);
    assert(digit_run(s, 2) == 1);
    assert(digit_run(s, 1) == 2);
    assert(digits_value(s, 1, 1) == 0int);
    assert(digits_value(s, 1, 2) == 1int);
    assert(digits_value(s, 1, 3) == 14int);
    assert(spec_formula_tail(s, 3, 1680000000000000int) == Some(2061670653251236int));
    assert(spec_formula_mass_from(s, 0) == Some(2061670653251236int));
}

proof fn catalog_fits_c14h28o()
    ensures
        formula_fits("C14H28O"@),
{
    reveal_strlit("C14H28O");
    let s = "C14H28O"@;
    assert(spec_formula_mass_from(s, 7) == Some(0int));
    assert(digit_run(s, 7) == 0);
    assert(spec_formula_tail(s, 7, 159949146195616int) == Some(159949146195616int));
    assert(spec_formula_mass_from(s, 6) == Some(159949146195616int));
    assert(digit_run(s, 6) == 0);
    assert(digit_run(s, 5) == 1);
    assert(digit_run(s, 4) == 2);
    assert(digits_value(s, 4, 4) == 0int);
    assert(digits_value(s, 4, 5) == 2int);
    assert(digits_value(s, 4, 6) == 28int);
    assert(spec_formula_tail(s, 6, 282191008979880int) == Some(442140155175496int));
    assert(spec_formula_mass_from(s, 3) == Some(442140155175496int));
    assert(digit_run(s, 3) == 0);
    assert(digit_run(s, 2) == 1);
    assert(digit_run(s, 1) == 2);
    assert(digits_value(s, 1, 1) == 0int);
    assert(digits_value(s, 1, 2) == 1int);
    assert(digits_value(s, 1, 3) == 14int);
    assert(spec_formula_tail(s, 3, 1680000000000000int) == Some(2122140155175496int));
    assert(spec_formula_mass_from(s, 0) == Some(2122140155175496int));
}

proof fn catalog_fits_c14h22ona()
    ensures
        formula_fits("C14H22ONa"@),
{
    reveal_strlit("C14H22ONa");
    let s = "C14H22ONa"@;
    assert(spec_formula_mass_from(s, 9) == Some(0int));
    assert(digit_run(s, 9) == 0);
    assert(spec_formula_tail(s, 9, 229897692820190int) == Some(229897692820190int));
    assert(spec_formula_mass_from(s, 7) == Some(229897692820190int));
    assert(digit_run(s, 7) == 0);
    assert(spec_formula_tail(s, 7, 159949146195616int) == Some(389846839015806int));
    assert(spec_formula_mass_from(s, 6) == Some(389846839015806int));
    assert(digit_run(s, 6) == 0);
    assert(digit_run(s, 5) == 1);
    assert(digit_run(s, 4) == 2);
    assert(digits_value(s, 4, 4) == 0int);
    assert(digits_value(s, 4, 5) == 2int);
    assert(digits_value(s, 4, 6) == 22int);
    assert(spec_formula_tail(s, 6, 221721507055620int) == Some(611568346071426int));
    assert(spec_formula_mass_from(s, 3) == Some(611568346071426int));
    assert(digit_run(s, 3) == 0);
    assert(digit_run(s, 2) == 1);
    assert(digit_run(s, 1) == 2);
    assert(digits_value(s, 1, 1) == 0int);
    assert(digits_value(s, 1, 2) == 1int);
    assert(digits_value(s, 1, 3) == 14int);
    assert(spec_formula_tail(s, 3, 1680000000000000int) == Some(2291568346071426int));
    assert(spec_formula_mass_from(s, 0) == Some(2291568346071426int));
}

proof fn catalog_fits_c14h28ona()
    ensures
        formula_fits("C14H28ONa"@),
{
    reveal_strlit("C14H28ONa");
    let s = "C14H28ONa"@;
    assert(spec_formula_mass_from(s, 9) == Some(0int));
    assert(digit_run(s, 9) == 0);
    assert(spec_formula_tail(s, 9, 229897692820190int) == Some(229897692820190int));
    assert(spec_formula_mass_from(s, 7) == Some(229897692820190int));
    assert(digit_run(s, 7) == 0);
    assert(spec_formula_tail(s, 7, 159949146195616int) == Some(389846839015806int));
    assert(spec_formula_mass_from(s, 6) == Some(389846839015806int));
    assert(digit_run(s, 6) == 0);
    assert(digit_run(s, 5) == 1);
    assert(digit_run(s, 4) == 2);
    assert(digits_value(s, 4, 4) == 0int);
    assert(digits_value(s, 4, 5) == 2int);
    assert(digits_value(s, 4, 6) == 28int);
    assert(spec_formula_tail(s, 6, 282191008979880int) == Some(672037847995686int));
    assert(spec_formula_mass_from(s, 3) == Some(672037847995686int));
    assert(digit_run(s, 3) == 0);
    assert(digit_run(s, 2) == 1);
    assert(digit_run(s, 1) == 2);
    assert(digits_value(s, 1, 1) == 0int);
    assert(digits_value(s, 1, 2) == 1int);
    assert(digits_value(s, 1, 3) == 14int);
    assert(spec_formula_tail(s, 3, 1680000000000000int) == Some(2352037847995686int));
    assert(spec_formula_mass_from(s, 0) == Some(2352037847995686int));
}

proof fn catalog_fits_c15h24o()
    ensures
        formula_fits("C15H24O"@),
{
    reveal_strlit("C15H24O");
    let s = "C15H24O"@;
    assert(spec_formula_mass_from(s, 7) == Some(0int));
    assert(digit_run(s, 7) == 0);
    assert(spec_formula_tail(s, 7, 159949146195616int) == Some(159949146195616int));
    assert(spec_formula_mass_from(s, 6) == Some(159949146195616int));
    assert(digit_run(s, 6) == 0);
    assert(digit_run(s, 5) == 1);
    assert(digit_run(s, 4) == 2);
    assert(digits_value(s, 4, 4) == 0int);
    assert(digits_value(s, 4, 5) == 2int);
    assert(digits_value(s, 4, 6) == 24int);
    assert(spec_formula_tail(s, 6, 241878007697040int) == Some(401827153892656int));
    assert(spec_formula_mass_from(s, 3) == Some(401827153892656int));
    assert(digit_run(s, 3) == 0);
    assert(digit_run(s, 2) == 1);
    assert(digit_run(s, 1) == 2);
    assert(digits_value(s, 1, 1) == 0int);
    assert(digits_value(s, 1, 2) == 1int);
    assert(digits_value(s, 1, 3) == 15int);
    assert(spec_formula_tail(s, 3, 1800000000000000int) == Some(2201827153892656int));
    assert(spec_formula_mass_from(s, 0) == Some(2201827153892656int));
}

proof fn catalog_fits_c15h30o()
    ensures
        formula_fits("C15H30O"@),
{
    reveal_strlit("C15H30O");
    let s = "C15H30O"@;
    assert(spec_formula_mass_from(s, 7) == Some(0int));
    assert(digit_run(s, 7) == 0);
    assert(spec_formula_tail(s, 7, 159949146195616int) == Some(159949146195616int));
    assert(spec_formula_mass_from(s, 6) == Some(159949146195616int));
    assert(digit_run(s, 6) == 0);
    assert(digit_run(s, 5) == 1);
    assert(digit_run(s, 4) == 2);
    assert(digits_value(s, 4, 4) == 0int);
    assert(digits_value(s, 4, 5) == 3int);
    assert(digits_value(s, 4, 6) == 30int);
    assert(spec_formula_tail(s, 6, 302347509621300int) == Some(462296655816916int));
    assert(spec_formula_mass_from(s, 3) == Some(462296655816916int));
    assert(digit_run(s, 3) == 0);
    assert(digit_run(s, 2) == 1);
    assert(digit_run(s, 1) == 2);
    assert(digits_value(s, 1, 1) == 0int);
    assert(digits_value(s, 1, 2) == 1int);
    assert(digits_value(s, 1, 3) == 15int);
    assert(spec_formula_tail(s, 3, 1800000000000000int) == Some(2262296655816916int));
    assert(spec_formula_mass_from(s, 0) == Some(2262296655816916int));
}

proof fn catalog_fits_c2h6sio()
    ensures
        formula_fits("C2H6SiO"@),
{
    reveal_strlit("C2H6SiO");
    let s = "C2H6SiO"@;
    assert(spec_formula_mass_from(s, 7) == Some(0int));
    assert(digit_run(s, 7) == 0);
    assert(spec_formula_tail(s, 7, 159949146195616int) == Some(159949146195616int));
    assert(spec_formula_mass_from(s, 6) == Some(159949146195616int));
    assert(digit_run(s, 6) == 0);
    assert(spec_formula_tail(s, 6, 279769265350500int) == Some(439718411546116int));
    assert(spec_formula_mass_from(s, 4) == Some(439718411546116int));
    assert(digit_run(s, 4) == 0);
    assert(digit_run(s, 3) == 1);
    assert(digits_value(s, 3, 3) == 0int);
    assert(digits_value(s, 3, 4) == 6int);
    assert(spec_formula_tail(s, 4, 60469501924260int) == Some(500187913470376int));
    assert(spec_formula_mass_from(s, 2) == Some(500187913470376int));
    assert(digit_run(s, 2) == 0);
    assert(digit_run(s, 1) == 1);
    assert(digits_value(s, 1, 1) == 0int);
    assert(digits_value(s, 1, 2) == 2int);
    assert(spec_formula_tail(s, 2, 240000000000000int) == Some(740187913470376int));
    assert(spec_formula_mass_from(s, 0) == Some(740187913470376int));
}

proof fn catalog_fits_c18h34o6na()
    ensures
        formula_fits("C18H34O6Na"@),
{
    reveal_strlit("C18H34O6Na");
    let s = "C18H34O6Na"@;
    assert(spec_formula_mass_from(s, 10) == Some(0int));
    assert(digit_run(s, 10) == 0);
    assert(spec_formula_tail(s, 10, 229897692820190int) == Some(229897692820190int));
    assert(spec_formula_mass_from(s, 8) == Some(229897692820190int));
    assert(digit_run(s, 8) == 0);
    assert(digit_run(s, 7) == 1);
    assert(digits_value(s, 7, 7) == 0int);
    assert(digits_value(s, 7, 8) == 6int);
    assert(spec_formula_tail(s, 8, 959694877173696int) == Some(1189592569993886int));
    assert(spec_formula_mass_from(s, 6) == Some(1189592569993886int));
    assert(digit_run(s, 6) == 0);
    assert(digit_run(s, 5) == 1);
    assert(digit_run(s, 4) == 2);
    assert(digits_value(s, 4, 4) == 0int);
    assert(digits_value(s, 4, 5) == 3int);
    assert(digits_value(s, 4, 6) == 34int);
    assert(spec_formula_tail(s, 6, 342660510904140int) == Some(1532253080898026int));
    assert(spec_formula_mass_from(s, 3) == Some(1532253080898026int));
    assert(digit_run(s, 3) == 0);
    assert(digit_run(s, 2) == 1);
    assert(digit_run(s, 1) == 2);
    assert(digits_value(s, 1, 1) == 0int);
    assert(digits_value(s, 1, 2) == 1int);
    assert(digits_value(s, 1, 3) == 18int);
    assert(spec_formula_tail(s, 3, 2160000000000000int) == Some(3692253080898026int));
    assert(spec_formula_mass_from(s, 0) == Some(3692253080898026int));
}

proof fn catalog_fits_c22h42o6na()
    ensures
        formula_fits("C22H42O6Na"@),
{
    reveal_strlit("C22H42O6Na");
    let s = "C22H42O6Na"@;
    assert(spec_formula_mass_from(s, 10) == Some(0int));
    assert(digit_run(s, 10) == 0);
    assert(spec_formula_tail(s, 10, 229897692820190int) == Some(229897692820190int));
    assert(spec_formula_mass_from(s, 8) == Some(229897692820190int));
    assert(digit_run(s, 8) == 0);
    assert(digit_run(s, 7) == 1);
    assert(digits_value(s, 7, 7) == 0int);
    assert(digits_value(s, 7, 8) == 6int);
    assert(spec_formula_tail(s, 8, 959694877173696int) == Some(1189592569993886int));
    assert(spec_formula_mass_from(s, 6) == Some(1189592569993886int));
    assert(digit_run(s, 6) == 0);
    assert(digit_run(s, 5) == 1);
    assert(digit_run(s, 4) == 2);
    assert(digits_value(s, 4, 4) == 0int);
    assert(digits_value(s, 4, 5) == 4int);
    assert(digits_value(s, 4, 6) == 42int);
    assert(spec_formula_tail(s, 6, 423286513469820int) == Some(1612879083463706int));
    assert(spec_formula_mass_from(s, 3) == Some(1612879083463706int));
    assert(digit_run(s, 3) == 0);
    assert(digit_run(s, 2) == 1);
    assert(digit_run(s, 1) == 2);
    assert(digits_value(s, 1, 1) == 0int);
    assert(digits_value(s, 1, 2) == 2int);
    assert(digits_value(s, 1, 3) == 22int);
    assert(spec_formula_tail(s, 3, 2640000000000000int) == Some(4252879083463706int));
    assert(spec_formula_mass_from(s, 0) == Some(4252879083463706int));
}

proof fn catalog_fits_c24h46o6na()
    ensures
        formula_fits("C24H46O6Na"@),
{
    reveal_strlit("C24H46O6Na");
    let s = "C24H46O6Na"@;
    assert(spec_formula_mass_from(s, 10) == Some(0int));
    assert(digit_run(s, 10) == 0);
    assert(spec_formula_tail(s, 10, 229897692820190int) == Some(229897692820190int));
    assert(spec_formula_mass_from(s, 8) == Some(229897692820190int));
    assert(digit_run(s, 8) == 0);
    assert(digit_run(s, 7) == 1);
    assert(digits_value(s, 7, 7) == 0int);
    assert(digits_value(s, 7, 8) == 6int);
    assert(spec_formula_tail(s, 8, 959694877173696int) == Some(1189592569993886int));
    assert(spec_formula_mass_from(s, 6) == Some(1189592569993886int));
    assert(digit_run(s, 6) == 0);
    assert(digit_run(s, 5) == 1);
    assert(digit_run(s, 4) == 2);
    assert(digits_value(s, 4, 4) == 0int);
    assert(digits_value(s, 4, 5) == 4int);
    assert(digits_value(s, 4, 6) == 46int);
    assert(spec_formula_tail(s, 6, 463599514752660int) == Some(1653192084746546int));
    assert(spec_formula_mass_from(s, 3) == Some(1653192084746546int));
    assert(digit_run(s, 3) == 0);
    assert(digit_run(s, 2) == 1);
    assert(digit_run(s, 1) == 2);
    assert(digits_value(s, 1, 1) == 0int);
    assert(digits_value(s, 1, 2) == 2int);
    assert(digits_value(s, 1, 3) == 24int);
    assert(spec_formula_tail(s, 3, 2880000000000000int) == Some(4533192084746546int));
    assert(spec_formula_mass_from(s, 0) == Some(4533192084746546int));
}

proof fn catalog_fits_c24h44o6na()
    ensures
        formula_fits("C24H44O6Na"@),
{
    reveal_strlit("C24H44O6Na");
    let s = "C24H44O6Na"@;
    assert(spec_formula_mass_from(s, 10) == Some(0int));
    assert(digit_run(s, 10) == 0);
    assert(spec_formula_tail(s, 10, 229897692820190int) == Some(229897692820190int));
    assert(spec_formula_mass_from(s, 8) == Some(229897692820190int));
    assert(digit_run(s, 8) == 0);
    assert(digit_run(s, 7) == 1);
    assert(digits_value(s, 7, 7) == 0int);
    assert(digits_value(s, 7, 8) == 6int);
    assert(spec_formula_tail(s, 8, 959694877173696int) == Some(1189592569993886int));
    assert(spec_formula_mass_from(s, 6) == Some(1189592569993886int));
    assert(digit_run(s, 6) == 0);
    assert(digit_run(s, 5) == 1);
    assert(digit_run(s, 4) == 2);
    assert(digits_value(s, 4, 4) == 0int);
    assert(digits_value(s, 4, 5) == 4int);
    assert(digits_value(s, 4, 6) == 44int);
    assert(spec_formula_tail(s, 6, 443443014111240int) == Some(1633035584105126int));
    assert(spec_formula_mass_from(s, 3) == Some(1633035584105126int));
    assert(digit_run(s, 3) == 0);
    assert(digit_run(s, 2) == 1);
    assert(digit_run(s, 1) == 2);
    assert(digits_value(s, 1, 1) == 0int);
    assert(digits_value(s, 1, 2) == 2int);
    assert(digits_value(s, 1, 3) == 24int);
    assert(spec_formula_tail(s, 3, 2880000000000000int) == Some(4513035584105126int));
    assert(spec_formula_mass_from(s, 0) == Some(4513035584105126int));
}

/// Every formula of the built-in catalog evaluates, each to a mass in the
/// fixed-point range.
pub proof fn lemma_default_catalog_formulas_ok()
    ensures
        default_catalog_formulas_ok(),
{
    catalog_fits_h2o();
    catalog_fits_c2h4o();
    catalog_fits_c3h6o();
    catalog_fits_c14h22o();
    catalog_fits_c14h28o();
    catalog_fits_c14h22ona();
    catalog_fits_c14h28ona();
    catalog_fits_c15h24o();
    catalog_fits_c15h30o();
    catalog_fits_c2h6sio();
    catalog_fits_c18h34o6na();
    catalog_fits_c22h42o6na();
    catalog_fits_c24h46o6na();
    catalog_fits_c24h44o6na();
    reveal_strlit("");
    assert(spec_formula_mass_from(""@, 0) == Some(0int));
}

/// The i-th catalog entry's name.
pub open spec fn catalog_name(i: int) -> Seq<char> {
    if i == 0 {
        "PEG+1H"@
    } else if i == 1 {
        "PEG+2H"@
    } else if i == 2 {
        "PEG+3H"@
    } else if i == 3 {
        "PPG"@
    } else if i == 4 {
        "Triton X-100"@
    } else if i == 5 {
        "Triton X-100 (Reduced)"@
    } else if i == 6 {
        "Triton X-100 (Na)"@
    } else if i == 7 {
        "Triton X-100 (Reduced, Na)"@
    } else if i == 8 {
        "Triton X-101"@
    } else if i == 9 {
        "Triton X-101 (Reduced)"@
    } else if i == 10 {
        "Polysiloxane"@
    } else if i == 11 {
        "Tween-20"@
    } else if i == 12 {
        "Tween-40"@
    } else if i == 13 {
        "Tween-60"@
    } else if i == 14 {
        "Tween-80"@
    } else if i == 15 {
        "IGEPAL CA-630 (NP-40)"@
    } else {
        Seq::<char>::empty()
    }
}

/// The i-th catalog entry's core (non-repeating) formula.
pub open spec fn catalog_core(i: int) -> Seq<char> {
    if i == 0 {
        "H2O"@
    } else if i == 1 {
        "H2O"@
    } else if i == 2 {
        "H2O"@
    } else if i == 3 {
        "H2O"@
    } else if i == 4 {
        "C14H22O"@
    } else if i == 5 {
        "C14H28O"@
    } else if i == 6 {
        "C14H22ONa"@
    } else if i == 7 {
        "C14H28ONa"@
    } else if i == 8 {
        "C15H24O"@
    } else if i == 9 {
        "C15H30O"@
    } else if i == 10 {
        ""@
    } else if i == 11 {
        "C18H34O6Na"@
    } else if i == 12 {
        "C22H42O6Na"@
    } else if i == 13 {
        "C24H46O6Na"@
    } else if i == 14 {
        "C24H44O6Na"@
    } else if i == 15 {
        "C15H24O"@
    } else {
        Seq::<char>::empty()
    }
}

/// The i-th catalog entry's repeating-unit formula.
pub open spec fn catalog_rep(i: int) -> Seq<char> {
    if i == 0 {
        "C2H4O"@
    } else if i == 1 {
        "C2H4O"@
    } else if i == 2 {
        "C2H4O"@
    } else if i == 3 {
        "C3H6O"@
    } else if i == 4 {
        "C2H4O"@
    } else if i == 5 {
        "C2H4O"@
    } else if i == 6 {
        "C2H4O"@
    } else if i == 7 {
        "C2H4O"@
    } else if i == 8 {
        "C2H4O"@
    } else if i == 9 {
        "C2H4O"@
    } else if i == 10 {
        "C2H6SiO"@
    } else if i == 11 {
        "C2H4O"@
    } else if i == 12 {
        "C2H4O"@
    } else if i == 13 {
        "C2H4O"@
    } else if i == 14 {
        "C2H4O"@
    } else if i == 15 {
        "C2H4O"@
    } else {
        Seq::<char>::empty()
    }
}

/// The i-th catalog entry's charge.
pub open spec fn catalog_charge(i: int) -> u32 {
    if i == 0 {
        1
    } else if i == 1 {
        2
    } else if i == 2 {
        3
    } else if i == 3 {
        1
    } else if i == 4 {
        1
    } else if i == 5 {
        1
    } else if i == 6 {
        1
    } else if i == 7 {
        1
    } else if i == 8 {
        1
    } else if i == 9 {
        1
    } else if i == 10 {
        1
    } else if i == 11 {
        1
    } else if i == 12 {
        1
    } else if i == 13 {
        1
    } else if i == 14 {
        1
    } else if i == 15 {
        1
    } else {
        0
    }
}

/// Whether the i-th catalog entry is protonated.
pub open spec fn catalog_protonate(i: int) -> bool {
    if i == 0 {
        true
    } else if i == 1 {
        true
    } else if i == 2 {
        true
    } else if i == 3 {
        true
    } else if i == 4 {
        true
    } else if i == 5 {
        true
    } else if i == 6 {
        false
    } else if i == 7 {
        false
    } else if i == 8 {
        true
    } else if i == 9 {
        true
    } else if i == 10 {
        true
    } else if i == 11 {
        false
    } else if i == 12 {
        false
    } else if i == 13 {
        false
    } else if i == 14 {
        false
    } else if i == 15 {
        true
    } else {
        false
    }
}

/// `s` is exactly the built-in catalog: the sixteen known contaminants in
/// order, none with a ladder computed yet.
pub open spec fn is_default_catalog(s: Seq<Polymer>) -> bool {
    &&& s.len() == 16
    &&& forall|i: int|
        0 <= i < 16 ==> ({
            &&& (#[trigger] s[i]).name@ == catalog_name(i)
            &&& s[i].spec_core() == catalog_core(i)
            &&& s[i].spec_rep() == catalog_rep(i)
            &&& s[i].spec_charge() == catalog_charge(i)
            &&& s[i].spec_protonate() == catalog_protonate(i)
            &&& s[i].precursors is None
            &&& s[i].tols is None
        })
}

/// The default contaminant definitions.
#[derive(Debug)]
pub struct DefaultPolymers(pub Vec<Polymer>);

impl DefaultPolymers {
    pub fn new() -> (r: Self)
        ensures
            is_default_catalog(r.0@),
            r.0@.len() == 16,
            forall|i: int| 0 <= i < r.0@.len() ==> (#[trigger] r.0@[i]).spec_charge() >= 1,
            forall|i: int| 0 <= i < r.0@.len() ==> (#[trigger] r.0@[i]).formulas_ok(),
    {
        proof {
            lemma_default_catalog_formulas_ok();
        }
        let mut polys: Vec<Polymer> = Vec::new();
        polys.push(Polymer::new("PEG+1H", "H2O", "C2H4O", 1, true));
        polys.push(Polymer::new("PEG+2H", "H2O", "C2H4O", 2, true));
        polys.push(Polymer::new("PEG+3H", "H2O", "C2H4O", 3, true));
        polys.push(Polymer::new("PPG", "H2O", "C3H6O", 1, true));
        polys.push(Polymer::new("Triton X-100", "C14H22O", "C2H4O", 1, true));
        polys.push(Polymer::new("Triton X-100 (Reduced)", "C14H28O", "C2H4O", 1, true));
        polys.push(Polymer::new("Triton X-100 (Na)", "C14H22ONa", "C2H4O", 1, false));
        polys.push(Polymer::new("Triton X-100 (Reduced, Na)", "C14H28ONa", "C2H4O", 1, false));
        polys.push(Polymer::new("Triton X-101", "C15H24O", "C2H4O", 1, true));
        polys.push(Polymer::new("Triton X-101 (Reduced)", "C15H30O", "C2H4O", 1, true));
        polys.push(Polymer::new("Polysiloxane", "", "C2H6SiO", 1, true));
        polys.push(Polymer::new("Tween-20", "C18H34O6Na", "C2H4O", 1, false));
        polys.push(Polymer::new("Tween-40", "C22H42O6Na", "C2H4O", 1, false));
        polys.push(Polymer::new("Tween-60", "C24H46O6Na", "C2H4O", 1, false));
        polys.push(Polymer::new("Tween-80", "C24H44O6Na", "C2H4O", 1, false));
        polys.push(Polymer::new("IGEPAL CA-630 (NP-40)", "C15H24O", "C2H4O", 1, true));
        proof {
            assert(is_default_catalog(polys@));
        }
        DefaultPolymers(polys)
    }
}

impl Default for DefaultPolymers {
    fn default() -> (r: Self)
        ensures
            is_default_catalog(r.0@),
            forall|i: int| 0 <= i < r.0@.len() ==> (#[trigger] r.0@[i]).spec_charge() >= 1,
            forall|i: int| 0 <= i < r.0@.len() ==> (#[trigger] r.0@[i]).formulas_ok(),
    {
        Self::new()
    }
}

} // verus!
