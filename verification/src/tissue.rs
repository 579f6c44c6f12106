//! The gas load of one tissue compartment and how it follows the pressure
//! of the gas that is breathed.
use vstd::prelude::*;
use crate::decay::{
    decay, decay_factor, half_lives_elapsed, lemma_decay_below_one, lemma_decay_of_no_time, lemma_decay_range,
    lemma_factor_shrinks, lemma_factor_shrinks_strictly, FACTOR_ONE,
};
use crate::zh16c::{coefficients, compartment, lemma_table_ranges, Compartment, COMPARTMENTS};
use crate::{water_vapor_pressure, FHE, FN2, MAX_PRESSURE, UNIT, WATER_VAPOR_PRESSURE};

verus! {

/// Partial pressures of the inert gases dissolved in one compartment.
#[derive(Clone, Copy, Debug, PartialEq, Eq, Structural)]
pub struct Tissue {
    pub load_n2: u64,
    pub load_he: u64,
}

impl Tissue {
    /// Both loads are within the pressures that the calculations accept.
    pub open spec fn wf(self) -> bool {
        self.load_n2 <= MAX_PRESSURE && self.load_he <= MAX_PRESSURE
    }

    /// The sum of both loads.
    pub open spec fn total(self) -> int {
        self.load_n2 + self.load_he
    }
}

impl Default for Tissue {
    /// A tissue that holds one bar of each gas.
    fn default() -> (tissue: Tissue)
        ensures
            tissue == (Tissue { load_n2: UNIT, load_he: UNIT }),
            tissue.wf(),
    {
        Tissue { load_n2: UNIT, load_he: UNIT }
    }
}

/// Partial pressure of a gas in the lungs: the ambient pressure less the
/// water vapour, times the fraction of the gas, rounded down.
pub open spec fn inspired_pressure(amb_pressure: int, fraction: int) -> int {
    (amb_pressure - WATER_VAPOR_PRESSURE) * fraction / (UNIT as int)
}

/// A load that has moved from `load` towards `target`: of the distance
/// between them the part `factor / 2^62` is left, rounded down.
pub open spec fn relaxed(load: int, target: int, factor: int) -> int {
    if load >= target {
        target + (load - target) * factor / (FACTOR_ONE as int)
    } else {
        target - (target - load) * factor / (FACTOR_ONE as int)
    }
}

/// How far a load is from its target.
pub open spec fn distance(load: int, target: int) -> int {
    if load >= target {
        load - target
    } else {
        target - load
    }
}

/// The tissue of compartment `index` after `minutes` at the ambient
/// pressure `amb_pressure`: each gas relaxes towards its inspired pressure
/// with the decay factor of its half-life.
pub open spec fn tissue_after(tissue: Tissue, index: int, amb_pressure: int, minutes: int) -> Tissue {
    Tissue {
        load_n2: relaxed(
            tissue.load_n2 as int,
            inspired_pressure(amb_pressure, FN2 as int),
            decay(compartment(index).n2_half_life as int, minutes),
        ) as u64,
        load_he: relaxed(
            tissue.load_he as int,
            inspired_pressure(amb_pressure, FHE as int),
            decay(compartment(index).he_half_life as int, minutes),
        ) as u64,
    }
}

/// The inspired pressure of a gas is at most the ambient pressure.
pub proof fn lemma_inspired_range(amb_pressure: int, fraction: int)
    requires
        WATER_VAPOR_PRESSURE <= amb_pressure,
        0 <= fraction <= UNIT,
    ensures
        0 <= inspired_pressure(amb_pressure, fraction) <= amb_pressure - WATER_VAPOR_PRESSURE,
{
    let dry = amb_pressure - WATER_VAPOR_PRESSURE;
    assert(0 <= dry * fraction <= dry * UNIT) by (nonlinear_arith)
        requires
            0 <= dry,
            0 <= fraction <= UNIT,
    ;
    vstd::arithmetic::div_mod::lemma_div_is_ordered(0, dry * fraction, UNIT as int);
    vstd::arithmetic::div_mod::lemma_div_is_ordered(dry * fraction, dry * UNIT, UNIT as int);
    vstd::arithmetic::div_mod::lemma_div_multiples_vanish(dry, UNIT as int);
    assert(dry * UNIT == UNIT * dry) by (nonlinear_arith);
}

/// A relaxed load lies between the old load and the target, and its
/// distance from the target is the old distance times the factor, rounded
/// down.
pub proof fn lemma_relaxed_between(load: int, target: int, factor: int)
    requires
        0 <= factor <= FACTOR_ONE,
    ensures
        distance(relaxed(load, target, factor), target) == distance(load, target) * factor / (
        FACTOR_ONE as int),
        distance(relaxed(load, target, factor), target) <= distance(load, target),
        load >= target ==> target <= relaxed(load, target, factor) <= load,
        load <= target ==> load <= relaxed(load, target, factor) <= target,
{
    lemma_factor_shrinks(distance(load, target), factor);
}

/// With the factor one, nothing moves.
pub proof fn lemma_relaxed_by_one(load: int, target: int)
    ensures
        relaxed(load, target, FACTOR_ONE as int) == load,
{
    let d = distance(load, target);
    vstd::arithmetic::div_mod::lemma_div_multiples_vanish(d, FACTOR_ONE as int);
    assert(d * FACTOR_ONE == FACTOR_ONE * d) by (nonlinear_arith);
}

/// No time, no change: a tissue brought forward by zero minutes is the
/// tissue itself, at any ambient pressure.
pub proof fn lemma_no_time_no_change(tissue: Tissue, index: int, amb_pressure: int)
    requires
        0 <= index < 16,
    ensures
        tissue_after(tissue, index, amb_pressure, 0) == tissue,
{
    lemma_table_ranges(index);
    lemma_decay_of_no_time(compartment(index).n2_half_life as int);
    lemma_decay_of_no_time(compartment(index).he_half_life as int);
    lemma_relaxed_by_one(tissue.load_n2 as int, inspired_pressure(amb_pressure, FN2 as int));
    lemma_relaxed_by_one(tissue.load_he as int, inspired_pressure(amb_pressure, FHE as int));
}

/// Each step brings a tissue closer to the gas that is breathed: the
/// distance of each load from its inspired pressure is the old distance
/// times the decay factor `2^(-minutes / half_life)`, rounded down. It
/// never grows, and it shrinks as soon as any time has passed that the
/// count of half-lives can tell.
pub proof fn lemma_distance_decays(tissue: Tissue, index: int, amb_pressure: int, minutes: int)
    requires
        tissue.wf(),
        0 <= index < 16,
        WATER_VAPOR_PRESSURE <= amb_pressure <= MAX_PRESSURE,
        0 <= minutes,
    ensures
        ({
            let after = tissue_after(tissue, index, amb_pressure, minutes);
            let target_n2 = inspired_pressure(amb_pressure, FN2 as int);
            let target_he = inspired_pressure(amb_pressure, FHE as int);
            let factor_n2 = decay(compartment(index).n2_half_life as int, minutes);
            let factor_he = decay(compartment(index).he_half_life as int, minutes);
            &&& after.wf()
            &&& distance(after.load_n2 as int, target_n2) == distance(tissue.load_n2 as int, target_n2)
                * factor_n2 / (FACTOR_ONE as int)
            &&& distance(after.load_he as int, target_he) == distance(tissue.load_he as int, target_he)
                * factor_he / (FACTOR_ONE as int)
            &&& distance(after.load_n2 as int, target_n2) <= distance(tissue.load_n2 as int, target_n2)
            &&& distance(after.load_he as int, target_he) <= distance(tissue.load_he as int, target_he)
            &&& half_lives_elapsed(compartment(index).n2_half_life as int, minutes) > 0 && tissue.load_n2
                != target_n2 ==> distance(after.load_n2 as int, target_n2) < distance(
                tissue.load_n2 as int,
                target_n2,
            )
            &&& half_lives_elapsed(compartment(index).he_half_life as int, minutes) > 0 && tissue.load_he
                != target_he ==> distance(after.load_he as int, target_he) < distance(
                tissue.load_he as int,
                target_he,
            )
        }),
{
    lemma_table_ranges(index);
    let row = compartment(index);
    let target_n2 = inspired_pressure(amb_pressure, FN2 as int);
    let target_he = inspired_pressure(amb_pressure, FHE as int);
    let factor_n2 = decay(row.n2_half_life as int, minutes);
    let factor_he = decay(row.he_half_life as int, minutes);
    lemma_inspired_range(amb_pressure, FN2 as int);
    lemma_inspired_range(amb_pressure, FHE as int);
    lemma_decay_range(row.n2_half_life as int, minutes);
    lemma_decay_range(row.he_half_life as int, minutes);
    lemma_relaxed_between(tissue.load_n2 as int, target_n2, factor_n2);
    lemma_relaxed_between(tissue.load_he as int, target_he, factor_he);
    if half_lives_elapsed(row.n2_half_life as int, minutes) > 0 && tissue.load_n2 != target_n2 {
        lemma_decay_below_one(row.n2_half_life as int, minutes);
        lemma_factor_shrinks_strictly(distance(tissue.load_n2 as int, target_n2), factor_n2);
    }
    if half_lives_elapsed(row.he_half_life as int, minutes) > 0 && tissue.load_he != target_he {
        lemma_decay_below_one(row.he_half_life as int, minutes);
        lemma_factor_shrinks_strictly(distance(tissue.load_he as int, target_he), factor_he);
    }
}

/// Partial pressure of a gas in the lungs at the given ambient pressure.
pub fn inspired(amb_pressure: u64, temperature: i64, fraction: u64) -> (pressure: u64)
    requires
        WATER_VAPOR_PRESSURE <= amb_pressure,
        fraction <= UNIT,
    ensures
        pressure == inspired_pressure(amb_pressure as int, fraction as int),
        pressure <= amb_pressure - WATER_VAPOR_PRESSURE,
{
    proof {
        lemma_inspired_range(amb_pressure as int, fraction as int);
        let dry = amb_pressure - WATER_VAPOR_PRESSURE;
        assert(0 <= dry * fraction <= 0xffff_ffff_ffff_ffff * 0xffff_ffff_ffff_ffff) by (nonlinear_arith)
            requires
                0 <= dry <= 0xffff_ffff_ffff_ffff,
                0 <= fraction <= 0xffff_ffff_ffff_ffff,
        ;
    }
    let dry: u64 = amb_pressure - water_vapor_pressure(temperature);
    let product: u128 = (dry as u128) * (fraction as u128);
    (product / (UNIT as u128)) as u64
}

/// Moves `load` towards `target`, leaving the part `factor / 2^62` of the
/// distance between them.
pub fn relax(load: u64, target: u64, factor: u64) -> (next: u64)
    requires
        factor <= FACTOR_ONE,
    ensures
        next == relaxed(load as int, target as int, factor as int),
        load >= target ==> target <= next <= load,
        load <= target ==> load <= next <= target,
{
    proof {
        lemma_relaxed_between(load as int, target as int, factor as int);
        lemma_factor_shrinks(distance(load as int, target as int), factor as int);
        assert(distance(load as int, target as int) * FACTOR_ONE <= 0xffff_ffff_ffff_ffff
            * 0xffff_ffff_ffff_ffff) by (nonlinear_arith)
            requires
                0 <= distance(load as int, target as int) <= 0xffff_ffff_ffff_ffff,
                FACTOR_ONE <= 0xffff_ffff_ffff_ffff,
        ;
    }
    if load >= target {
        let product: u128 = ((load - target) as u128) * (factor as u128);
        target + (product / (FACTOR_ONE as u128)) as u64
    } else {
        let product: u128 = ((target - load) as u128) * (factor as u128);
        target - (product / (FACTOR_ONE as u128)) as u64
    }
}

/// Brings the gas loads of compartment `tissue_index` forward by
/// `minutes_since_last_check` at the ambient pressure `amb_pressure`.
pub fn calculate_tissue(
    tissue: Tissue,
    tissue_index: usize,
    amb_pressure: u64,
    temperature: i64,
    minutes_since_last_check: u64,
) -> (next: Tissue)
    requires
        tissue.wf(),
        tissue_index < COMPARTMENTS,
        WATER_VAPOR_PRESSURE <= amb_pressure <= MAX_PRESSURE,
    ensures
        next == tissue_after(tissue, tissue_index as int, amb_pressure as int, minutes_since_last_check as int),
        next.wf(),
        minutes_since_last_check == 0 ==> next == tissue,
{
    let row: Compartment = coefficients(tissue_index);
    let ppn2: u64 = inspired(amb_pressure, temperature, FN2);
    let pphe: u64 = inspired(amb_pressure, temperature, FHE);
    let factor_n2: u64 = decay_factor(row.n2_half_life, minutes_since_last_check);
    let factor_he: u64 = decay_factor(row.he_half_life, minutes_since_last_check);
    proof {
        if minutes_since_last_check == 0 {
            lemma_relaxed_by_one(tissue.load_n2 as int, ppn2 as int);
            lemma_relaxed_by_one(tissue.load_he as int, pphe as int);
        }
    }
    Tissue {
        load_n2: relax(tissue.load_n2, ppn2, factor_n2),
        load_he: relax(tissue.load_he, pphe, factor_he),
    }
}

/// Every tissue of a profile is within the accepted pressures.
pub open spec fn all_wf(tissues: Seq<Tissue>) -> bool {
    forall|i: int| 0 <= i < tissues.len() ==> (#[trigger] tissues[i]).wf()
}

/// The sixteen tissues after `minutes` at the ambient pressure
/// `amb_pressure`, each as the compartment of its position.
pub open spec fn all_after(tissues: Seq<Tissue>, amb_pressure: int, minutes: int) -> Seq<Tissue> {
    Seq::new(16, |i: int| tissue_after(tissues[i], i, amb_pressure, minutes))
}

/// Brings all sixteen compartments forward by `minutes` at the ambient
/// pressure `amb_pressure`.
pub fn advance_tissues(tissues: &mut [Tissue; 16], amb_pressure: u64, temperature: i64, minutes: u64)
    requires
        all_wf(old(tissues)@),
        WATER_VAPOR_PRESSURE <= amb_pressure <= MAX_PRESSURE,
    ensures
        final(tissues)@ == all_after(old(tissues)@, amb_pressure as int, minutes as int),
        all_wf(final(tissues)@),
        minutes == 0 ==> final(tissues)@ == old(tissues)@,
{
    let mut i: usize = 0;
    while i < COMPARTMENTS
        invariant
            0 <= i <= 16,
            WATER_VAPOR_PRESSURE <= amb_pressure <= MAX_PRESSURE,
                all_wf(tissues@),
            forall|k: int|
                0 <= k < i ==> tissues@[k] == tissue_after(
                    #[trigger] old(tissues)@[k],
                    k,
                    amb_pressure as int,
                    minutes as int,
                ),
            forall|k: int| i <= k < 16 ==> tissues@[k] == #[trigger] old(tissues)@[k],
            minutes == 0 ==> tissues@ == old(tissues)@,
        decreases 16 - i,
    {
        let next: Tissue = calculate_tissue(tissues[i], i, amb_pressure, temperature, minutes);
        tissues[i] = next;
        proof {
            if minutes == 0 {
                assert(tissues@ =~= old(tissues)@);
            }
        }
        i = i + 1;
    }
    assert(tissues@ =~= all_after(old(tissues)@, amb_pressure as int, minutes as int));
}

} // verus!
