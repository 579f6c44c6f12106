//! The no-decompression limit: how many whole minutes a diver can stay at
//! a depth before a ceiling appears.
use vstd::prelude::*;
use crate::ceiling::{
    deepest_binary_ceiling, deepest_ceiling, lemma_deepest_ceilings_vanish_together, max_binary_ceiling,
    max_ceiling,
};
use crate::tissue::{advance_tissues, all_after, all_wf, lemma_distance_decays, Tissue};
use crate::{DecoError, DiveParameters, MAX_PRESSURE, UNIT, WATER_VAPOR_PRESSURE};

verus! {

/// Most minutes that a search for the limit looks ahead.
pub const NDL_LIMIT: u32 = 10_000;

/// The sixteen tissues after `count` whole minutes at the ambient pressure
/// `amb_pressure`, brought forward one minute at a time.
pub open spec fn after_minutes(tissues: Seq<Tissue>, amb_pressure: int, count: int) -> Seq<Tissue>
    decreases count,
{
    if count <= 0 {
        tissues
    } else {
        all_after(after_minutes(tissues, amb_pressure, count - 1), amb_pressure, UNIT as int)
    }
}

/// Whether a ceiling has appeared after `count` whole minutes.
pub open spec fn ceiling_after(
    gf_low: int,
    gf_high: int,
    tissues: Seq<Tissue>,
    amb_pressure: int,
    count: int,
) -> bool {
    deepest_ceiling(gf_low, gf_high, after_minutes(tissues, amb_pressure, count), 16) != 0
}

/// Whether the bisection finds a ceiling after `count` whole minutes.
pub open spec fn binary_ceiling_after(gf: int, tissues: Seq<Tissue>, amb_pressure: int, count: int) -> bool {
    deepest_binary_ceiling(gf, after_minutes(tissues, amb_pressure, count), 16) != 0
}

/// What `ndl` reports: the number of whole minutes after which the next
/// minute is the first to bring a ceiling, or, where none of the first
/// `NDL_LIMIT` minutes brings one, that there is no limit to report.
pub open spec fn is_limit(
    gf_low: int,
    gf_high: int,
    tissues: Seq<Tissue>,
    amb_pressure: int,
    limit: Result<u32, DecoError>,
) -> bool {
    match limit {
        Ok(minutes) => {
            &&& minutes < NDL_LIMIT
            &&& ceiling_after(gf_low, gf_high, tissues, amb_pressure, minutes + 1)
            &&& forall|k: int|
                1 <= k <= minutes ==> !#[trigger] ceiling_after(gf_low, gf_high, tissues, amb_pressure, k)
        },
        Err(error) => {
            &&& error == DecoError::InvalidSolution
            &&& forall|k: int|
                1 <= k <= NDL_LIMIT ==> !#[trigger] ceiling_after(gf_low, gf_high, tissues, amb_pressure, k)
        },
    }
}

/// What `binary_ndl` reports: as `is_limit`, with the ceilings that the
/// bisection finds.
pub open spec fn is_binary_limit(
    gf: int,
    tissues: Seq<Tissue>,
    amb_pressure: int,
    limit: Result<u32, DecoError>,
) -> bool {
    match limit {
        Ok(minutes) => {
            &&& minutes < NDL_LIMIT
            &&& binary_ceiling_after(gf, tissues, amb_pressure, minutes + 1)
            &&& forall|k: int|
                1 <= k <= minutes ==> !#[trigger] binary_ceiling_after(gf, tissues, amb_pressure, k)
        },
        Err(error) => {
            &&& error == DecoError::InvalidSolution
            &&& forall|k: int|
                1 <= k <= NDL_LIMIT ==> !#[trigger] binary_ceiling_after(gf, tissues, amb_pressure, k)
        },
    }
}

/// The number of minutes after which the tissues are left by a search
/// that reports `limit`: one more than the limit, or all that the search
/// looks ahead.
pub open spec fn minutes_spent(limit: Result<u32, DecoError>) -> int {
    match limit {
        Ok(minutes) => minutes + 1,
        Err(_) => NDL_LIMIT as int,
    }
}

/// Tissues stay within the accepted pressures however many minutes they
/// are brought forward.
pub proof fn lemma_after_minutes_wf(tissues: Seq<Tissue>, amb_pressure: int, count: int)
    requires
        tissues.len() == 16,
        all_wf(tissues),
        WATER_VAPOR_PRESSURE <= amb_pressure <= MAX_PRESSURE,
    ensures
        after_minutes(tissues, amb_pressure, count).len() == 16,
        all_wf(after_minutes(tissues, amb_pressure, count)),
    decreases count,
{
    if count > 0 {
        lemma_after_minutes_wf(tissues, amb_pressure, count - 1);
        let before = after_minutes(tissues, amb_pressure, count - 1);
        assert forall|i: int| 0 <= i < 16 implies (#[trigger] all_after(
            before,
            amb_pressure,
            UNIT as int,
        )[i]).wf() by {
            lemma_distance_decays(before[i], i, amb_pressure, UNIT as int);
        }
    }
}

/// With one gradient factor for both ends of the ascent, the two
/// searches agree: after any number of minutes the bisection finds a
/// ceiling exactly where the closed formula does, so that `ndl` and
/// `binary_ndl` report the same limit.
pub proof fn lemma_searches_agree(
    gf: int,
    tissues: Seq<Tissue>,
    amb_pressure: int,
    one: Result<u32, DecoError>,
    other: Result<u32, DecoError>,
)
    requires
        0 <= gf <= UNIT,
        tissues.len() == 16,
        all_wf(tissues),
        WATER_VAPOR_PRESSURE <= amb_pressure <= MAX_PRESSURE,
        is_limit(gf, gf, tissues, amb_pressure, one),
        is_binary_limit(gf, tissues, amb_pressure, other),
    ensures
        forall|k: int|
            ceiling_after(gf, gf, tissues, amb_pressure, k) == #[trigger] binary_ceiling_after(
                gf,
                tissues,
                amb_pressure,
                k,
            ),
        one == other,
{
    assert forall|k: int|
        ceiling_after(gf, gf, tissues, amb_pressure, k) == #[trigger] binary_ceiling_after(
            gf,
            tissues,
            amb_pressure,
            k,
        ) by {
        lemma_after_minutes_wf(tissues, amb_pressure, k);
        lemma_deepest_ceilings_vanish_together(gf, after_minutes(tissues, amb_pressure, k), 16);
    }
    match (one, other) {
        (Ok(a), Ok(b)) => {
            if a < b {
                assert(!binary_ceiling_after(gf, tissues, amb_pressure, a + 1));
            }
            if b < a {
                assert(!ceiling_after(gf, gf, tissues, amb_pressure, b + 1));
            }
        },
        (Ok(a), Err(_)) => {
            assert(!binary_ceiling_after(gf, tissues, amb_pressure, a + 1));
        },
        (Err(_), Ok(b)) => {
            assert(!ceiling_after(gf, gf, tissues, amb_pressure, b + 1));
        },
        (Err(_), Err(_)) => {},
    }
}

/// Finds the no-decompression limit at the ambient pressure
/// `amb_pressure`: the number of whole minutes that can be spent there
/// such that one minute more brings a ceiling. The tissues are left as
/// they are after that last minute. Where no ceiling appears within
/// `NDL_LIMIT` minutes there is no limit to report, and the tissues are
/// left as they are after that many minutes.
pub fn ndl(
    dive_parameters: DiveParameters,
    tissues: &mut [Tissue; 16],
    amb_pressure: u64,
    temperature: i64,
) -> (limit: Result<u32, DecoError>)
    requires
        dive_parameters.wf(),
        all_wf(old(tissues)@),
        WATER_VAPOR_PRESSURE <= amb_pressure <= MAX_PRESSURE,
    ensures
        all_wf(final(tissues)@),
        is_limit(
            dive_parameters.gf_low as int,
            dive_parameters.gf_high as int,
            old(tissues)@,
            amb_pressure as int,
            limit,
        ),
        final(tissues)@ == after_minutes(old(tissues)@, amb_pressure as int, minutes_spent(limit)),
{
    let mut bottom_time: u32 = 0;
    while bottom_time < NDL_LIMIT
        invariant
            bottom_time <= NDL_LIMIT,
            dive_parameters.wf(),
            WATER_VAPOR_PRESSURE <= amb_pressure <= MAX_PRESSURE,
            all_wf(tissues@),
            tissues@ == after_minutes(old(tissues)@, amb_pressure as int, bottom_time as int),
            forall|k: int|
                1 <= k <= bottom_time ==> !#[trigger] ceiling_after(
                    dive_parameters.gf_low as int,
                    dive_parameters.gf_high as int,
                    old(tissues)@,
                    amb_pressure as int,
                    k,
                ),
        decreases NDL_LIMIT - bottom_time,
    {
        advance_tissues(tissues, amb_pressure, temperature, UNIT);
        let deepest: (u32, usize) = max_ceiling(dive_parameters, tissues);
        if deepest.0 != 0 {
            return Ok(bottom_time);
        }
        bottom_time = bottom_time + 1;
    }
    Err(DecoError::InvalidSolution)
}

/// Finds the no-decompression limit as `ndl` does, with the ceilings found
/// by bisection at the low gradient factor.
pub fn binary_ndl(
    dive_parameters: DiveParameters,
    tissues: &mut [Tissue; 16],
    amb_pressure: u64,
    temperature: i64,
) -> (limit: Result<u32, DecoError>)
    requires
        dive_parameters.wf(),
        all_wf(old(tissues)@),
        WATER_VAPOR_PRESSURE <= amb_pressure <= MAX_PRESSURE,
    ensures
        all_wf(final(tissues)@),
        is_binary_limit(dive_parameters.gf_low as int, old(tissues)@, amb_pressure as int, limit),
        final(tissues)@ == after_minutes(old(tissues)@, amb_pressure as int, minutes_spent(limit)),
{
    let mut bottom_time: u32 = 0;
    while bottom_time < NDL_LIMIT
        invariant
            bottom_time <= NDL_LIMIT,
            dive_parameters.wf(),
            WATER_VAPOR_PRESSURE <= amb_pressure <= MAX_PRESSURE,
            all_wf(tissues@),
            tissues@ == after_minutes(old(tissues)@, amb_pressure as int, bottom_time as int),
            forall|k: int|
                1 <= k <= bottom_time ==> !#[trigger] binary_ceiling_after(
                    dive_parameters.gf_low as int,
                    old(tissues)@,
                    amb_pressure as int,
                    k,
                ),
        decreases NDL_LIMIT - bottom_time,
    {
        advance_tissues(tissues, amb_pressure, temperature, UNIT);
        let deepest: u32 = max_binary_ceiling(dive_parameters.gf_low, tissues);
        if deepest != 0 {
            return Ok(bottom_time);
        }
        bottom_time = bottom_time + 1;
    }
    Err(DecoError::InvalidSolution)
}


} // verus!
