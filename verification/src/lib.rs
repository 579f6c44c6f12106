//! Decompression calculations of the Buhlmann ZH-L16C model in fixed-point
//! integer arithmetic: tissue loading, ascent ceilings, no-decompression
//! limits and the simulation of a whole dive.
//!
//! Nothing here allocates but the record of a simulation, nothing needs
//! floating-point hardware, and every result is the same on every
//! machine. Every loop has a bound, and no function panics on an input
//! that its contract admits.
//!
//! Every physical quantity is an integer count of billionths of its unit
//! (see [`UNIT`]): pressures in bar, depths in metres, times in seconds or
//! minutes, temperatures in degrees Celsius, gradient factors and gas
//! fractions as parts of one. Only temperatures can be negative.
use vstd::prelude::*;
use crate::ceiling::{deepest_ceiling, max_ceiling};
use crate::m_value::{calculate_m_values, m_value};
use crate::simulate::{pressure_at, pressure_at_depth, SECONDS_PER_MINUTE};
use crate::tissue::{advance_tissues, all_after, all_wf, calculate_tissue, tissue_after, Tissue};

pub mod ceiling;
pub mod decay;
pub mod m_value;
pub mod ndl;
pub mod simulate;
pub mod tissue;
pub mod zh16c;

verus! {

/// One bar, metre, second or minute, and the fraction one.
pub const UNIT: u64 = 1_000_000_000;

/// Highest pressure that the calculations accept: a thousand bar.
pub const MAX_PRESSURE: u64 = 1_000_000_000_000;

/// Fraction of nitrogen in the breathing gas.
pub const FN2: u64 = 790_000_000;

/// Fraction of helium in the breathing gas.
pub const FHE: u64 = 0;

/// Partial pressure of water vapour in the lungs, in bar: 0.0627.
pub const WATER_VAPOR_PRESSURE: u64 = 62_700_000;

/// The inert gas fractions of a breathing gas, as parts of one.
pub struct Gas {
    pub n2: u64,
    pub he: u64,
}

/// How a dive is to be run: speeds in metres a second, the safety stop in
/// seconds and metres, the gradient factors as fractions, the air
/// consumption in litres a minute.
///
/// The gradient factors are taken as they are given: nothing asks that
/// `gf_low` be the lower of the two.
#[derive(Clone, Copy, Debug, PartialEq, Eq, Structural)]
pub struct DiveParameters {
    pub descent_speed: u64,
    pub ascent_speed: u64,
    pub safety_stop_ascent_speed: u64,
    pub safety_stop_duration: u64,
    pub safety_stop_depth: u64,
    pub gf_low: u64,
    pub gf_high: u64,
    pub sac_rate: u64,
}

impl DiveParameters {
    /// Both gradient factors are fractions above zero and at most one.
    pub open spec fn wf(self) -> bool {
        &&& 0 < self.gf_low <= UNIT
        &&& 0 < self.gf_high <= UNIT
    }

    /// Parameters of a dive with the given gradient factors, a descent of
    /// a third of a metre and an ascent of a sixth of a metre a second.
    pub fn new(gf_high: u64, gf_low: u64) -> (params: DiveParameters)
        ensures
            params == (DiveParameters {
                descent_speed: 333_333_333,
                ascent_speed: 166_666_700,
                safety_stop_ascent_speed: 83_000_000,
                safety_stop_duration: 3_000_000_000,
                safety_stop_depth: 5_000_000_000,
                gf_low,
                gf_high,
                sac_rate: 20_000_000_000,
            }),
            0 < gf_low <= UNIT && 0 < gf_high <= UNIT ==> params.wf(),
    {
        DiveParameters {
            descent_speed: 333_333_333,
            ascent_speed: 166_666_700,
            safety_stop_ascent_speed: 83_000_000,
            safety_stop_duration: 3_000_000_000,
            safety_stop_depth: 5_000_000_000,
            gf_low,
            gf_high,
            sac_rate: 20_000_000_000,
        }
    }
}

impl Default for DiveParameters {
    /// Parameters without conservatism: both gradient factors are one.
    fn default() -> (params: DiveParameters)
        ensures
            params == (DiveParameters {
                descent_speed: 330_000_000,
                ascent_speed: 170_000_000,
                safety_stop_ascent_speed: 83_000_000,
                safety_stop_duration: 3_000_000_000,
                safety_stop_depth: 5_000_000_000,
                gf_low: UNIT,
                gf_high: UNIT,
                sac_rate: 20_000_000_000,
            }),
            params.wf(),
    {
        DiveParameters {
            descent_speed: 330_000_000,
            ascent_speed: 170_000_000,
            safety_stop_ascent_speed: 83_000_000,
            safety_stop_duration: 3_000_000_000,
            safety_stop_depth: 5_000_000_000,
            gf_low: UNIT,
            gf_high: UNIT,
            sac_rate: 20_000_000_000,
        }
    }
}

/// Why a decompression calculation gave no result.
#[derive(Clone, Copy, Debug, PartialEq, Eq, Structural)]
pub enum DecoError {
    /// A compartment holds more gas than its M-value allows.
    Oversaturation,
    /// The diver is above the ceiling.
    BurstCeiling,
    /// A calculation did not come to an end within its allowance of steps.
    InvalidSolution,
}

/// Partial pressure of water vapour in the lungs. The model takes it as
/// constant: the temperature does not enter.
pub fn water_vapor_pressure(_temperature: i64) -> (pressure: u64)
    ensures
        pressure == WATER_VAPOR_PRESSURE,
{
    WATER_VAPOR_PRESSURE
}

/// The nitrogen load of a tissue in equilibrium with air at one bar.
pub open spec fn surface_load() -> int {
    (UNIT - WATER_VAPOR_PRESSURE) * FN2 / (UNIT as int)
}

/// Nitrogen load of a tissue that is saturated at the surface.
pub fn default_tissue_load(temperature: i64) -> (load: u64)
    ensures
        load == surface_load(),
        load == 740_467_000,
{
    tissue::inspired(UNIT, temperature, FN2)
}

/// Deepest decompression stop that can be planned, in metres.
pub const MAX_STOP_DEPTH: u32 = 9_000;

/// Most times that the ceiling is looked at during one decompression
/// stop, a second apart.
pub const STOP_CHECK_LIMIT: u32 = 10_000;

/// Whether compartment `index`, brought forward by `minutes` at the
/// ambient pressure `amb_pressure`, holds more nitrogen than its M-value
/// allows there.
pub open spec fn exceeds_m_value(tissue: Tissue, index: int, amb_pressure: int, minutes: int) -> bool {
    m_value(amb_pressure, index) < tissue_after(tissue, index, amb_pressure, minutes).load_n2
}

/// Brings the compartments forward by `delta_t` minutes, one after the
/// other, and stops at the first that then holds more nitrogen than its
/// M-value allows: that one and those before it are brought forward, the
/// rest are left as they were.
pub fn run_no_deco_loop(
    _dive_parameters: &mut DiveParameters,
    tissues: &mut [Tissue; 16],
    amb_pressure: u64,
    temperature: i64,
    delta_t: u64,
) -> (outcome: Result<(), DecoError>)
    requires
        all_wf(old(tissues)@),
        WATER_VAPOR_PRESSURE <= amb_pressure <= MAX_PRESSURE,
    ensures
        *final(_dive_parameters) == *old(_dive_parameters),
        all_wf(final(tissues)@),
        match outcome {
            Ok(_) => {
                &&& final(tissues)@ == all_after(old(tissues)@, amb_pressure as int, delta_t as int)
                &&& forall|i: int|
                    0 <= i < 16 ==> !exceeds_m_value(
                        #[trigger] old(tissues)@[i],
                        i,
                        amb_pressure as int,
                        delta_t as int,
                    )
            },
            Err(error) => {
                &&& error == DecoError::Oversaturation
                &&& exists|first: int|
                    {
                        &&& 0 <= first < 16
                        &&& #[trigger] exceeds_m_value(
                            old(tissues)@[first],
                            first,
                            amb_pressure as int,
                            delta_t as int,
                        )
                        &&& forall|i: int|
                            0 <= i < first ==> !exceeds_m_value(
                                #[trigger] old(tissues)@[i],
                                i,
                                amb_pressure as int,
                                delta_t as int,
                            )
                        &&& forall|i: int|
                            0 <= i <= first ==> final(tissues)@[i] == tissue_after(
                                #[trigger] old(tissues)@[i],
                                i,
                                amb_pressure as int,
                                delta_t as int,
                            )
                        &&& forall|i: int| first < i < 16 ==> final(tissues)@[i] == #[trigger] old(tissues)@[i]
                    }
            },
        },
{
    let mut i: usize = 0;
    while i < 16
        invariant
            0 <= i <= 16,
            WATER_VAPOR_PRESSURE <= amb_pressure <= MAX_PRESSURE,
            all_wf(tissues@),
            forall|k: int|
                0 <= k < i ==> tissues@[k] == tissue_after(
                    #[trigger] old(tissues)@[k],
                    k,
                    amb_pressure as int,
                    delta_t as int,
                ),
            forall|k: int|
                0 <= k < i ==> !exceeds_m_value(
                    #[trigger] old(tissues)@[k],
                    k,
                    amb_pressure as int,
                    delta_t as int,
                ),
            forall|k: int| i <= k < 16 ==> tissues@[k] == #[trigger] old(tissues)@[k],
        decreases 16 - i,
    {
        let next: Tissue = calculate_tissue(tissues[i], i, amb_pressure, temperature, delta_t);
        tissues[i] = next;
        if calculate_m_values(amb_pressure, i) < next.load_n2 {
            assert(exceeds_m_value(old(tissues)@[i as int], i as int, amb_pressure as int, delta_t as int));
            return Err(DecoError::Oversaturation);
        }
        i = i + 1;
    }
    assert(tissues@ =~= all_after(old(tissues)@, amb_pressure as int, delta_t as int));
    Ok(())
}

/// The tissues with which a decompression stop at `depth` metres is left:
/// those with which the ceiling is first found shallower than the stop,
/// looking once a second and at most `checks` times; none where the
/// ceiling does not clear in that time.
pub open spec fn stop_cleared(
    gf_low: int,
    gf_high: int,
    tissues: Seq<Tissue>,
    depth: int,
    checks: int,
) -> Option<Seq<Tissue>>
    decreases checks,
{
    if checks <= 0 {
        None
    } else if deepest_ceiling(gf_low, gf_high, tissues, 16) < depth {
        Some(tissues)
    } else {
        stop_cleared(
            gf_low,
            gf_high,
            all_after(tissues, pressure_at(depth * UNIT), (UNIT / SECONDS_PER_MINUTE) as int),
            depth,
            checks - 1,
        )
    }
}

/// Whether every decompression stop from `depth` metres up to three
/// metres, three metres apart, clears within its allowance of checks,
/// each stop starting with the tissues with which the one below was left.
pub open spec fn stops_clear(gf_low: int, gf_high: int, tissues: Seq<Tissue>, depth: int) -> bool
    decreases depth,
{
    if depth < 3 {
        true
    } else {
        match stop_cleared(gf_low, gf_high, tissues, depth, STOP_CHECK_LIMIT as int) {
            Some(left) => stops_clear(gf_low, gf_high, left, depth - 3),
            None => false,
        }
    }
}

/// Plans the decompression stops from the present ceiling up to three
/// metres and tells whether every one of them clears within its
/// allowance. The tissues are left as they were.
pub fn calculate_deco_stops(
    dive_parameters: DiveParameters,
    tissues: &mut [Tissue; 16],
    _amb_pressure: u64,
    temperature: i64,
) -> (outcome: Result<(), DecoError>)
    requires
        dive_parameters.wf(),
        all_wf(old(tissues)@),
        deepest_ceiling(dive_parameters.gf_low as int, dive_parameters.gf_high as int, old(tissues)@, 16)
            <= MAX_STOP_DEPTH,
    ensures
        final(tissues)@ == old(tissues)@,
        outcome is Ok <==> stops_clear(
            dive_parameters.gf_low as int,
            dive_parameters.gf_high as int,
            old(tissues)@,
            deepest_ceiling(dive_parameters.gf_low as int, dive_parameters.gf_high as int, old(tissues)@, 16),
        ),
        outcome is Err ==> outcome == Err::<(), DecoError>(DecoError::InvalidSolution),
{
    let first_stop: (u32, usize) = max_ceiling(dive_parameters, tissues);
    let mut current_stop_depth: u32 = first_stop.0;
    let mut base: [Tissue; 16] = *tissues;
    while current_stop_depth >= 3
        invariant
            dive_parameters.wf(),
            all_wf(base@),
            current_stop_depth <= MAX_STOP_DEPTH,
            tissues@ == old(tissues)@,
            first_stop.0 == deepest_ceiling(
                dive_parameters.gf_low as int,
                dive_parameters.gf_high as int,
                old(tissues)@,
                16,
            ),
            stops_clear(
                dive_parameters.gf_low as int,
                dive_parameters.gf_high as int,
                base@,
                current_stop_depth as int,
            ) == stops_clear(
                dive_parameters.gf_low as int,
                dive_parameters.gf_high as int,
                old(tissues)@,
                first_stop.0 as int,
            ),
        decreases current_stop_depth,
    {
        let mut stop_length: u32 = 0;
        let mut held: [Tissue; 16] = base;
        let pressure: u64 = pressure_at_depth((current_stop_depth as u64) * UNIT);
        loop
            invariant_except_break
                stop_length <= STOP_CHECK_LIMIT,
                stop_cleared(
                    dive_parameters.gf_low as int,
                    dive_parameters.gf_high as int,
                    held@,
                    current_stop_depth as int,
                    STOP_CHECK_LIMIT - stop_length,
                ) == stop_cleared(
                    dive_parameters.gf_low as int,
                    dive_parameters.gf_high as int,
                    base@,
                    current_stop_depth as int,
                    STOP_CHECK_LIMIT as int,
                ),
            invariant
                dive_parameters.wf(),
                all_wf(held@),
                all_wf(base@),
                3 <= current_stop_depth <= MAX_STOP_DEPTH,
                pressure == pressure_at(current_stop_depth * UNIT),
                WATER_VAPOR_PRESSURE <= pressure <= MAX_PRESSURE,
                tissues@ == old(tissues)@,
                first_stop.0 == deepest_ceiling(
                    dive_parameters.gf_low as int,
                    dive_parameters.gf_high as int,
                    old(tissues)@,
                    16,
                ),
                stops_clear(
                    dive_parameters.gf_low as int,
                    dive_parameters.gf_high as int,
                    base@,
                    current_stop_depth as int,
                ) == stops_clear(
                    dive_parameters.gf_low as int,
                    dive_parameters.gf_high as int,
                    old(tissues)@,
                    first_stop.0 as int,
                ),
            ensures
                stop_cleared(
                    dive_parameters.gf_low as int,
                    dive_parameters.gf_high as int,
                    base@,
                    current_stop_depth as int,
                    STOP_CHECK_LIMIT as int,
                ) == Some(held@),
            decreases STOP_CHECK_LIMIT - stop_length,
        {
            if stop_length >= STOP_CHECK_LIMIT {
                assert(stop_cleared(
                    dive_parameters.gf_low as int,
                    dive_parameters.gf_high as int,
                    base@,
                    current_stop_depth as int,
                    STOP_CHECK_LIMIT as int,
                ) is None);
                assert(!stops_clear(
                    dive_parameters.gf_low as int,
                    dive_parameters.gf_high as int,
                    base@,
                    current_stop_depth as int,
                ));
                return Err(DecoError::InvalidSolution);
            }
            stop_length = stop_length + 1;
            let current_ceiling: (u32, usize) = max_ceiling(dive_parameters, &held);
            if current_ceiling.0 < current_stop_depth {
                break;
            }
            advance_tissues(&mut held, pressure, temperature, UNIT / SECONDS_PER_MINUTE);
        }
        base = held;
        current_stop_depth = current_stop_depth - 3;
    }
    Ok(())
}

} // verus!
