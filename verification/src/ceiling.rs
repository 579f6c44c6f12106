//! The ascent ceiling: the shallowest depth to which a diver may rise
//! without a compartment holding more gas than it tolerates there.
use vstd::prelude::*;
use crate::tissue::Tissue;
use crate::zh16c::{
    coefficients, compartment, lemma_table_ranges, Compartment, COEFF_STEP, COEFF_UNIT, COMPARTMENTS, MAX_A,
    MAX_B, MIN_B,
};
use crate::{DiveParameters, MAX_PRESSURE, UNIT};

verus! {

/// Depth of water that weighs one bar, in metres.
pub const METRES_PER_BAR: u64 = 10;

/// Spacing of decompression stops, in metres.
pub const STOP_SPACING: u64 = 3;

/// Spacing of decompression stops, in billionths of a metre.
pub const STOP_INTERVAL: u64 = 3_000_000_000;

/// Deepest depth that a ceiling can have: that of twice the highest
/// pressure.
pub const MAX_DEPTH: u64 = 20_000_000_000_000;

/// Deepest ceiling that can be reported, in metres: the deepest depth
/// rounded up to a stop.
pub const MAX_CEILING: u32 = 20_003;

/// Depth from which the bisection looks for an upper bound: a hundred
/// metres.
pub const SEARCH_START: u64 = 100_000_000_000;

/// Width of the interval at which the bisection ends: a tenth of a metre.
pub const PRECISION: u64 = 100_000_000;

/// Most rounds that either part of the bisection runs.
pub const MAX_ITERATIONS: u32 = 50;

/// A first stop that is closer to the surface than this, a millionth of a
/// bar, leaves nothing to interpolate over.
pub const FLAT_SPAN: u64 = 1_000;

/// The `a` coefficients of compartment `index`, each weighted with the
/// load of its gas.
pub open spec fn weighted_a(tissue: Tissue, index: int) -> int {
    compartment(index).n2_a * tissue.load_n2 + compartment(index).he_a * tissue.load_he
}

/// The `b` coefficients of compartment `index`, each weighted with the
/// load of its gas.
pub open spec fn weighted_b(tissue: Tissue, index: int) -> int {
    compartment(index).n2_b * tissue.load_n2 + compartment(index).he_b * tissue.load_he
}

/// The lowest ambient pressure that compartment `index` tolerates with the
/// loads of `tissue` at the gradient factor `gf`.
///
/// With `p` the sum of the loads, and `a` and `b` the coefficients of the
/// two gases averaged by their loads, this is
/// `(p - gf * a) * b / ((1 - b) * gf + b)`, or zero where that is negative
/// or the tissue holds no gas. The product `gf * a` and the final quotient
/// are each rounded down.
pub open spec fn tolerated_pressure(gf: int, tissue: Tissue, index: int) -> int {
    let p = tissue.total();
    let full = COEFF_UNIT * p;
    let excess = gf * weighted_a(tissue, index) / p;
    let divisor = gf * (full - weighted_b(tissue, index)) + UNIT * weighted_b(tissue, index);
    if p <= 0 || excess >= full {
        0
    } else {
        (full - excess) * weighted_b(tissue, index) * COEFF_STEP / divisor
    }
}

/// Depth in billionths of a metre at which the ambient pressure is
/// `pressure`, under a surface pressure of `surface`; zero above the
/// surface.
pub open spec fn depth_at(pressure: int, surface: int) -> int {
    if pressure <= surface {
        0
    } else {
        (pressure - surface) * METRES_PER_BAR
    }
}

/// A depth in whole metres, rounded down.
pub open spec fn whole_metres(depth: int) -> int {
    depth / (UNIT as int)
}

/// A depth in whole metres, rounded up to the next decompression stop.
pub open spec fn stop_metres(depth: int) -> int {
    (depth + STOP_INTERVAL - 1) / (STOP_INTERVAL as int) * STOP_SPACING
}

/// A depth in metres as a ceiling reports it: rounded up to a stop, or
/// rounded down to the metre.
pub open spec fn reported_metres(depth: int, round: bool) -> int {
    if round {
        stop_metres(depth)
    } else {
        whole_metres(depth)
    }
}

/// The weighted coefficients lie between the smallest and the largest
/// coefficient of the table, times the sum of the loads.
pub proof fn lemma_weighted_range(tissue: Tissue, index: int)
    requires
        0 <= index < 16,
    ensures
        0 <= weighted_a(tissue, index) <= MAX_A * tissue.total(),
        MIN_B * tissue.total() <= weighted_b(tissue, index) <= MAX_B * tissue.total(),
{
    lemma_table_ranges(index);
    let row = compartment(index);
    let n = tissue.load_n2 as int;
    let h = tissue.load_he as int;
    assert(0 <= row.n2_a * n <= MAX_A * n) by (nonlinear_arith)
        requires
            0 <= n,
            0 <= row.n2_a <= MAX_A,
    ;
    assert(0 <= row.he_a * h <= MAX_A * h) by (nonlinear_arith)
        requires
            0 <= h,
            0 <= row.he_a <= MAX_A,
    ;
    assert(MIN_B * n <= row.n2_b * n <= MAX_B * n) by (nonlinear_arith)
        requires
            0 <= n,
            MIN_B <= row.n2_b <= MAX_B,
    ;
    assert(MIN_B * h <= row.he_b * h <= MAX_B * h) by (nonlinear_arith)
        requires
            0 <= h,
            MIN_B <= row.he_b <= MAX_B,
    ;
}

/// The parts of the tolerated pressure are bounded: the divisor is
/// positive and the pressure is at most the sum of the loads.
pub proof fn lemma_tolerated_range(gf: int, tissue: Tissue, index: int)
    requires
        0 <= gf <= UNIT,
        0 <= index < 16,
    ensures
        0 <= tolerated_pressure(gf, tissue, index) <= tissue.total(),
        tissue.total() > 0 ==> {
            let p = tissue.total();
            let full = COEFF_UNIT * p;
            let b = weighted_b(tissue, index);
            let divisor = gf * (full - b) + UNIT * b;
            &&& 0 <= gf * weighted_a(tissue, index) / p <= gf * MAX_A
            &&& 0 < UNIT * b <= divisor <= UNIT * full
            &&& b < full
        },
{
    let p = tissue.total();
    if p > 0 {
        lemma_weighted_range(tissue, index);
        let a = weighted_a(tissue, index);
        let b = weighted_b(tissue, index);
        let full = COEFF_UNIT * p;
        let excess = gf * a / p;
        let divisor = gf * (full - b) + UNIT * b;
        assert(0 <= gf * a <= gf * MAX_A * p) by (nonlinear_arith)
            requires
                0 <= gf,
                0 <= a <= MAX_A * p,
        ;
        vstd::arithmetic::div_mod::lemma_div_is_ordered(0, gf * a, p);
        vstd::arithmetic::div_mod::lemma_div_is_ordered(gf * a, gf * MAX_A * p, p);
        vstd::arithmetic::div_mod::lemma_div_multiples_vanish(gf * MAX_A, p);
        assert(gf * MAX_A * p == p * (gf * MAX_A)) by (nonlinear_arith);
        assert(0 < UNIT * b <= divisor <= UNIT * full) by (nonlinear_arith)
            requires
                0 <= gf <= UNIT,
                0 < b < full,
                divisor == gf * (full - b) + UNIT * b,
        ;
        if excess < full {
            let head = full - excess;
            assert(0 <= head * b * COEFF_STEP <= p * divisor) by (nonlinear_arith)
                requires
                    0 < head <= COEFF_UNIT * p,
                    0 < b,
                    UNIT * b <= divisor,
                    p > 0,
                    COEFF_UNIT * COEFF_STEP == UNIT,
            ;
            vstd::arithmetic::div_mod::lemma_div_is_ordered(0, head * b * COEFF_STEP, divisor);
            vstd::arithmetic::div_mod::lemma_div_is_ordered(head * b * COEFF_STEP, p * divisor, divisor);
            vstd::arithmetic::div_mod::lemma_div_multiples_vanish(p, divisor);
            assert(p * divisor == divisor * p) by (nonlinear_arith);
        }
    }
}

/// The tolerated pressure without a word of rounding: `excess` and
/// `pressure` are the two quotients of its definition exactly when each,
/// times its divisor, is at most its dividend and less than one divisor
/// short of it.
pub proof fn lemma_tolerated_is_quotient(gf: int, tissue: Tissue, index: int, excess: int, pressure: int)
    requires
        0 <= gf <= UNIT,
        0 <= index < 16,
        tissue.total() > 0,
        excess * tissue.total() <= gf * weighted_a(tissue, index) < (excess + 1) * tissue.total(),
        excess < COEFF_UNIT * tissue.total(),
        ({
            let b = weighted_b(tissue, index);
            let head = COEFF_UNIT * tissue.total() - excess;
            let divisor = gf * (COEFF_UNIT * tissue.total() - b) + UNIT * b;
            pressure * divisor <= head * b * COEFF_STEP < (pressure + 1) * divisor
        }),
    ensures
        tolerated_pressure(gf, tissue, index) == pressure,
{
    let p = tissue.total();
    let a = weighted_a(tissue, index);
    let b = weighted_b(tissue, index);
    let head = COEFF_UNIT * p - excess;
    let divisor = gf * (COEFF_UNIT * p - b) + UNIT * b;
    lemma_tolerated_range(gf, tissue, index);
    assert((excess + 1) * p == excess * p + p) by (nonlinear_arith);
    vstd::arithmetic::div_mod::lemma_fundamental_div_mod_converse(gf * a, p, excess, gf * a - excess * p);
    let rest = head * b * COEFF_STEP - pressure * divisor;
    assert(divisor * pressure == pressure * divisor) by (nonlinear_arith);
    assert((pressure + 1) * divisor == pressure * divisor + divisor) by (nonlinear_arith);
    vstd::arithmetic::div_mod::lemma_fundamental_div_mod_converse(
        head * b * COEFF_STEP,
        divisor,
        pressure,
        rest,
    );
}

/// Computes the lowest ambient pressure that a compartment tolerates at a
/// gradient factor.
pub fn tolerated(gradient_factor: u64, tissue: &Tissue, tissue_index: usize) -> (pressure: u64)
    requires
        gradient_factor <= UNIT,
        tissue.wf(),
        tissue_index < COMPARTMENTS,
    ensures
        pressure == tolerated_pressure(gradient_factor as int, *tissue, tissue_index as int),
        pressure <= tissue.total(),
{
    let row: Compartment = coefficients(tissue_index);
    let p: u64 = tissue.load_n2 + tissue.load_he;
    if p == 0 {
        return 0;
    }
    proof {
        lemma_weighted_range(*tissue, tissue_index as int);
        lemma_tolerated_range(gradient_factor as int, *tissue, tissue_index as int);
        assert(row.n2_a * tissue.load_n2 <= MAX_A * MAX_PRESSURE) by (nonlinear_arith)
            requires
                row.n2_a <= MAX_A,
                tissue.load_n2 <= MAX_PRESSURE,
        ;
        assert(row.he_a * tissue.load_he <= MAX_A * MAX_PRESSURE) by (nonlinear_arith)
            requires
                row.he_a <= MAX_A,
                tissue.load_he <= MAX_PRESSURE,
        ;
        assert(row.n2_b * tissue.load_n2 <= MAX_B * MAX_PRESSURE) by (nonlinear_arith)
            requires
                row.n2_b <= MAX_B,
                tissue.load_n2 <= MAX_PRESSURE,
        ;
        assert(row.he_b * tissue.load_he <= MAX_B * MAX_PRESSURE) by (nonlinear_arith)
            requires
                row.he_b <= MAX_B,
                tissue.load_he <= MAX_PRESSURE,
        ;
    }
    let a_sum: u64 = row.n2_a * tissue.load_n2 + row.he_a * tissue.load_he;
    let b_sum: u64 = row.n2_b * tissue.load_n2 + row.he_b * tissue.load_he;
    proof {
        assert(gradient_factor * a_sum <= UNIT * (2 * MAX_A * MAX_PRESSURE)) by (nonlinear_arith)
            requires
                gradient_factor <= UNIT,
                a_sum <= 2 * MAX_A * MAX_PRESSURE,
        ;
    }
    let excess: u128 = (gradient_factor as u128) * (a_sum as u128) / (p as u128);
    let full: u128 = (COEFF_UNIT as u128) * (p as u128);
    if excess >= full {
        return 0;
    }
    let head: u128 = full - excess;
    proof {
        assert(gradient_factor * (full - b_sum) <= UNIT * (2 * COEFF_UNIT * MAX_PRESSURE))
            by (nonlinear_arith)
            requires
                gradient_factor <= UNIT,
                0 <= full - b_sum <= 2 * COEFF_UNIT * MAX_PRESSURE,
        ;
        assert(head * b_sum <= 20_000_000_000_000_000 * 20_000_000_000_000_000) by (nonlinear_arith)
            requires
                0 <= head <= 20_000_000_000_000_000,
                0 <= b_sum <= 20_000_000_000_000_000,
        ;
    }
    let divisor: u128 = (gradient_factor as u128) * (full - b_sum as u128) + (UNIT as u128) * (
    b_sum as u128);
    let product: u128 = head * (b_sum as u128) * (COEFF_STEP as u128);
    (product / divisor) as u64
}

/// Turns a depth into the whole metres that a ceiling reports.
pub fn report_metres(depth: u64, round: bool) -> (metres: u32)
    requires
        depth <= 2 * MAX_DEPTH,
    ensures
        metres == reported_metres(depth as int, round),
        metres <= depth / UNIT + 3,
{
    proof {
        lemma_stop_rounding(depth as int);
    }
    if round {
        let stops: u64 = (depth + (STOP_INTERVAL - 1)) / STOP_INTERVAL;
        (stops * STOP_SPACING) as u32
    } else {
        (depth / UNIT) as u32
    }
}

/// Computes the depth at which the ambient pressure is `pressure`.
pub fn depth_of(pressure: u64, surface_pressure: u64) -> (depth: u64)
    requires
        pressure <= 2 * MAX_PRESSURE,
    ensures
        depth == depth_at(pressure as int, surface_pressure as int),
        depth <= MAX_DEPTH,
{
    if pressure <= surface_pressure {
        0
    } else {
        (pressure - surface_pressure) * METRES_PER_BAR
    }
}

/// The gradient factor between `gf_low` and `gf_high` that belongs to the
/// pressure `ambient`: `gf_low` at the surface pressure, `gf_high` at
/// `first_stop`, and in between the two weighted by how far `ambient` lies
/// from each, rounded down. Where `first_stop` is within a millionth of a
/// bar of the surface there is nothing to interpolate over, and the factor
/// is `gf_high`.
pub open spec fn interpolated_gf(gf_low: int, gf_high: int, ambient: int, surface: int, first_stop: int) -> int {
    let span = if first_stop >= surface {
        first_stop - surface
    } else {
        surface - first_stop
    };
    let rise = if first_stop >= surface {
        ambient - surface
    } else {
        surface - ambient
    };
    if span < FLAT_SPAN {
        gf_high
    } else if rise <= 0 {
        gf_low
    } else if rise >= span {
        gf_high
    } else {
        (gf_low * (span - rise) + gf_high * rise) / span
    }
}

/// An interpolated gradient factor lies between the two it was made of.
pub proof fn lemma_interpolated_between(gf_low: int, gf_high: int, ambient: int, surface: int, first_stop: int)
    requires
        0 <= gf_low,
        0 <= gf_high,
    ensures
        gf_low <= gf_high ==> gf_low <= interpolated_gf(gf_low, gf_high, ambient, surface, first_stop)
            <= gf_high,
        gf_high <= gf_low ==> gf_high <= interpolated_gf(gf_low, gf_high, ambient, surface, first_stop)
            <= gf_low,
{
    let span = if first_stop >= surface {
        first_stop - surface
    } else {
        surface - first_stop
    };
    let rise = if first_stop >= surface {
        ambient - surface
    } else {
        surface - ambient
    };
    if span >= FLAT_SPAN && 0 < rise < span {
        let sum = gf_low * (span - rise) + gf_high * rise;
        vstd::arithmetic::div_mod::lemma_div_multiples_vanish(gf_low, span);
        vstd::arithmetic::div_mod::lemma_div_multiples_vanish(gf_high, span);
        assert(gf_low * span == span * gf_low) by (nonlinear_arith);
        assert(gf_high * span == span * gf_high) by (nonlinear_arith);
        if gf_low <= gf_high {
            assert(gf_low * span <= sum <= gf_high * span) by (nonlinear_arith)
                requires
                    0 < rise < span,
                    0 <= gf_low <= gf_high,
                    sum == gf_low * (span - rise) + gf_high * rise,
            ;
            vstd::arithmetic::div_mod::lemma_div_is_ordered(gf_low * span, sum, span);
            vstd::arithmetic::div_mod::lemma_div_is_ordered(sum, gf_high * span, span);
        } else {
            assert(gf_high * span <= sum <= gf_low * span) by (nonlinear_arith)
                requires
                    0 < rise < span,
                    0 <= gf_high <= gf_low,
                    sum == gf_low * (span - rise) + gf_high * rise,
            ;
            vstd::arithmetic::div_mod::lemma_div_is_ordered(gf_high * span, sum, span);
            vstd::arithmetic::div_mod::lemma_div_is_ordered(sum, gf_low * span, span);
        }
    }
}

/// Interpolates the gradient factor between `gf_low` at the surface
/// pressure and `gf_high` at the pressure of the first stop.
pub fn interpolate_gf(
    gf_low: u64,
    gf_high: u64,
    ambient_pressure: u64,
    surface_pressure: u64,
    first_stop_pressure: u64,
) -> (gf: u64)
    requires
        gf_low <= UNIT,
        gf_high <= UNIT,
    ensures
        gf == interpolated_gf(
            gf_low as int,
            gf_high as int,
            ambient_pressure as int,
            surface_pressure as int,
            first_stop_pressure as int,
        ),
        gf <= UNIT,
{
    proof {
        lemma_interpolated_between(
            gf_low as int,
            gf_high as int,
            ambient_pressure as int,
            surface_pressure as int,
            first_stop_pressure as int,
        );
    }
    let deeper: bool = first_stop_pressure >= surface_pressure;
    let span: u64 = if deeper {
        first_stop_pressure - surface_pressure
    } else {
        surface_pressure - first_stop_pressure
    };
    if span < FLAT_SPAN {
        return gf_high;
    }
    if deeper && ambient_pressure <= surface_pressure {
        return gf_low;
    }
    if !deeper && ambient_pressure >= surface_pressure {
        return gf_low;
    }
    let rise: u64 = if deeper {
        ambient_pressure - surface_pressure
    } else {
        surface_pressure - ambient_pressure
    };
    if rise >= span {
        return gf_high;
    }
    proof {
        assert(gf_low * (span - rise) <= 1_000_000_000 * 0xffff_ffff_ffff_ffff) by (nonlinear_arith)
            requires
                gf_low <= 1_000_000_000,
                0 <= span - rise <= 0xffff_ffff_ffff_ffff,
        ;
        assert(gf_high * rise <= 1_000_000_000 * 0xffff_ffff_ffff_ffff) by (nonlinear_arith)
            requires
                gf_high <= 1_000_000_000,
                0 <= rise <= 0xffff_ffff_ffff_ffff,
        ;
    }
    let sum: u128 = (gf_low as u128) * ((span - rise) as u128) + (gf_high as u128) * (rise as u128);
    (sum / (span as u128)) as u64
}

/// The deepest pressure that any of the first `count` tissues tolerates
/// without a gradient factor, and at least the surface pressure. The
/// tissue at position `i` is taken as compartment `i`.
pub open spec fn first_stop_of(tissues: Seq<Tissue>, surface: int, count: int) -> int
    decreases count,
{
    if count <= 0 {
        surface
    } else {
        let before = first_stop_of(tissues, surface, count - 1);
        let here = tolerated_pressure(UNIT as int, tissues[count - 1], count - 1);
        if here > before {
            here
        } else {
            before
        }
    }
}

/// The first stop is no shallower than the surface and no deeper than the
/// highest sum of loads among the tissues.
pub proof fn lemma_first_stop_range(tissues: Seq<Tissue>, surface: int, count: int)
    requires
        0 <= count <= tissues.len(),
        count <= 16,
    ensures
        surface <= first_stop_of(tissues, surface, count),
        first_stop_of(tissues, surface, count) == surface || exists|i: int|
            0 <= i < count && first_stop_of(tissues, surface, count) == #[trigger] tolerated_pressure(
                UNIT as int,
                tissues[i],
                i,
            ),
        forall|i: int|
            0 <= i < count ==> #[trigger] tolerated_pressure(UNIT as int, tissues[i], i) <= first_stop_of(
                tissues,
                surface,
                count,
            ),
    decreases count,
{
    if count > 0 {
        lemma_first_stop_range(tissues, surface, count - 1);
        let before = first_stop_of(tissues, surface, count - 1);
        let here = tolerated_pressure(UNIT as int, tissues[count - 1], count - 1);
        if here <= before && before != surface {
            let i = choose|i: int|
                0 <= i < count - 1 && before == #[trigger] tolerated_pressure(UNIT as int, tissues[i], i);
            assert(0 <= i < count);
        }
    }
}

/// Computes the deepest ceiling pressure, without a gradient factor, over
/// a profile of tissues; the tissue at position `i` is taken as
/// compartment `i`.
pub fn first_stop_pressure(tissues: &[Tissue], surface_pressure: u64) -> (pressure: u64)
    requires
        tissues@.len() <= COMPARTMENTS,
        forall|i: int| 0 <= i < tissues@.len() ==> (#[trigger] tissues@[i]).wf(),
    ensures
        pressure == first_stop_of(tissues@, surface_pressure as int, tissues@.len() as int),
        pressure >= surface_pressure,
{
    let mut deepest: u64 = surface_pressure;
    let mut i: usize = 0;
    while i < tissues.len()
        invariant
            0 <= i <= tissues@.len() <= COMPARTMENTS,
            forall|k: int| 0 <= k < tissues@.len() ==> (#[trigger] tissues@[k]).wf(),
            deepest == first_stop_of(tissues@, surface_pressure as int, i as int),
            deepest >= surface_pressure,
        decreases tissues@.len() - i,
    {
        let here: u64 = tolerated(UNIT, &tissues[i], i);
        if here > deepest {
            deepest = here;
        }
        i = i + 1;
    }
    deepest
}

/// The ceiling of compartment `index` in billionths of a metre: the depth
/// of the pressure that the compartment tolerates at its gradient factor,
/// zero where the tissue holds no gas. The factor is interpolated between
/// `gf_low` and `gf_high` by where the sum of the loads lies between the
/// surface pressure and the first stop of the tissue taken alone.
pub open spec fn ceiling_depth(gf_low: int, gf_high: int, tissue: Tissue, index: int, surface: int) -> int {
    if tissue.total() <= 0 {
        0
    } else {
        let gf = interpolated_gf(
            gf_low,
            gf_high,
            tissue.total(),
            surface,
            first_stop_of(seq![tissue], surface, 1),
        );
        depth_at(tolerated_pressure(gf, tissue, index), surface)
    }
}

/// The ceiling of compartment `index` in whole metres, rounded up to a
/// stop or down to the metre.
pub open spec fn ceiling_metres(
    gf_low: int,
    gf_high: int,
    tissue: Tissue,
    index: int,
    surface: int,
    round: bool,
) -> int {
    reported_metres(ceiling_depth(gf_low, gf_high, tissue, index, surface), round)
}

/// Computes the ceiling of one compartment in whole metres, under the
/// surface pressure `surface_pressure`.
pub fn ceiling_with_gf(
    gf_low: u64,
    gf_high: u64,
    tissue: &Tissue,
    tissue_index: usize,
    surface_pressure: u64,
    round: bool,
) -> (metres: u32)
    requires
        gf_low <= UNIT,
        gf_high <= UNIT,
        tissue.wf(),
        tissue_index < COMPARTMENTS,
    ensures
        metres == ceiling_metres(
            gf_low as int,
            gf_high as int,
            *tissue,
            tissue_index as int,
            surface_pressure as int,
            round,
        ),
        metres <= MAX_CEILING,
        tissue.total() == 0 ==> metres == 0,
{
    let p_total: u64 = tissue.load_n2 + tissue.load_he;
    if p_total == 0 {
        proof {
            lemma_stop_rounding(0);
        }
        return 0;
    }
    let alone: [Tissue; 1] = [*tissue];
    assert(alone@ =~= seq![*tissue]);
    let first_stop: u64 = first_stop_pressure(alone.as_slice(), surface_pressure);
    let gf: u64 = interpolate_gf(gf_low, gf_high, p_total, surface_pressure, first_stop);
    let pressure: u64 = tolerated(gf, tissue, tissue_index);
    report_metres(depth_of(pressure, surface_pressure), round)
}

/// Computes the ceiling of one compartment under a surface pressure of one
/// bar.
pub fn ceiling(dive_parameters: DiveParameters, tissue: Tissue, tissue_index: usize, round: bool) -> (metres: u32)
    requires
        dive_parameters.wf(),
        tissue.wf(),
        tissue_index < COMPARTMENTS,
    ensures
        metres == ceiling_metres(
            dive_parameters.gf_low as int,
            dive_parameters.gf_high as int,
            tissue,
            tissue_index as int,
            UNIT as int,
            round,
        ),
        metres <= MAX_CEILING,
        tissue.total() == 0 ==> metres == 0,
{
    ceiling_with_gf(dive_parameters.gf_low, dive_parameters.gf_high, &tissue, tissue_index, UNIT, round)
}

/// The deepest rounded ceiling among the first `count` compartments.
pub open spec fn deepest_ceiling(gf_low: int, gf_high: int, tissues: Seq<Tissue>, count: int) -> int
    decreases count,
{
    if count <= 0 {
        0
    } else {
        let before = deepest_ceiling(gf_low, gf_high, tissues, count - 1);
        let here = ceiling_metres(gf_low, gf_high, tissues[count - 1], count - 1, UNIT as int, true);
        if here > before {
            here
        } else {
            before
        }
    }
}

/// The compartment that sets the deepest ceiling among the first `count`:
/// the first one to reach it, or compartment 0 where no ceiling is above
/// zero.
pub open spec fn controlling_compartment(gf_low: int, gf_high: int, tissues: Seq<Tissue>, count: int) -> int
    decreases count,
{
    if count <= 0 {
        0
    } else if ceiling_metres(gf_low, gf_high, tissues[count - 1], count - 1, UNIT as int, true)
        > deepest_ceiling(gf_low, gf_high, tissues, count - 1) {
        count - 1
    } else {
        controlling_compartment(gf_low, gf_high, tissues, count - 1)
    }
}

/// The deepest ceiling is no shallower than the ceiling of any
/// compartment, and where it is above zero the controlling compartment is
/// the first that has it: a tie goes to the lowest index.
pub proof fn lemma_controlling_is_first_deepest(gf_low: int, gf_high: int, tissues: Seq<Tissue>, count: int)
    requires
        0 <= count,
    ensures
        ({
            let deepest = deepest_ceiling(gf_low, gf_high, tissues, count);
            let first = controlling_compartment(gf_low, gf_high, tissues, count);
            &&& 0 <= deepest
            &&& forall|i: int|
                0 <= i < count ==> #[trigger] ceiling_metres(gf_low, gf_high, tissues[i], i, UNIT as int, true)
                    <= deepest
            &&& deepest == 0 ==> first == 0
            &&& deepest > 0 ==> {
                &&& 0 <= first < count
                &&& ceiling_metres(gf_low, gf_high, tissues[first], first, UNIT as int, true) == deepest
                &&& forall|i: int|
                    0 <= i < first ==> #[trigger] ceiling_metres(
                        gf_low,
                        gf_high,
                        tissues[i],
                        i,
                        UNIT as int,
                        true,
                    ) < deepest
            }
        }),
    decreases count,
{
    if count > 0 {
        lemma_controlling_is_first_deepest(gf_low, gf_high, tissues, count - 1);
    }
}

/// Computes the deepest rounded ceiling of all compartments and the
/// compartment that sets it.
pub fn max_ceiling_with_gf(gf_low: u64, gf_high: u64, tissues: &[Tissue; 16]) -> (deepest: (u32, usize))
    requires
        gf_low <= UNIT,
        gf_high <= UNIT,
        forall|i: int| 0 <= i < 16 ==> (#[trigger] tissues@[i]).wf(),
    ensures
        deepest.0 == deepest_ceiling(gf_low as int, gf_high as int, tissues@, 16),
        deepest.1 == controlling_compartment(gf_low as int, gf_high as int, tissues@, 16),
        deepest.0 <= MAX_CEILING,
        deepest.1 < 16,
{
    let mut max_ceiling: u32 = 0;
    let mut tissue_index: usize = 0;
    let mut i: usize = 0;
    while i < 16
        invariant
            0 <= i <= 16,
            gf_low <= UNIT,
            gf_high <= UNIT,
            forall|k: int| 0 <= k < 16 ==> (#[trigger] tissues@[k]).wf(),
            max_ceiling == deepest_ceiling(gf_low as int, gf_high as int, tissues@, i as int),
            tissue_index == controlling_compartment(gf_low as int, gf_high as int, tissues@, i as int),
            max_ceiling <= MAX_CEILING,
            tissue_index < 16,
        decreases 16 - i,
    {
        let tentative: u32 = ceiling_with_gf(gf_low, gf_high, &tissues[i], i, UNIT, true);
        if tentative > max_ceiling {
            max_ceiling = tentative;
            tissue_index = i;
        }
        i = i + 1;
    }
    (max_ceiling, tissue_index)
}

/// Computes the deepest rounded ceiling of all compartments with the
/// gradient factors of `dive_parameters`.
pub fn max_ceiling(dive_parameters: DiveParameters, tissues: &[Tissue; 16]) -> (deepest: (u32, usize))
    requires
        dive_parameters.wf(),
        forall|i: int| 0 <= i < 16 ==> (#[trigger] tissues@[i]).wf(),
    ensures
        deepest.0 == deepest_ceiling(
            dive_parameters.gf_low as int,
            dive_parameters.gf_high as int,
            tissues@,
            16,
        ),
        deepest.1 == controlling_compartment(
            dive_parameters.gf_low as int,
            dive_parameters.gf_high as int,
            tissues@,
            16,
        ),
        deepest.0 <= MAX_CEILING,
        deepest.1 < 16,
{
    max_ceiling_with_gf(dive_parameters.gf_low, dive_parameters.gf_high, tissues)
}

/// A tissue without gas has no ceiling, whatever the gradient factors, the
/// compartment and the rounding.
pub proof fn lemma_no_load_no_ceiling(gf_low: int, gf_high: int, index: int, surface: int, round: bool)
    ensures
        ceiling_metres(gf_low, gf_high, (Tissue { load_n2: 0, load_he: 0 }), index, surface, round) == 0,
{
    lemma_stop_rounding(0);
}

/// A higher gradient factor never raises the pressure that a compartment
/// tolerates.
pub proof fn lemma_tolerated_falls_with_gf(gf_a: int, gf_b: int, tissue: Tissue, index: int)
    requires
        0 <= gf_a <= gf_b <= UNIT,
        0 <= index < 16,
    ensures
        tolerated_pressure(gf_b, tissue, index) <= tolerated_pressure(gf_a, tissue, index),
{
    let p = tissue.total();
    lemma_tolerated_range(gf_a, tissue, index);
    lemma_tolerated_range(gf_b, tissue, index);
    if p > 0 {
        let a = weighted_a(tissue, index);
        let b = weighted_b(tissue, index);
        let full = COEFF_UNIT * p;
        let excess_a = gf_a * a / p;
        let excess_b = gf_b * a / p;
        let divisor_a = gf_a * (full - b) + UNIT * b;
        let divisor_b = gf_b * (full - b) + UNIT * b;
        lemma_weighted_range(tissue, index);
        assert(gf_a * a <= gf_b * a) by (nonlinear_arith)
            requires
                gf_a <= gf_b,
                0 <= a,
        ;
        vstd::arithmetic::div_mod::lemma_div_is_ordered(gf_a * a, gf_b * a, p);
        if excess_b < full {
            let head_a = full - excess_a;
            let head_b = full - excess_b;
            assert(divisor_a <= divisor_b) by (nonlinear_arith)
                requires
                    gf_a <= gf_b,
                    0 <= full - b,
                    divisor_a == gf_a * (full - b) + UNIT * b,
                    divisor_b == gf_b * (full - b) + UNIT * b,
            ;
            assert(0 <= head_b * b * COEFF_STEP <= head_a * b * COEFF_STEP) by (nonlinear_arith)
                requires
                    0 < head_b <= head_a,
                    0 < b,
                    COEFF_STEP > 0,
            ;
            vstd::arithmetic::div_mod::lemma_div_is_ordered(
                head_b * b * COEFF_STEP,
                head_a * b * COEFF_STEP,
                divisor_b,
            );
            vstd::arithmetic::div_mod::lemma_div_is_ordered_by_denominator(
                head_a * b * COEFF_STEP,
                divisor_a,
                divisor_b,
            );
        }
    }
}

/// A deeper depth is never reported as a shallower one.
pub proof fn lemma_reported_is_ordered(shallow: int, deep: int, round: bool)
    requires
        0 <= shallow <= deep,
    ensures
        reported_metres(shallow, round) <= reported_metres(deep, round),
{
    vstd::arithmetic::div_mod::lemma_div_is_ordered(shallow, deep, UNIT as int);
    vstd::arithmetic::div_mod::lemma_div_is_ordered(
        shallow + STOP_INTERVAL - 1,
        deep + STOP_INTERVAL - 1,
        STOP_INTERVAL as int,
    );
}

/// Rounding to a stop gives a multiple of three metres that is no
/// shallower than the depth itself and less than three metres deeper; the
/// depth rounded down to the metre is no deeper than the stop, and at most
/// three metres shallower.
pub proof fn lemma_stop_rounding(depth: int)
    requires
        0 <= depth,
    ensures
        stop_metres(depth) % 3 == 0,
        0 <= whole_metres(depth) <= stop_metres(depth) <= whole_metres(depth) + 3,
        depth <= stop_metres(depth) * UNIT < depth + 3 * UNIT,
{
    let spacing = STOP_INTERVAL as int;
    let stops = (depth + spacing - 1) / spacing;
    vstd::arithmetic::div_mod::lemma_fundamental_div_mod(depth + spacing - 1, spacing);
    vstd::arithmetic::div_mod::lemma_mod_bound(depth + spacing - 1, spacing);
    vstd::arithmetic::div_mod::lemma_fundamental_div_mod(depth, UNIT as int);
    vstd::arithmetic::div_mod::lemma_mod_bound(depth, UNIT as int);
    vstd::arithmetic::div_mod::lemma_mod_multiples_basic(stops, 3);
    assert(spacing * stops == stops * 3 * UNIT) by (nonlinear_arith)
        requires
            spacing == 3 * UNIT,
    ;
    assert(stops * STOP_SPACING == stops * 3);
}

/// The gradient factor that the ceiling of a single compartment applies is
/// `gf_high`: the sum of the loads is never below the pressure of the
/// first stop, so the interpolation always ends at its deep end.
pub proof fn lemma_ceiling_applies_gf_high(
    gf_low: int,
    gf_high: int,
    tissue: Tissue,
    index: int,
    surface: int,
    round: bool,
)
    requires
        0 <= gf_low <= UNIT,
        0 <= gf_high <= UNIT,
    ensures
        tissue.total() > 0 ==> ceiling_depth(gf_low, gf_high, tissue, index, surface) == depth_at(
            tolerated_pressure(gf_high, tissue, index),
            surface,
        ),
        tissue.total() > 0 ==> ceiling_metres(gf_low, gf_high, tissue, index, surface, round)
            == reported_metres(depth_at(tolerated_pressure(gf_high, tissue, index), surface), round),
{
    if tissue.total() > 0 {
        let profile = seq![tissue];
        lemma_tolerated_range(UNIT as int, tissue, 0);
        assert(first_stop_of(profile, surface, 0) == surface);
        assert(profile[0] == tissue);
        let here = tolerated_pressure(UNIT as int, tissue, 0);
        assert(first_stop_of(profile, surface, 1) == if here > surface {
            here
        } else {
            surface
        });
    }
}

/// Raising the gradient factors never deepens the ceiling of a
/// compartment: for the same tissue, a ceiling under higher factors is at
/// most the ceiling under lower ones.
pub proof fn lemma_ceiling_falls_with_gf(
    gf_low_a: int,
    gf_high_a: int,
    gf_low_b: int,
    gf_high_b: int,
    tissue: Tissue,
    index: int,
    surface: int,
    round: bool,
)
    requires
        0 <= gf_low_a <= UNIT,
        0 <= gf_low_b <= UNIT,
        0 <= gf_high_a <= gf_high_b <= UNIT,
        0 <= index < 16,
    ensures
        ceiling_metres(gf_low_b, gf_high_b, tissue, index, surface, round) <= ceiling_metres(
            gf_low_a,
            gf_high_a,
            tissue,
            index,
            surface,
            round,
        ),
{
    if tissue.total() > 0 {
        lemma_ceiling_applies_gf_high(gf_low_a, gf_high_a, tissue, index, surface, round);
        lemma_ceiling_applies_gf_high(gf_low_b, gf_high_b, tissue, index, surface, round);
        lemma_tolerated_falls_with_gf(gf_high_a, gf_high_b, tissue, index);
        lemma_tolerated_range(gf_high_b, tissue, index);
        lemma_reported_is_ordered(
            depth_at(tolerated_pressure(gf_high_b, tissue, index), surface),
            depth_at(tolerated_pressure(gf_high_a, tissue, index), surface),
            round,
        );
    }
}

/// A rounded ceiling is a multiple of three metres. It is no shallower
/// than the ceiling itself and less than three metres deeper; the ceiling
/// rounded down to the metre is no deeper than the rounded one, and at
/// most three metres shallower.
pub proof fn lemma_rounded_ceiling(gf_low: int, gf_high: int, tissue: Tissue, index: int, surface: int)
    ensures
        ceiling_metres(gf_low, gf_high, tissue, index, surface, true) % 3 == 0,
        0 <= ceiling_metres(gf_low, gf_high, tissue, index, surface, false) <= ceiling_metres(
            gf_low,
            gf_high,
            tissue,
            index,
            surface,
            true,
        ) <= ceiling_metres(gf_low, gf_high, tissue, index, surface, false) + 3,
        0 <= ceiling_depth(gf_low, gf_high, tissue, index, surface) <= ceiling_metres(
            gf_low,
            gf_high,
            tissue,
            index,
            surface,
            true,
        ) * UNIT < ceiling_depth(gf_low, gf_high, tissue, index, surface) + 3 * UNIT,
{
    lemma_stop_rounding(ceiling_depth(gf_low, gf_high, tissue, index, surface));
}

/// Whether compartment `index` holds more gas than it tolerates at the
/// depth `depth`, under a surface pressure of one bar.
pub open spec fn oversaturated_at(gf: int, tissue: Tissue, index: int, depth: int) -> bool {
    depth / (METRES_PER_BAR as int) + UNIT < tolerated_pressure(gf, tissue, index)
}

/// The depth from which the bisection starts: `high`, doubled while the
/// compartment is oversaturated there, at most `rounds` times.
pub open spec fn search_bound(gf: int, tissue: Tissue, index: int, high: int, rounds: int) -> int
    decreases rounds,
{
    if rounds <= 0 || !oversaturated_at(gf, tissue, index, high) {
        high
    } else {
        search_bound(gf, tissue, index, 2 * high, rounds - 1)
    }
}

/// The upper end of the interval between `low` and `high` after it has
/// been halved, at most `rounds` times, until it is no wider than the
/// precision of the search. Each time the half is kept at whose lower end
/// the compartment is oversaturated and at whose upper end it is not.
pub open spec fn bisected(gf: int, tissue: Tissue, index: int, low: int, high: int, rounds: int) -> int
    decreases rounds,
{
    if rounds <= 0 || high - low <= PRECISION {
        high
    } else if oversaturated_at(gf, tissue, index, (low + high) / 2) {
        bisected(gf, tissue, index, (low + high) / 2, high, rounds - 1)
    } else {
        bisected(gf, tissue, index, low, (low + high) / 2, rounds - 1)
    }
}

/// The ceiling of compartment `index` in whole metres as the bisection
/// finds it: zero where the compartment is not oversaturated at the
/// surface, else the upper end of the interval that the search ends with.
pub open spec fn binary_ceiling_metres(gf: int, tissue: Tissue, index: int, round: bool) -> int {
    if !oversaturated_at(gf, tissue, index, 0) {
        0
    } else {
        reported_metres(
            bisected(
                gf,
                tissue,
                index,
                0,
                search_bound(gf, tissue, index, SEARCH_START as int, MAX_ITERATIONS as int),
                MAX_ITERATIONS as int,
            ),
            round,
        )
    }
}

/// A compartment is oversaturated at exactly the depths above its
/// ceiling.
pub proof fn lemma_oversaturated_above_ceiling(gf: int, tissue: Tissue, index: int, depth: int)
    requires
        0 <= depth,
    ensures
        oversaturated_at(gf, tissue, index, depth) <==> depth < depth_at(
            tolerated_pressure(gf, tissue, index),
            UNIT as int,
        ),
{
    vstd::arithmetic::div_mod::lemma_fundamental_div_mod(depth, METRES_PER_BAR as int);
    vstd::arithmetic::div_mod::lemma_mod_bound(depth, METRES_PER_BAR as int);
}

/// Doubling reaches past every ceiling: where `high` doubled `rounds`
/// times lies at or below the ceiling's depth no more, the search ends at
/// a depth at which the compartment is not oversaturated, and which is at
/// most `high` or twice the ceiling's depth.
pub proof fn lemma_search_bound(gf: int, tissue: Tissue, index: int, high: int, rounds: nat)
    requires
        0 < high,
        depth_at(tolerated_pressure(gf, tissue, index), UNIT as int) <= high * vstd::arithmetic::power2::pow2(
            rounds,
        ),
    ensures
        !oversaturated_at(gf, tissue, index, search_bound(gf, tissue, index, high, rounds as int)),
        high <= search_bound(gf, tissue, index, high, rounds as int),
        search_bound(gf, tissue, index, high, rounds as int) <= high || search_bound(
            gf,
            tissue,
            index,
            high,
            rounds as int,
        ) < 2 * depth_at(tolerated_pressure(gf, tissue, index), UNIT as int),
    decreases rounds,
{
    lemma_oversaturated_above_ceiling(gf, tissue, index, high);
    if oversaturated_at(gf, tissue, index, high) {
        if rounds == 0 {
            vstd::arithmetic::power2::lemma2_to64();
            assert(high * 1 == high);
        } else {
            vstd::arithmetic::power2::lemma_pow2_unfold(rounds);
            assert(high * (2 * vstd::arithmetic::power2::pow2((rounds - 1) as nat)) == (2 * high)
                * vstd::arithmetic::power2::pow2((rounds - 1) as nat)) by (nonlinear_arith);
            lemma_search_bound(gf, tissue, index, 2 * high, (rounds - 1) as nat);
        }
    }
}

/// Bisection closes in on the ceiling: from an interval that holds the
/// ceiling's depth and is narrow enough for the rounds that are left, it
/// ends at a depth that is no shallower than the ceiling and less than the
/// precision of the search deeper.
pub proof fn lemma_bisected(gf: int, tissue: Tissue, index: int, low: int, high: int, rounds: nat)
    requires
        0 <= low < depth_at(tolerated_pressure(gf, tissue, index), UNIT as int) <= high,
        high - low <= PRECISION * vstd::arithmetic::power2::pow2(rounds),
    ensures
        depth_at(tolerated_pressure(gf, tissue, index), UNIT as int) <= bisected(
            gf,
            tissue,
            index,
            low,
            high,
            rounds as int,
        ) < depth_at(tolerated_pressure(gf, tissue, index), UNIT as int) + PRECISION,
        bisected(gf, tissue, index, low, high, rounds as int) <= high,
    decreases rounds,
{
    if rounds == 0 {
        vstd::arithmetic::power2::lemma2_to64();
        assert(PRECISION * 1 == PRECISION);
    } else if high - low > PRECISION {
        let mid = (low + high) / 2;
        lemma_oversaturated_above_ceiling(gf, tissue, index, mid);
        vstd::arithmetic::power2::lemma_pow2_unfold(rounds);
        let rest = vstd::arithmetic::power2::pow2((rounds - 1) as nat);
        assert(PRECISION * (2 * rest) == 2 * (PRECISION * rest)) by (nonlinear_arith);
        if oversaturated_at(gf, tissue, index, mid) {
            lemma_bisected(gf, tissue, index, mid, high, (rounds - 1) as nat);
        } else {
            lemma_bisected(gf, tissue, index, low, mid, (rounds - 1) as nat);
        }
    }
}

/// The bisection brackets the ceiling: what it reports is the depth of
/// the pressure that the compartment tolerates, or a depth less than a
/// tenth of a metre deeper. In whole metres the two differ by at most one
/// metre, and rounded to stops by at most one stop.
pub proof fn lemma_binary_ceiling_brackets(gf: int, tissue: Tissue, index: int, round: bool)
    requires
        0 <= gf <= UNIT,
        0 <= index < 16,
        tissue.wf(),
    ensures
        reported_metres(depth_at(tolerated_pressure(gf, tissue, index), UNIT as int), round)
            <= binary_ceiling_metres(gf, tissue, index, round),
        binary_ceiling_metres(gf, tissue, index, round) <= reported_metres(
            depth_at(tolerated_pressure(gf, tissue, index), UNIT as int),
            round,
        ) + (if round {
            3int
        } else {
            1int
        }),
        binary_ceiling_metres(gf, tissue, index, round) <= MAX_CEILING,
{
    let exact = depth_at(tolerated_pressure(gf, tissue, index), UNIT as int);
    lemma_tolerated_range(gf, tissue, index);
    lemma_oversaturated_above_ceiling(gf, tissue, index, 0);
    lemma_stop_rounding(exact);
    if oversaturated_at(gf, tissue, index, 0) {
        vstd::arithmetic::power2::lemma2_to64();
        vstd::arithmetic::power2::lemma_pow2_strictly_increases(8, 50);
        vstd::arithmetic::power2::lemma_pow2_strictly_increases(19, 50);
        let reach = vstd::arithmetic::power2::pow2(50);
        assert(SEARCH_START * reach >= 100_000_000_000 * 256) by (nonlinear_arith)
            requires
                reach >= 256,
                SEARCH_START == 100_000_000_000,
        ;
        lemma_search_bound(gf, tissue, index, SEARCH_START as int, 50);
        let high = search_bound(gf, tissue, index, SEARCH_START as int, 50);
        lemma_oversaturated_above_ceiling(gf, tissue, index, high);
        assert(PRECISION * reach >= 100_000_000 * 524_288) by (nonlinear_arith)
            requires
                reach >= 524_288,
                PRECISION == 100_000_000,
        ;
        lemma_bisected(gf, tissue, index, 0, high, 50);
        let found = bisected(gf, tissue, index, 0, high, 50);
        lemma_reported_is_ordered(exact, found, round);
        lemma_stop_rounding(found);
        vstd::arithmetic::div_mod::lemma_div_is_ordered(found, exact + UNIT, UNIT as int);
        vstd::arithmetic::div_mod::lemma_div_plus_one(exact, UNIT as int);
        vstd::arithmetic::div_mod::lemma_div_is_ordered(
            found + STOP_INTERVAL - 1,
            exact + STOP_INTERVAL - 1 + STOP_INTERVAL,
            STOP_INTERVAL as int,
        );
        vstd::arithmetic::div_mod::lemma_div_plus_one(
            exact + STOP_INTERVAL - 1,
            STOP_INTERVAL as int,
        );
    }
}

/// Where both gradient factors are the same, the bisection and the closed
/// formula agree: their ceilings in whole metres differ by at most one
/// metre, and rounded to stops by at most one stop, the bisection never
/// being the shallower.
pub proof fn lemma_solvers_agree(gf: int, tissue: Tissue, index: int, round: bool)
    requires
        0 <= gf <= UNIT,
        0 <= index < 16,
        tissue.wf(),
    ensures
        ceiling_metres(gf, gf, tissue, index, UNIT as int, round) <= binary_ceiling_metres(
            gf,
            tissue,
            index,
            round,
        ) <= ceiling_metres(gf, gf, tissue, index, UNIT as int, round) + (if round {
            3int
        } else {
            1int
        }),
{
    lemma_binary_ceiling_brackets(gf, tissue, index, round);
    lemma_ceiling_applies_gf_high(gf, gf, tissue, index, UNIT as int, round);
    if tissue.total() <= 0 {
        lemma_oversaturated_above_ceiling(gf, tissue, index, 0);
    }
}

/// Where both gradient factors are the same, the bisection finds a
/// ceiling exactly where the closed formula does.
pub proof fn lemma_solvers_find_the_same_ceilings(gf: int, tissue: Tissue, index: int)
    requires
        0 <= gf <= UNIT,
        0 <= index < 16,
        tissue.wf(),
    ensures
        0 <= ceiling_metres(gf, gf, tissue, index, UNIT as int, true),
        0 <= binary_ceiling_metres(gf, tissue, index, true),
        ceiling_metres(gf, gf, tissue, index, UNIT as int, true) == 0 <==> binary_ceiling_metres(
            gf,
            tissue,
            index,
            true,
        ) == 0,
{
    lemma_solvers_agree(gf, tissue, index, true);
    lemma_rounded_ceiling(gf, gf, tissue, index, UNIT as int);
    lemma_ceiling_applies_gf_high(gf, gf, tissue, index, UNIT as int, true);
    let exact = depth_at(tolerated_pressure(gf, tissue, index), UNIT as int);
    lemma_stop_rounding(exact);
    lemma_oversaturated_above_ceiling(gf, tissue, index, 0);
    if tissue.total() > 0 && ceiling_metres(gf, gf, tissue, index, UNIT as int, true) == 0 {
        assert(exact <= 0 * UNIT);
    }
}

/// Where both gradient factors are the same, the deepest ceiling of the
/// bisection is zero exactly where that of the closed formula is.
pub proof fn lemma_deepest_ceilings_vanish_together(gf: int, tissues: Seq<Tissue>, count: int)
    requires
        0 <= gf <= UNIT,
        0 <= count <= 16,
        count <= tissues.len(),
        forall|i: int| 0 <= i < count ==> (#[trigger] tissues[i]).wf(),
    ensures
        0 <= deepest_ceiling(gf, gf, tissues, count),
        0 <= deepest_binary_ceiling(gf, tissues, count),
        deepest_ceiling(gf, gf, tissues, count) == 0 <==> deepest_binary_ceiling(gf, tissues, count) == 0,
    decreases count,
{
    if count > 0 {
        lemma_deepest_ceilings_vanish_together(gf, tissues, count - 1);
        lemma_solvers_find_the_same_ceilings(gf, tissues[count - 1], count - 1);
    }
}

/// Tells whether a compartment holds more gas than it tolerates at a
/// depth, under a surface pressure of one bar.
pub fn is_oversaturated_at_depth(gradient_factor: u64, tissue: Tissue, tissue_index: usize, depth_meters: u64) -> (over: bool)
    requires
        gradient_factor <= UNIT,
        tissue.wf(),
        tissue_index < COMPARTMENTS,
    ensures
        over == oversaturated_at(gradient_factor as int, tissue, tissue_index as int, depth_meters as int),
{
    let amb_pressure: u64 = depth_meters / METRES_PER_BAR + UNIT;
    amb_pressure < tolerated(gradient_factor, &tissue, tissue_index)
}

/// Finds the ceiling of one compartment by bisection, at one gradient
/// factor.
pub fn binary_ceiling_with_gf(gradient_factor: u64, tissue: Tissue, tissue_index: usize, round: bool) -> (metres: u32)
    requires
        gradient_factor <= UNIT,
        tissue.wf(),
        tissue_index < COMPARTMENTS,
    ensures
        metres == binary_ceiling_metres(gradient_factor as int, tissue, tissue_index as int, round),
        metres <= MAX_CEILING,
        tissue.total() == 0 ==> metres == 0,
{
    proof {
        lemma_binary_ceiling_brackets(gradient_factor as int, tissue, tissue_index as int, round);
        lemma_tolerated_range(gradient_factor as int, tissue, tissue_index as int);
    }
    if !is_oversaturated_at_depth(gradient_factor, tissue, tissue_index, 0) {
        return 0;
    }
    let ghost exact: int = depth_at(
        tolerated_pressure(gradient_factor as int, tissue, tissue_index as int),
        UNIT as int,
    );
    let mut low_depth: u64 = 0;
    let mut high_depth: u64 = SEARCH_START;
    let mut iterations: u32 = 0;
    while iterations < MAX_ITERATIONS && is_oversaturated_at_depth(
        gradient_factor,
        tissue,
        tissue_index,
        high_depth,
    )
        invariant
            gradient_factor <= UNIT,
            tissue.wf(),
            tissue_index < COMPARTMENTS,
            iterations <= MAX_ITERATIONS,
            exact == depth_at(
                tolerated_pressure(gradient_factor as int, tissue, tissue_index as int),
                UNIT as int,
            ),
            exact <= MAX_DEPTH,
            high_depth <= 2 * MAX_DEPTH,
            search_bound(
                gradient_factor as int,
                tissue,
                tissue_index as int,
                high_depth as int,
                MAX_ITERATIONS - iterations,
            ) == search_bound(
                gradient_factor as int,
                tissue,
                tissue_index as int,
                SEARCH_START as int,
                MAX_ITERATIONS as int,
            ),
        decreases MAX_ITERATIONS - iterations,
    {
        proof {
            lemma_oversaturated_above_ceiling(
                gradient_factor as int,
                tissue,
                tissue_index as int,
                high_depth as int,
            );
        }
        high_depth = high_depth * 2;
        iterations = iterations + 1;
    }
    let ghost start: int = high_depth as int;
    iterations = 0;
    while iterations < MAX_ITERATIONS && high_depth - low_depth > PRECISION
        invariant
            gradient_factor <= UNIT,
            tissue.wf(),
            tissue_index < COMPARTMENTS,
            iterations <= MAX_ITERATIONS,
            low_depth <= high_depth <= 2 * MAX_DEPTH,
            bisected(
                gradient_factor as int,
                tissue,
                tissue_index as int,
                low_depth as int,
                high_depth as int,
                MAX_ITERATIONS - iterations,
            ) == bisected(
                gradient_factor as int,
                tissue,
                tissue_index as int,
                0,
                start,
                MAX_ITERATIONS as int,
            ),
        decreases MAX_ITERATIONS - iterations,
    {
        let mid_depth: u64 = (low_depth + high_depth) / 2;
        if is_oversaturated_at_depth(gradient_factor, tissue, tissue_index, mid_depth) {
            low_depth = mid_depth;
        } else {
            high_depth = mid_depth;
        }
        iterations = iterations + 1;
    }
    report_metres(high_depth, round)
}

/// Finds the ceiling of one compartment by bisection, at the low gradient
/// factor of `dive_parameters`.
pub fn binary_ceiling(dive_parameters: DiveParameters, tissue: Tissue, tissue_index: usize, round: bool) -> (metres: u32)
    requires
        dive_parameters.wf(),
        tissue.wf(),
        tissue_index < COMPARTMENTS,
    ensures
        metres == binary_ceiling_metres(dive_parameters.gf_low as int, tissue, tissue_index as int, round),
        metres <= MAX_CEILING,
        tissue.total() == 0 ==> metres == 0,
{
    binary_ceiling_with_gf(dive_parameters.gf_low, tissue, tissue_index, round)
}

/// The deepest rounded ceiling that the bisection finds among the first
/// `count` compartments.
pub open spec fn deepest_binary_ceiling(gf: int, tissues: Seq<Tissue>, count: int) -> int
    decreases count,
{
    if count <= 0 {
        0
    } else {
        let before = deepest_binary_ceiling(gf, tissues, count - 1);
        let here = binary_ceiling_metres(gf, tissues[count - 1], count - 1, true);
        if here > before {
            here
        } else {
            before
        }
    }
}

/// Finds, by bisection, the deepest rounded ceiling of all compartments at
/// one gradient factor.
pub fn max_binary_ceiling(gradient_factor: u64, tissues: &[Tissue; 16]) -> (deepest: u32)
    requires
        gradient_factor <= UNIT,
        forall|i: int| 0 <= i < 16 ==> (#[trigger] tissues@[i]).wf(),
    ensures
        deepest == deepest_binary_ceiling(gradient_factor as int, tissues@, 16),
{
    let mut deepest: u32 = 0;
    let mut i: usize = 0;
    while i < 16
        invariant
            0 <= i <= 16,
            gradient_factor <= UNIT,
            forall|k: int| 0 <= k < 16 ==> (#[trigger] tissues@[k]).wf(),
            deepest == deepest_binary_ceiling(gradient_factor as int, tissues@, i as int),
        decreases 16 - i,
    {
        let here: u32 = binary_ceiling_with_gf(gradient_factor, tissues[i], i, true);
        if here > deepest {
            deepest = here;
        }
        i = i + 1;
    }
    deepest
}


} // verus!
