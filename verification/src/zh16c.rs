//! The sixteen tissue compartments of the Buhlmann ZH-L16C model.
//!
//! Every entry is an integer count of ten-thousandths: half-lives in
//! minutes, the `a` coefficients in bar, the `b` coefficients as plain
//! fractions. The published parameter set has at most four decimals, so
//! the table holds it exactly.
use vstd::prelude::*;

verus! {

/// Number of compartments of the model.
pub const COMPARTMENTS: usize = 16;

/// How many table units make one minute, one bar or the fraction one.
pub const COEFF_UNIT: u64 = 10_000;

/// How many billionths make one table unit.
pub const COEFF_STEP: u64 = 100_000;

/// Largest `a` coefficient of the table.
pub const MAX_A: u64 = 17_424;

/// Largest `b` coefficient of the table.
pub const MAX_B: u64 = 9_653;

/// Smallest `b` coefficient of the table.
pub const MIN_B: u64 = 4_245;

/// Shortest half-life of the table.
pub const MIN_HALF_LIFE: u64 = 15_100;

/// Longest half-life of the table.
pub const MAX_HALF_LIFE: u64 = 6_350_000;

/// Nitrogen half-lives.
pub const N2_HALF_LIFE: [u64; 16] = [
    40_000, 80_000, 125_000, 185_000, 270_000, 383_000, 543_000, 770_000,
    1_090_000, 1_460_000, 1_870_000, 2_390_000, 3_050_000, 3_900_000, 4_980_000, 6_350_000,
];

/// Helium half-lives.
pub const HE_HALF_LIFE: [u64; 16] = [
    15_100, 30_200, 47_200, 69_900, 102_100, 144_800, 205_300, 291_100,
    412_000, 551_900, 706_900, 903_400, 1_152_900, 1_474_200, 1_882_400, 2_400_300,
];

/// Nitrogen `a` coefficients.
pub const N2_A: [u64; 16] = [
    12_599, 10_000, 8_618, 7_562, 6_200, 5_043, 4_410, 4_000,
    3_750, 3_500, 3_295, 3_065, 2_835, 2_610, 2_480, 2_327,
];

/// Nitrogen `b` coefficients.
pub const N2_B: [u64; 16] = [
    5_050, 6_514, 7_222, 7_825, 8_126, 8_434, 8_693, 8_910,
    9_092, 9_222, 9_319, 9_403, 9_477, 9_544, 9_602, 9_653,
];

/// Helium `a` coefficients.
pub const HE_A: [u64; 16] = [
    17_424, 13_830, 11_919, 10_458, 9_220, 8_205, 7_305, 6_502,
    5_950, 5_545, 5_333, 5_189, 5_181, 5_176, 5_172, 5_119,
];

/// Helium `b` coefficients.
pub const HE_B: [u64; 16] = [
    4_245, 5_747, 6_527, 7_223, 7_582, 7_957, 8_279, 8_553,
    8_757, 8_903, 8_997, 9_073, 9_122, 9_171, 9_217, 9_267,
];

/// The constants of one compartment.
#[derive(Clone, Copy, Debug, PartialEq, Eq, Structural)]
pub struct Compartment {
    pub n2_half_life: u64,
    pub he_half_life: u64,
    pub n2_a: u64,
    pub n2_b: u64,
    pub he_a: u64,
    pub he_b: u64,
}

/// The table row of compartment `index`, as a mathematical value.
pub open spec fn compartment(index: int) -> Compartment {
    Compartment {
        n2_half_life: N2_HALF_LIFE[index],
        he_half_life: HE_HALF_LIFE[index],
        n2_a: N2_A[index],
        n2_b: N2_B[index],
        he_a: HE_A[index],
        he_b: HE_B[index],
    }
}

/// A row whose entries lie in the ranges that the whole table keeps to.
pub open spec fn in_table_range(c: Compartment) -> bool {
    &&& MIN_HALF_LIFE <= c.n2_half_life <= MAX_HALF_LIFE
    &&& MIN_HALF_LIFE <= c.he_half_life <= MAX_HALF_LIFE
    &&& 0 < c.n2_a <= MAX_A
    &&& 0 < c.he_a <= MAX_A
    &&& MIN_B <= c.n2_b <= MAX_B
    &&& MIN_B <= c.he_b <= MAX_B
}

/// Every row of the table lies in the stated ranges; in particular every
/// `b` coefficient is a proper fraction and every half-life is positive.
pub proof fn lemma_table_ranges(index: int)
    requires
        0 <= index < 16,
    ensures
        in_table_range(compartment(index)),
{
    assert(index == 0 || index == 1 || index == 2 || index == 3 || index == 4 || index == 5
        || index == 6 || index == 7 || index == 8 || index == 9 || index == 10 || index == 11
        || index == 12 || index == 13 || index == 14 || index == 15);
}

/// Looks up the constants of compartment `index`.
pub fn coefficients(index: usize) -> (c: Compartment)
    requires
        index < COMPARTMENTS,
    ensures
        c == compartment(index as int),
        in_table_range(c),
{
    proof {
        lemma_table_ranges(index as int);
    }
    Compartment {
        n2_half_life: N2_HALF_LIFE[index],
        he_half_life: HE_HALF_LIFE[index],
        n2_a: N2_A[index],
        n2_b: N2_B[index],
        he_a: HE_A[index],
        he_b: HE_B[index],
    }
}

} // verus!
