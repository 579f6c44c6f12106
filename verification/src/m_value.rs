//! The M-value: the highest nitrogen load that a compartment tolerates at
//! a given ambient pressure.
use vstd::prelude::*;
use crate::zh16c::{coefficients, compartment, Compartment, COEFF_STEP, COEFF_UNIT, COMPARTMENTS};
use crate::MAX_PRESSURE;

verus! {

/// The nitrogen M-value of compartment `index` at `amb_pressure`:
/// `amb_pressure / b + a`, the quotient rounded down.
pub open spec fn m_value(amb_pressure: int, index: int) -> int {
    amb_pressure * COEFF_UNIT / (compartment(index).n2_b as int) + compartment(index).n2_a * COEFF_STEP
}

/// The M-value without a word of rounding: `quotient` is the rounded
/// quotient of its definition exactly when it, times `b`, is at most the
/// ambient pressure and less than one `b` short of it.
pub proof fn lemma_m_value_is_quotient(amb_pressure: int, index: int, quotient: int)
    requires
        0 <= index < 16,
        quotient * compartment(index).n2_b <= amb_pressure * COEFF_UNIT < (quotient + 1) * compartment(
            index,
        ).n2_b,
    ensures
        m_value(amb_pressure, index) == quotient + compartment(index).n2_a * COEFF_STEP,
{
    let b = compartment(index).n2_b as int;
    crate::zh16c::lemma_table_ranges(index);
    assert((quotient + 1) * b == quotient * b + b) by (nonlinear_arith);
    vstd::arithmetic::div_mod::lemma_fundamental_div_mod_converse(
        amb_pressure * COEFF_UNIT,
        b,
        quotient,
        amb_pressure * COEFF_UNIT - quotient * b,
    );
}

/// Computes the nitrogen M-value of a compartment.
pub fn calculate_m_values(amb_pressure: u64, tissue_index: usize) -> (tolerated: u64)
    requires
        amb_pressure <= MAX_PRESSURE,
        tissue_index < COMPARTMENTS,
    ensures
        tolerated == m_value(amb_pressure as int, tissue_index as int),
        tolerated >= amb_pressure,
{
    let row: Compartment = coefficients(tissue_index);
    let scaled: u64 = amb_pressure * COEFF_UNIT;
    proof {
        vstd::arithmetic::div_mod::lemma_div_is_ordered_by_denominator(
            scaled as int,
            row.n2_b as int,
            COEFF_UNIT as int,
        );
        vstd::arithmetic::div_mod::lemma_div_is_ordered_by_denominator(scaled as int, 1, row.n2_b as int);
        vstd::arithmetic::div_mod::lemma_div_multiples_vanish(amb_pressure as int, COEFF_UNIT as int);
        assert(scaled == COEFF_UNIT * amb_pressure);
        assert(row.n2_a * COEFF_STEP <= 17_424 * 100_000) by (nonlinear_arith)
            requires
                row.n2_a <= 17_424,
                COEFF_STEP == 100_000,
        ;
    }
    scaled / row.n2_b + row.n2_a * COEFF_STEP
}

} // verus!
