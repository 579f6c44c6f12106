use dive_computer_deco::ndl::binary_ndl;
use dive_computer_deco::ndl::ndl;
use dive_computer_deco::simulate::simulate;
use dive_computer_deco::tissue::Tissue;
use dive_computer_deco::{water_vapor_pressure, DecoError, DiveParameters, FHE, FN2, UNIT};
use std::time::Instant;

/// A quantity in billionths of its unit.
fn fixed(value: f64) -> u64 {
    (value * 1e9).round() as u64
}

/// A temperature in billionths of a degree.
fn degrees(value: f64) -> i64 {
    (value * 1e9).round() as i64
}

/// The product of two quantities in billionths.
fn times(a: u64, b: u64) -> u64 {
    ((a as u128) * (b as u128) / (UNIT as u128)) as u64
}

fn reset_tissues(tissues: &mut [Tissue; 16], amb_pressure: u64, temperature: i64) {
    for i in 0..tissues.len() {
        tissues[i].load_n2 = times(amb_pressure - water_vapor_pressure(temperature), FN2);
        tissues[i].load_he = times(amb_pressure - water_vapor_pressure(temperature), FHE);
    }
}

/// The limit in minutes; a search that found none fails, as a search
/// without an end would.
fn minutes(limit: Result<u32, DecoError>) -> f32 {
    match limit {
        Ok(found) => found as f32,
        Err(_) => panic!("NDL calculation exceeded maximum iterations"),
    }
}

// Binary NDL tests
#[test]
fn test_binary_ndl_vs_regular() {
    let mut tissues_regular = [Tissue::default(); 16];
    let mut tissues_binary = [Tissue::default(); 16];
    let temperature = degrees(20.0);
    let start_amb_pressure = fixed(1.0);
    let target_depth = 30.0;

    let params = DiveParameters::new(fixed(1.0), fixed(1.0));

    // Reset both tissue arrays to same initial state
    reset_tissues(&mut tissues_regular, start_amb_pressure, temperature);
    reset_tissues(&mut tissues_binary, start_amb_pressure, temperature);

    // Simulate descent for both (this modifies tissues but consistently)
    simulate(
        &mut DiveParameters::new(fixed(1.0), fixed(1.0)),
        &mut tissues_regular,
        fixed(1.0),
        fixed(target_depth),
        temperature,
        fixed(1.0),
        fixed(0.0),
    );
    simulate(
        &mut DiveParameters::new(fixed(1.0), fixed(1.0)),
        &mut tissues_binary,
        fixed(1.0),
        fixed(target_depth),
        temperature,
        fixed(1.0),
        fixed(0.0),
    );

    let amb_pressure = fixed(target_depth / 10.0 + 1.0);

    // Calculate NDL with both methods
    let regular_ndl = minutes(ndl(params, &mut tissues_regular, amb_pressure, temperature));
    let binary_ndl = minutes(binary_ndl(params, &mut tissues_binary, amb_pressure, temperature));

    println!("Regular NDL: {}, Binary NDL: {}", regular_ndl, binary_ndl);

    // Results should be exactly the same
    let diff = if regular_ndl > binary_ndl {
        regular_ndl - binary_ndl
    } else {
        binary_ndl - regular_ndl
    };
    assert_eq!(
        diff, 0.0,
        "Binary NDL should exactly match regular NDL (diff: {}, regular: {}, binary: {})",
        diff, regular_ndl, binary_ndl
    );
}

#[test]
fn test_binary_ndl_shallow_depth() {
    let mut tissues = [Tissue::default(); 16];
    let temperature = degrees(20.0);
    let start_amb_pressure = fixed(1.0);
    let target_depth = 15.0; // Shallow depth should have long NDL

    let params = DiveParameters::new(fixed(1.0), fixed(1.0));

    reset_tissues(&mut tissues, start_amb_pressure, temperature);
    simulate(
        &mut DiveParameters::new(fixed(1.0), fixed(1.0)),
        &mut tissues,
        fixed(1.0),
        fixed(target_depth),
        temperature,
        fixed(1.0),
        fixed(0.0),
    );

    let amb_pressure = fixed(target_depth / 10.0 + 1.0);
    let result = minutes(binary_ndl(params, &mut tissues, amb_pressure, temperature));

    assert!(
        result > 50.0,
        "Binary NDL for shallow depth should be > 50 minutes, got: {}",
        result
    );
}

#[test]
fn test_binary_ndl_deep_depth() {
    let mut tissues = [Tissue::default(); 16];
    let temperature = degrees(20.0);
    let start_amb_pressure = fixed(1.0);
    let target_depth = 50.0; // Deep depth should have short NDL

    let params = DiveParameters::new(fixed(1.0), fixed(1.0));

    reset_tissues(&mut tissues, start_amb_pressure, temperature);
    simulate(
        &mut DiveParameters::new(fixed(1.0), fixed(1.0)),
        &mut tissues,
        fixed(1.0),
        fixed(target_depth),
        temperature,
        fixed(1.0),
        fixed(0.0),
    );

    let amb_pressure = fixed(target_depth / 10.0 + 1.0);
    let result = minutes(binary_ndl(params, &mut tissues, amb_pressure, temperature));

    assert!(
        result < 20.0,
        "Binary NDL for deep depth should be < 20 minutes, got: {}",
        result
    );
}

#[test]
fn test_binary_ndl_with_custom_gradient_factors() {
    let mut tissues_conservative = [Tissue::default(); 16];
    let mut tissues_aggressive = [Tissue::default(); 16];
    let temperature = degrees(20.0);
    let start_amb_pressure = fixed(1.0);
    let target_depth = 30.0;

    let conservative_params = DiveParameters::new(fixed(0.3), fixed(0.3)); // Very conservative
    let aggressive_params = DiveParameters::new(fixed(1.0), fixed(1.0)); // Less conservative

    // Test conservative gradient factors
    reset_tissues(&mut tissues_conservative, start_amb_pressure, temperature);
    simulate(
        &mut DiveParameters::new(fixed(1.0), fixed(1.0)),
        &mut tissues_conservative,
        fixed(1.0),
        fixed(target_depth),
        temperature,
        fixed(1.0),
        fixed(0.0),
    );

    // Test aggressive gradient factors
    reset_tissues(&mut tissues_aggressive, start_amb_pressure, temperature);
    simulate(
        &mut DiveParameters::new(fixed(1.0), fixed(1.0)),
        &mut tissues_aggressive,
        fixed(1.0),
        fixed(target_depth),
        temperature,
        fixed(1.0),
        fixed(0.0),
    );

    let amb_pressure = fixed(target_depth / 10.0 + 1.0);

    let conservative_ndl = minutes(binary_ndl(conservative_params, &mut tissues_conservative, amb_pressure, temperature));
    let aggressive_ndl = minutes(binary_ndl(aggressive_params, &mut tissues_aggressive, amb_pressure, temperature));

    println!("Conservative NDL (GF 30/30): {}, Aggressive NDL (GF 100/100): {}", conservative_ndl, aggressive_ndl);

    assert!(conservative_ndl <= aggressive_ndl, "Conservative gradient factors should result in shorter or equal NDL");
}

#[test]
fn test_binary_ndl_performance_comparison() {
    let temperature = degrees(20.0);
    let start_amb_pressure = fixed(1.0);
    let target_depth = 30.0;
    let params = DiveParameters::new(fixed(1.0), fixed(1.0));
    let iterations = 10;

    // Test regular NDL performance
    let start = Instant::now();
    for _ in 0..iterations {
        let mut tissues = [Tissue::default(); 16];
        reset_tissues(&mut tissues, start_amb_pressure, temperature);
        simulate(
            &mut DiveParameters::new(fixed(1.0), fixed(1.0)),
            &mut tissues,
            fixed(1.0),
            fixed(target_depth),
            temperature,
            fixed(1.0),
            fixed(0.0),
        );
        let amb_pressure = fixed(target_depth / 10.0 + 1.0);
        let _ = ndl(params, &mut tissues, amb_pressure, temperature);
    }
    let regular_duration = start.elapsed();

    // Test binary NDL performance
    let start = Instant::now();
    for _ in 0..iterations {
        let mut tissues = [Tissue::default(); 16];
        reset_tissues(&mut tissues, start_amb_pressure, temperature);
        simulate(
            &mut DiveParameters::new(fixed(1.0), fixed(1.0)),
            &mut tissues,
            fixed(1.0),
            fixed(target_depth),
            temperature,
            fixed(1.0),
            fixed(0.0),
        );
        let amb_pressure = fixed(target_depth / 10.0 + 1.0);
        let _ = binary_ndl(params, &mut tissues, amb_pressure, temperature);
    }
    let binary_duration = start.elapsed();

    println!("Regular NDL: {:?} for {} iterations", regular_duration, iterations);
    println!("Binary NDL: {:?} for {} iterations", binary_duration, iterations);

    // Verify results are similar
    let mut tissues_regular = [Tissue::default(); 16];
    let mut tissues_binary = [Tissue::default(); 16];

    reset_tissues(&mut tissues_regular, start_amb_pressure, temperature);
    reset_tissues(&mut tissues_binary, start_amb_pressure, temperature);

    simulate(&mut DiveParameters::new(fixed(1.0), fixed(1.0)), &mut tissues_regular, fixed(1.0), fixed(target_depth), temperature, fixed(1.0), fixed(0.0));
    simulate(&mut DiveParameters::new(fixed(1.0), fixed(1.0)), &mut tissues_binary, fixed(1.0), fixed(target_depth), temperature, fixed(1.0), fixed(0.0));

    let amb_pressure = fixed(target_depth / 10.0 + 1.0);
    let regular_result = minutes(ndl(params, &mut tissues_regular, amb_pressure, temperature));
    let binary_result = minutes(binary_ndl(params, &mut tissues_binary, amb_pressure, temperature));

    let diff = if regular_result > binary_result {
        regular_result - binary_result
    } else {
        binary_result - regular_result
    };

    println!("Regular result: {}, Binary result: {}, Difference: {}", regular_result, binary_result, diff);
    assert_eq!(diff, 0.0, "Results should match exactly");
}

#[test]
fn test_comprehensive_binary_ndl_comparison() {
    let test_depths = [15.0, 21.0, 27.0, 33.0, 39.0, 45.0];
    let gradient_factors = [0.3, 0.5, 0.8, 1.0];
    let temperature = degrees(20.0);
    let start_amb_pressure = fixed(1.0);

    for &depth in test_depths.iter() {
        for &gf in gradient_factors.iter() {
            let params = DiveParameters::new(fixed(gf), fixed(gf));

            let mut tissues_regular = [Tissue::default(); 16];
            let mut tissues_binary = [Tissue::default(); 16];

            reset_tissues(&mut tissues_regular, start_amb_pressure, temperature);
            reset_tissues(&mut tissues_binary, start_amb_pressure, temperature);

            simulate(&mut DiveParameters::new(fixed(1.0), fixed(1.0)), &mut tissues_regular, fixed(1.0), fixed(depth), temperature, fixed(1.0), fixed(0.0));
            simulate(&mut DiveParameters::new(fixed(1.0), fixed(1.0)), &mut tissues_binary, fixed(1.0), fixed(depth), temperature, fixed(1.0), fixed(0.0));

            let amb_pressure = fixed(depth / 10.0 + 1.0);

            let regular_ndl = minutes(ndl(params, &mut tissues_regular, amb_pressure, temperature));
            let binary_ndl = minutes(binary_ndl(params, &mut tissues_binary, amb_pressure, temperature));

            let diff = if regular_ndl > binary_ndl {
                regular_ndl - binary_ndl
            } else {
                binary_ndl - regular_ndl
            };

            println!("Depth: {}m, GF: {:.1}, Regular: {}min, Binary: {}min, Diff: {}min",
                    depth, gf, regular_ndl, binary_ndl, diff);

            assert_eq!(diff, 0.0, "NDL methods should produce exactly the same result: regular={}, binary={}, diff={}",
                   regular_ndl, binary_ndl, diff);
        }
    }
}

#[test]
fn limits_from_surface_equilibrium() {
    // Whole minutes that can be spent at a depth on air before the next
    // minute brings a ceiling, without conservatism.
    let expected = [(15.0, 89), (21.0, 40), (30.0, 16), (39.0, 9), (50.0, 5), (60.0, 4)];
    for (depth, limit) in expected {
        let mut tissues = [Tissue::default(); 16];
        reset_tissues(&mut tissues, fixed(1.0), degrees(20.0));
        let params = DiveParameters::new(fixed(1.0), fixed(1.0));
        assert_eq!(ndl(params, &mut tissues, fixed(depth / 10.0 + 1.0), degrees(20.0)), Ok(limit), "at {} m", depth);
        let mut tissues = [Tissue::default(); 16];
        reset_tissues(&mut tissues, fixed(1.0), degrees(20.0));
        assert_eq!(binary_ndl(params, &mut tissues, fixed(depth / 10.0 + 1.0), degrees(20.0)), Ok(limit), "at {} m", depth);
    }
}

#[test]
fn limit_of_loaded_tissues_is_zero() {
    // Tissues that hold a bar of each gas have a ceiling after the first
    // minute at 60 m.
    let mut tissues = [Tissue::default(); 16];
    let params = DiveParameters::new(fixed(1.0), fixed(1.0));
    assert_eq!(ndl(params, &mut tissues, fixed(7.0), degrees(20.0)), Ok(0));
}

#[test]
fn limit_leaves_the_tissues_after_the_last_minute() {
    let mut tissues = [Tissue::default(); 16];
    reset_tissues(&mut tissues, fixed(1.0), degrees(20.0));
    let mut expected = tissues;
    let params = DiveParameters::new(fixed(1.0), fixed(1.0));
    let limit = ndl(params, &mut tissues, fixed(4.0), degrees(20.0)).unwrap();
    for _ in 0..=limit {
        for i in 0..16 {
            expected[i] = dive_computer_deco::tissue::calculate_tissue(expected[i], i, fixed(4.0), degrees(20.0), fixed(1.0));
        }
    }
    assert_eq!(tissues, expected);
}

#[test]
fn no_limit_where_no_ceiling_appears() {
    // At 3 m no compartment ever reaches a ceiling.
    let mut tissues = [Tissue::default(); 16];
    reset_tissues(&mut tissues, fixed(1.0), degrees(20.0));
    let params = DiveParameters::new(fixed(1.0), fixed(1.0));
    assert_eq!(ndl(params, &mut tissues, fixed(1.3), degrees(20.0)), Err(DecoError::InvalidSolution));
    let mut tissues = [Tissue::default(); 16];
    reset_tissues(&mut tissues, fixed(1.0), degrees(20.0));
    assert_eq!(binary_ndl(params, &mut tissues, fixed(1.3), degrees(20.0)), Err(DecoError::InvalidSolution));
}
