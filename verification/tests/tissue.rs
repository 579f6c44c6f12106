use dive_computer_deco::tissue::{calculate_tissue, Tissue};
use dive_computer_deco::{water_vapor_pressure, FHE, FN2, UNIT};

/// A quantity in billionths of its unit.
fn fixed(value: f64) -> u64 {
    (value * 1e9).round() as u64
}

/// A temperature in billionths of a degree.
fn degrees(value: f64) -> i64 {
    (value * 1e9).round() as i64
}

/// The product of two quantities in billionths.
fn times(a: u64, b: u64) -> u64 {
    ((a as u128) * (b as u128) / (UNIT as u128)) as u64
}

/// A quantity in billionths as a floating-point number of whole units.
fn unfixed(value: u64) -> f64 {
    value as f64 / 1e9
}

#[test]
fn test_calculate_tissue_no_change() {
    let amb_pressure = fixed(3.0);
    let temperature = degrees(20.0);
    let time_since_last_check = fixed(0.0); // no time has passed

    let tissue = Tissue {
        load_n2: times(amb_pressure, FN2),
        load_he: times(amb_pressure, FHE),
    };
    let result = calculate_tissue(tissue, 0, amb_pressure, temperature, time_since_last_check);

    assert_eq!(result.load_n2, tissue.load_n2);
    assert_eq!(result.load_he, tissue.load_he);
}

#[test]
fn test_calculate_tissue_with_time() {
    let tissue = Tissue {
        load_n2: fixed(2.0),
        load_he: fixed(1.0),
    };
    let amb_pressure = fixed(4.0);
    let temperature = degrees(20.0);
    let time_since_last_check = fixed(1.0); // 1 minute has passed

    let result = calculate_tissue(tissue, 0, amb_pressure, temperature, time_since_last_check);

    assert!(result.load_n2 > tissue.load_n2);
}

#[test]
fn test_calculate_tissue_with_zero_ambient_pressure() {
    let tissue = Tissue {
        load_n2: fixed(2.0),
        load_he: fixed(1.0),
    };
    let amb_pressure = fixed(0.1); // unrealistic, but for edge case testing
    let temperature = degrees(20.0);
    let time_since_last_check = fixed(1.0);

    let result = calculate_tissue(tissue, 0, amb_pressure, temperature, time_since_last_check);

    assert!(result.load_n2 < tissue.load_n2);
}

#[test]
fn test_calculate_tissue_with_high_ambient_pressure() {
    let tissue = Tissue {
        load_n2: fixed(2.0),
        load_he: fixed(1.0),
    };
    let amb_pressure = fixed(10.0); // high ambient pressure
    let temperature = degrees(20.0);
    let time_since_last_check = fixed(1.0);

    let result = calculate_tissue(tissue, 0, amb_pressure, temperature, time_since_last_check);

    assert!(result.load_n2 > tissue.load_n2);
}

#[test]
fn test_calculate_tissues() {
    let mut tissues = [Tissue::default(); 16];
    let temperature = degrees(20.0);
    let amb_pressure = fixed(5.0);
    for i in 0..tissues.len() {
        tissues[i].load_n2 = times(amb_pressure - water_vapor_pressure(temperature), FN2);
        tissues[i].load_he = times(amb_pressure - water_vapor_pressure(temperature), FHE);
    }
    let time_since_last_check = fixed(1.0); // minutes
    let result = calculate_tissue(
        tissues[15],
        15,
        amb_pressure,
        temperature,
        time_since_last_check,
    );
    // The load is (5 - 0.0627) * 0.79 = 3.900467 bar to the last digit; in
    // single precision that is 3.9004672 up to the rounding of the last
    // place.
    assert_eq!(result.load_n2, 3_900_467_000);
    let expected: f32 = 3.9004672;
    assert!((unfixed(result.load_n2) as f32 - expected).abs() <= 4.0 * f32::EPSILON);
}

#[test]
fn test_calculate_multi_tissues() {
    let mut tissues = [Tissue::default(); 16];
    let depth = fixed(40.0);
    let amb_pressure = depth / 10 + fixed(1.0);
    let temperature = degrees(20.0);
    let bottom_time = 2; // minutes

    for i in 0..tissues.len() {
        tissues[i].load_n2 = times(fixed(1.0), FN2);
        tissues[i].load_he = times(fixed(1.0), FHE);
    }
    let time_since_last_check = fixed(1.0); // minutes
    for minutes in 1..=bottom_time {
        println!("=========== minute {} ===========", minutes);
        for i in 0..tissues.len() {
            let result = calculate_tissue(
                tissues[i],
                i,
                amb_pressure,
                temperature,
                time_since_last_check,
            );

            tissues[i] = result;
            println!("{:?}", result);
        }
    }
}

#[test]
fn zero_minutes_leave_every_compartment_unchanged() {
    let tissue = Tissue { load_n2: fixed(2.345), load_he: fixed(0.678) };
    for index in 0..16 {
        for amb_pressure in [fixed(0.0627), fixed(1.0), fixed(6.0), fixed(1000.0)] {
            let result = calculate_tissue(tissue, index, amb_pressure, degrees(20.0), 0);
            assert_eq!(result, tissue);
        }
    }
}

#[test]
fn one_half_life_halves_the_distance() {
    // Compartment 1 has a nitrogen half-life of 8 minutes. At 4 bar the
    // inspired nitrogen is (4 - 0.0627) * 0.79 = 3.110467 bar; from 1 bar
    // the load rises by half of the difference.
    let tissue = Tissue { load_n2: fixed(1.0), load_he: 0 };
    let result = calculate_tissue(tissue, 1, fixed(4.0), degrees(20.0), fixed(8.0));
    assert_eq!(result.load_n2, 3_110_467_000 - (3_110_467_000 - 1_000_000_000) / 2);
    assert_eq!(result.load_he, 0);
    // Two half-lives leave a quarter, ten leave one part in 1024.
    let result = calculate_tissue(tissue, 1, fixed(4.0), degrees(20.0), fixed(16.0));
    assert_eq!(result.load_n2, 3_110_467_000 - (3_110_467_000 - 1_000_000_000) / 4);
    let result = calculate_tissue(tissue, 1, fixed(4.0), degrees(20.0), fixed(80.0));
    assert_eq!(result.load_n2, 3_110_467_000 - (3_110_467_000 - 1_000_000_000) / 1024);
}

#[test]
fn decay_follows_the_exponential() {
    // After t minutes the distance to the inspired pressure is the old
    // one times 2^(-t / half_life).
    let inspired = 3_110_467_000.0_f64;
    let start = 1_000_000_000.0_f64;
    let half_lives = [4.0, 8.0, 12.5, 18.5, 27.0, 38.3, 54.3, 77.0, 109.0, 146.0, 187.0, 239.0, 305.0, 390.0, 498.0, 635.0];
    for (index, half_life) in half_lives.iter().enumerate() {
        for minutes in [1.0 / 60.0, 0.5, 1.0, 3.7, 20.0, 333.0] {
            let tissue = Tissue { load_n2: fixed(1.0), load_he: 0 };
            let result = calculate_tissue(tissue, index, fixed(4.0), degrees(20.0), fixed(minutes));
            let expected = inspired - (inspired - start) * (2.0_f64).powf(-minutes / half_life);
            assert!((result.load_n2 as f64 - expected).abs() < 10.0, "compartment {} after {} min: {} vs {}", index, minutes, result.load_n2, expected);
        }
    }
}

#[test]
fn helium_decays_towards_its_inspired_pressure() {
    // No helium is breathed: the helium load of compartment 0, with a
    // half-life of 1.51 minutes, halves in that time.
    let tissue = Tissue { load_n2: 0, load_he: fixed(2.0) };
    let result = calculate_tissue(tissue, 0, fixed(1.0), degrees(20.0), fixed(1.51));
    assert_eq!(result.load_he, fixed(1.0));
}

#[test]
fn repeated_steps_converge_on_the_inspired_pressure() {
    let mut tissue = Tissue { load_n2: fixed(5.0), load_he: fixed(1.0) };
    let inspired = 740_467_000_u64;
    let mut distance = tissue.load_n2 - inspired;
    for _ in 0..200 {
        tissue = calculate_tissue(tissue, 0, fixed(1.0), degrees(20.0), fixed(4.0));
        let next = tissue.load_n2 - inspired;
        assert_eq!(next, distance / 2);
        distance = next;
    }
    assert_eq!(tissue.load_n2, inspired);
    assert_eq!(tissue.load_he, 0);
}

#[test]
fn default_tissue_holds_one_bar_of_each_gas() {
    let tissue = Tissue::default();
    assert_eq!(tissue.load_n2, fixed(1.0));
    assert_eq!(tissue.load_he, fixed(1.0));
}
