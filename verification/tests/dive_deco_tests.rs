use dive_computer_deco::ceiling::{binary_ceiling, ceiling};
use dive_computer_deco::tissue::{calculate_tissue, Tissue};
use dive_computer_deco::{water_vapor_pressure, DiveParameters, FHE, FN2, UNIT};
use dive_deco::{BuhlmannConfig, BuhlmannModel, DecoModel, DecoStage, DecoStageType, Depth, Gas, Time};

/// A quantity in billionths of its unit.
fn fixed(value: f64) -> u64 {
    (value * 1e9).round() as u64
}

/// A temperature in billionths of a degree.
fn degrees(value: f64) -> i64 {
    (value * 1e9).round() as i64
}

/// The product of two quantities in billionths.
fn times(a: u64, b: u64) -> u64 {
    ((a as u128) * (b as u128) / (UNIT as u128)) as u64
}

#[test]
fn test_dive_deco() {
    let config = BuhlmannConfig::new().with_gradient_factors(80, 80);
    let mut model = BuhlmannModel::default();
    model.update_config(config).unwrap();

    // bottom gas
    let air = Gas::air();
    let available_gas_mixes = vec![air];

    let bottom_depth = Depth::from_meters(50.);
    let bottom_time = Time::from_seconds(20 * 60); // 20 min

    // descent to 50m using air
    model.record_travel(bottom_depth, Time::from_seconds(2.5 * 60.), &air);

    // 20 min bottom time
    model.record(bottom_depth, bottom_time, &air);

    // calculate deco runtime providing available gasses
    let deco_runtime = model.deco(available_gas_mixes);

    println!("{:#?}", config);
    println!("{:#?}", deco_runtime);
    let mut deco_time = 0.;
    match deco_runtime {
        Ok(runtime) => {
            let mut current_time = model.dive_state().time.as_seconds();
            println!("Depth (m) | Duration (secs) | Duration (min) | Start Time (min) | End Time (min)");
            println!("----------|----------------|----------------|------------------|----------------");
            runtime.deco_stages.iter().for_each(|stage: &DecoStage| {
                if stage.stage_type == DecoStageType::DecoStop {
                    println!("   {:4.1}   |     {:6.1}     |      {:6.1}      |      {:6.1}      |      {:6.1}", stage.start_depth.as_meters(), stage.duration.as_seconds(), stage.duration.as_minutes(), current_time / 60.0, current_time / 60.0 + stage.duration.as_minutes());
                    deco_time += stage.duration.as_minutes();
                }
                current_time += stage.duration.as_seconds();
            });
        }
        Err(e) => {
            println!("Error calculating deco runtime: {:?}", e);
        }
    }

    println!("Total deco time: {:.1} minutes", deco_time);
}

#[test]
fn test_binary_ceiling_vs_regular() {
    println!("=== BINARY CEILING vs REGULAR CEILING COMPARISON ===");

    let temperature = degrees(20.0);
    let start_amb_pressure = fixed(1.0);
    let target_depth = 50.0;
    let bottom_time_minutes = 20.0;

    // Prepare tissues after bottom time
    let amb_pressure_at_depth = fixed(target_depth / 10.0 + 1.0);
    let time_step_minutes = fixed(1.0 / 60.0); // 1 second steps
    let num_steps = (bottom_time_minutes * 60.0) as i32;

    let mut tissues = [Tissue::default(); 16];
    for i in 0..16 {
        tissues[i].load_n2 = times(start_amb_pressure - water_vapor_pressure(temperature), FN2);
        tissues[i].load_he = times(start_amb_pressure - water_vapor_pressure(temperature), FHE);

        // Simulate bottom time
        for _step in 0..num_steps {
            tissues[i] = calculate_tissue(tissues[i], i, amb_pressure_at_depth, temperature, time_step_minutes);
        }
    }

    println!("\n--- Ceiling Calculation Comparison ---");
    let dive_params = DiveParameters::new(fixed(1.0), fixed(1.0)); // GF 100/100

    // Check each tissue's ceiling calculation
    for i in 0..16 {
        let regular_ceiling = ceiling(dive_params, tissues[i], i, true);
        let binary_ceiling_result = binary_ceiling(dive_params, tissues[i], i, true);

        if regular_ceiling > 0 || binary_ceiling_result > 0 {
            let diff = if regular_ceiling > binary_ceiling_result {
                regular_ceiling - binary_ceiling_result
            } else {
                binary_ceiling_result - regular_ceiling
            };

            println!("Tissue {:2}: N2={:.6} bar, Regular={:2}m, Binary={:2}m, Diff={:2}m",
                i + 1, tissues[i].load_n2 as f64 / 1e9, regular_ceiling, binary_ceiling_result, diff);
        }
    }

    // Test with different gradient factors too
    println!("\n--- Testing with GF 30/30 ---");
    let conservative_params = DiveParameters::new(fixed(0.3), fixed(0.3));

    for i in 0..16 {
        let regular_ceiling = ceiling(conservative_params, tissues[i], i, true);
        let binary_ceiling_result = binary_ceiling(conservative_params, tissues[i], i, true);

        if regular_ceiling > 0 || binary_ceiling_result > 0 {
            let diff = if regular_ceiling > binary_ceiling_result {
                regular_ceiling - binary_ceiling_result
            } else {
                binary_ceiling_result - regular_ceiling
            };

            println!("Tissue {:2}: Regular={:2}m, Binary={:2}m, Diff={:2}m",
                i + 1, regular_ceiling, binary_ceiling_result, diff);
        }
    }
}
