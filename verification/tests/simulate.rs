use dive_computer_deco::ceiling::{max_ceiling, max_ceiling_with_gf};
use dive_computer_deco::ndl::ndl;
use dive_computer_deco::simulate::{
    advance_dive, calculate_deco_stop_depth, pressure_at_depth, record_output, simulate, simulate_with_ascent,
    DivePlan, DiveState, Phase, SimulationOutputs,
};
use dive_computer_deco::tissue::Tissue;
use dive_computer_deco::{
    calculate_deco_stops, default_tissue_load, run_no_deco_loop, water_vapor_pressure, DecoError, DiveParameters,
    FHE, FN2, UNIT,
};

/// A quantity in billionths of its unit.
fn fixed(value: f64) -> u64 {
    (value * 1e9).round() as u64
}

/// A temperature in billionths of a degree.
fn degrees(value: f64) -> i64 {
    (value * 1e9).round() as i64
}

/// The product of two quantities in billionths.
fn times(a: u64, b: u64) -> u64 {
    ((a as u128) * (b as u128) / (UNIT as u128)) as u64
}

fn surface_tissues() -> [Tissue; 16] {
    let mut tissues = [Tissue::default(); 16];
    let temperature = degrees(20.0);
    let amb_pressure = fixed(1.0);
    for i in 0..tissues.len() {
        tissues[i].load_n2 = times(amb_pressure - water_vapor_pressure(temperature), FN2);
        tissues[i].load_he = times(amb_pressure - water_vapor_pressure(temperature), FHE);
    }
    tissues
}

#[test]
fn test_deco_stops() {
    let mut tissues = surface_tissues();
    let temperature = degrees(20.0);
    let amb_pressure = fixed(1.0);

    let simulation = simulate(&mut DiveParameters::default(), &mut tissues, fixed(1.0), fixed(50.0), temperature, fixed(1.0), fixed(20.0 * 60.0));
    println!("{:?}", simulation.depths.len());

    let result = calculate_deco_stops(DiveParameters::default(), &mut tissues, amb_pressure, temperature);
    assert_eq!(result, Ok(()));
}

#[test]
fn surface_load_is_dry_air_at_one_bar() {
    // (1 - 0.0627) * 0.79 = 0.740467
    assert_eq!(water_vapor_pressure(degrees(37.0)), 62_700_000);
    assert_eq!(water_vapor_pressure(degrees(-5.0)), 62_700_000);
    assert_eq!(default_tissue_load(degrees(20.0)), 740_467_000);
    assert_eq!(surface_tissues()[3].load_n2, 740_467_000);
}

#[test]
fn parameters_are_built_as_documented() {
    let params = DiveParameters::new(fixed(0.85), fixed(0.3));
    assert_eq!(params.gf_high, 850_000_000);
    assert_eq!(params.gf_low, 300_000_000);
    assert_eq!(params.descent_speed, 333_333_333);
    assert_eq!(params.ascent_speed, 166_666_700);
    assert_eq!(params.safety_stop_ascent_speed, 83_000_000);
    assert_eq!(params.safety_stop_duration, 3_000_000_000);
    assert_eq!(params.safety_stop_depth, 5_000_000_000);
    assert_eq!(params.sac_rate, 20_000_000_000);
    let params = DiveParameters::default();
    assert_eq!(params.gf_high, UNIT);
    assert_eq!(params.gf_low, UNIT);
    assert_eq!(params.descent_speed, 330_000_000);
    assert_eq!(params.ascent_speed, 170_000_000);
}

#[test]
fn dive_with_conservative_factors_ends_at_the_surface_without_ceiling() {
    let mut tissues = surface_tissues();
    let mut params = DiveParameters::new(fixed(0.85), fixed(0.3));
    let outputs = simulate_with_ascent(
        &mut params,
        &mut tissues,
        fixed(1.0),
        fixed(50.0),
        degrees(20.0),
        fixed(1.0),
        fixed(20.0 * 60.0),
        true,
    );
    // Far from the fifty million steps at which a run is cut off.
    assert!(outputs.depths.len() < 20_000);
    assert_eq!(outputs.depths.len(), outputs.pressures.len());
    assert_eq!(outputs.depths.len(), outputs.tissues_per_interval.len());
    assert_eq!(*outputs.depths.last().unwrap(), 0);
    assert_eq!(*outputs.pressures.last().unwrap(), fixed(1.0));
    assert_eq!(*outputs.tissues_per_interval.last().unwrap(), tissues);
    assert_eq!(max_ceiling(params, &tissues).0, 0);
    assert_eq!(params, DiveParameters::new(fixed(0.85), fixed(0.3)));
}

#[test]
fn limit_at_sixty_metres() {
    let params = DiveParameters::new(fixed(1.0), fixed(1.0));
    // Straight from equilibrium at the surface four whole minutes can be
    // spent at 60 m.
    let mut tissues = surface_tissues();
    assert_eq!(ndl(params, &mut tissues, fixed(7.0), degrees(20.0)), Ok(4));
    // After a descent to 60 m and the ascent from it the tissues carry
    // gas already, and two minutes are left.
    let mut tissues = surface_tissues();
    simulate(&mut DiveParameters::new(fixed(1.0), fixed(1.0)), &mut tissues, fixed(1.0), fixed(60.0), degrees(20.0), fixed(1.0), fixed(0.0));
    let after = ndl(params, &mut tissues, fixed(7.0), degrees(20.0));
    assert_eq!(after, Ok(2));
    // Tissues that hold a bar of each gas leave none.
    let mut tissues = [Tissue::default(); 16];
    assert_eq!(ndl(params, &mut tissues, fixed(7.0), degrees(20.0)), Ok(0));
}

#[test]
fn descent_reaches_the_target_and_stays() {
    let mut tissues = surface_tissues();
    let mut params = DiveParameters::new(fixed(1.0), fixed(1.0));
    let outputs = simulate_with_ascent(
        &mut params,
        &mut tissues,
        fixed(1.0),
        fixed(40.0),
        degrees(20.0),
        fixed(1.0),
        fixed(600.0),
        false,
    );
    // A third of a metre a second: 120 whole seconds and a rest of the
    // way, then 600 seconds at the bottom, one sample a second.
    let samples = outputs.depths.len();
    assert!(samples == 720 || samples == 721, "{}", samples);
    assert_eq!(outputs.depths[0], 333_333_333);
    assert_eq!(outputs.pressures[0], fixed(1.0) + 33_333_333);
    assert_eq!(outputs.depths[1], 666_666_666);
    assert_eq!(outputs.depths[119], 39_999_999_960);
    assert_eq!(*outputs.depths.last().unwrap(), fixed(40.0));
    assert_eq!(*outputs.pressures.last().unwrap(), fixed(5.0));
    for i in 1..samples {
        assert!(outputs.depths[i] >= outputs.depths[i - 1]);
        assert!(outputs.depths[i] <= fixed(40.0));
    }
    assert_eq!(*outputs.tissues_per_interval.last().unwrap(), tissues);
    assert!(tissues[0].load_n2 > fixed(3.0));
}

#[test]
fn recording_interval_spaces_the_samples() {
    let mut tissues = surface_tissues();
    let mut params = DiveParameters::new(fixed(1.0), fixed(1.0));
    let every_second = simulate_with_ascent(&mut params, &mut tissues, fixed(1.0), fixed(30.0), degrees(20.0), fixed(1.0), fixed(300.0), false);
    let mut tissues = surface_tissues();
    let every_ten = simulate_with_ascent(&mut params, &mut tissues, fixed(1.0), fixed(30.0), degrees(20.0), fixed(10.0), fixed(300.0), false);
    let mut tissues = surface_tissues();
    let never = simulate_with_ascent(&mut params, &mut tissues, fixed(1.0), fixed(30.0), degrees(20.0), fixed(100_000.0), fixed(300.0), false);
    // 90 seconds of descent (the last of them a few nanoseconds short) and
    // 300 at the bottom.
    assert_eq!(every_second.depths.len(), 390);
    assert_eq!(every_ten.depths.len(), 39);
    assert_eq!(never.depths.len(), 0);
    assert_eq!(every_ten.depths[0], 3_333_333_330);
}

#[test]
fn ascent_holds_stops_at_multiples_of_three_metres() {
    let mut tissues = surface_tissues();
    let mut params = DiveParameters::new(fixed(1.0), fixed(1.0));
    let outputs = simulate(&mut params, &mut tissues, fixed(1.0), fixed(50.0), degrees(20.0), fixed(1.0), fixed(20.0 * 60.0));
    let bottom = outputs.depths.iter().position(|&d| d == fixed(50.0)).unwrap();
    let leave = outputs.depths.iter().rposition(|&d| d == fixed(50.0)).unwrap();
    assert!(leave - bottom >= 1199);
    // After the bottom the diver never goes deeper again.
    for i in leave + 1..outputs.depths.len() {
        assert!(outputs.depths[i] <= outputs.depths[i - 1]);
    }
    // The stop at 12 m clears within its first minute; its time goes
    // into the stop at 9 m.
    let short = outputs.depths.iter().filter(|&&d| d == fixed(12.0)).count();
    assert!(short > 0 && short < 60, "12 m held for {} s", short);
    // The stops at 9, 6 and 3 m are each held a minute at least.
    for stop in [9.0, 6.0, 3.0] {
        let held = outputs.depths.iter().filter(|&&d| d == fixed(stop)).count();
        assert!(held >= 60, "{} m held for {} s", stop, held);
        assert!(held <= 1200, "{} m held for {} s", stop, held);
    }
    // The last minute is spent at the surface.
    let at_surface = outputs.depths.iter().filter(|&&d| d == 0).count();
    assert_eq!(at_surface, 60);
    assert_eq!(max_ceiling(params, &tissues).0, 0);
}

#[test]
fn shallow_dive_rises_without_a_stop() {
    let mut tissues = surface_tissues();
    let mut params = DiveParameters::new(fixed(1.0), fixed(1.0));
    let outputs = simulate(&mut params, &mut tissues, fixed(1.0), fixed(10.0), degrees(20.0), fixed(1.0), fixed(300.0));
    // 30 s down (and a rest), 300 s at the bottom, 59 s up, 60 s at the
    // surface.
    let samples = outputs.depths.len();
    assert!(samples >= 449 && samples <= 451, "{}", samples);
    let leave = outputs.depths.iter().rposition(|&d| d == fixed(10.0)).unwrap();
    assert_eq!(outputs.depths[leave + 1], fixed(10.0) - 166_666_700);
    assert_eq!(outputs.depths[leave + 2], fixed(10.0) - 2 * 166_666_700);
    assert_eq!(*outputs.depths.last().unwrap(), 0);
    assert_eq!(outputs.depths.iter().filter(|&&d| d == 0).count(), 60);
}

#[test]
fn dive_to_the_surface_is_over_at_once() {
    let mut tissues = surface_tissues();
    let before = tissues;
    let mut params = DiveParameters::new(fixed(1.0), fixed(1.0));
    let outputs = simulate(&mut params, &mut tissues, fixed(1.0), 0, degrees(20.0), fixed(1.0), 0);
    assert_eq!(outputs.depths.len(), 0);
    assert_eq!(tissues, before);
}

#[test]
fn diver_without_speed_is_cut_off() {
    // Nobody gets down at no speed: the run goes through all its steps
    // at the surface. A long interval keeps the record empty.
    let mut tissues = surface_tissues();
    let mut params = DiveParameters::new(fixed(1.0), fixed(1.0));
    params.descent_speed = 0;
    let mut plan_steps = 0u32;
    let plan = DivePlan {
        params,
        surface_pressure: fixed(1.0),
        target_depth: fixed(10.0),
        temperature: degrees(20.0),
        interval: fixed(10.0),
        include_ascent: true,
    };
    let mut state = DiveState::begin(&plan, 0);
    let mut outputs = SimulationOutputs::new();
    while plan_steps < 100 && state.phase != Phase::Surfaced {
        advance_dive(&plan, &mut state, &mut tissues, &mut outputs);
        plan_steps += 1;
    }
    assert_eq!(plan_steps, 100);
    assert_eq!(state.phase, Phase::Descending);
    assert_eq!(state.depth, 0);
    assert_eq!(state.dive_time, fixed(100.0));
    assert_eq!(outputs.depths.len(), 10);
}

#[test]
fn steps_walk_through_the_phases() {
    let plan = DivePlan {
        params: DiveParameters::new(fixed(1.0), fixed(1.0)),
        surface_pressure: fixed(1.0),
        target_depth: fixed(40.0),
        temperature: degrees(20.0),
        interval: fixed(1.0),
        include_ascent: true,
    };
    let mut tissues = surface_tissues();
    let mut state = DiveState::begin(&plan, fixed(25.0 * 60.0));
    let mut outputs = SimulationOutputs::new();
    let mut seen = vec![state.phase];
    let mut steps = 0;
    while state.phase != Phase::Surfaced {
        let before = state;
        advance_dive(&plan, &mut state, &mut tissues, &mut outputs);
        steps += 1;
        assert!(steps < 100_000);
        assert!(state.depth <= plan.target_depth);
        assert!(state.stop_time < fixed(1200.0));
        assert!(state.dive_time >= before.dive_time);
        if state.phase != before.phase {
            let allowed = match (before.phase, state.phase) {
                (Phase::Descending, Phase::Bottom) => true,
                (Phase::Bottom, Phase::AscendingFree) => true,
                (Phase::AscendingFree, Phase::AscendingAtDecoStop) => true,
                (Phase::AscendingAtDecoStop, Phase::AscendingFree) => true,
                (Phase::AscendingFree, Phase::Surfaced) => true,
                _ => false,
            };
            assert!(allowed, "{:?} -> {:?}", before.phase, state.phase);
            seen.push(state.phase);
        }
        if state.phase == Phase::AscendingAtDecoStop {
            assert_eq!(state.stop_depth % fixed(3.0), 0);
            assert!(state.stop_depth >= fixed(3.0));
            assert_eq!(state.carried_stop_time, 0);
        }
    }
    assert_eq!(seen[0], Phase::Descending);
    assert_eq!(seen[1], Phase::Bottom);
    assert_eq!(seen[2], Phase::AscendingFree);
    assert_eq!(seen[3], Phase::AscendingAtDecoStop);
    assert_eq!(*seen.last().unwrap(), Phase::Surfaced);
    assert_eq!(state.first_stop_depth, Some(max_ceiling_first(&plan)));
    // A step of a run that is over changes nothing.
    let (end, end_tissues, samples) = (state, tissues, outputs.depths.len());
    advance_dive(&plan, &mut state, &mut tissues, &mut outputs);
    assert_eq!(state.phase, Phase::Surfaced);
    assert_eq!(state.dive_time, end.dive_time);
    assert_eq!(tissues, end_tissues);
    assert_eq!(outputs.depths.len(), samples);
}

/// The ceiling without gradient factors at the end of 25 minutes at 40 m.
fn max_ceiling_first(plan: &DivePlan) -> u32 {
    let mut tissues = surface_tissues();
    let mut params = plan.params;
    simulate_with_ascent(&mut params, &mut tissues, plan.surface_pressure, plan.target_depth, plan.temperature, plan.interval, fixed(25.0 * 60.0), false);
    max_ceiling_with_gf(UNIT, UNIT, &tissues).0
}

#[test]
fn dive_begins_at_the_surface() {
    let plan = DivePlan {
        params: DiveParameters::default(),
        surface_pressure: fixed(0.9),
        target_depth: fixed(20.0),
        temperature: degrees(4.0),
        interval: fixed(5.0),
        include_ascent: false,
    };
    let state = DiveState::begin(&plan, fixed(90.0));
    assert_eq!(state.phase, Phase::Descending);
    assert_eq!(state.depth, 0);
    assert_eq!(state.amb_pressure, fixed(0.9));
    assert_eq!(state.dive_time, 0);
    assert_eq!(state.bottom_time_left, fixed(90.0));
    assert_eq!(state.first_stop_depth, None);
    assert_eq!(state.stop_time, 0);
    assert_eq!(state.carried_stop_time, 0);
    assert_eq!(state.since_record, 0);
}

#[test]
fn stop_depth_is_the_next_multiple_of_three() {
    assert_eq!(calculate_deco_stop_depth(0), 3);
    assert_eq!(calculate_deco_stop_depth(1), 3);
    assert_eq!(calculate_deco_stop_depth(3), 3);
    assert_eq!(calculate_deco_stop_depth(4), 6);
    assert_eq!(calculate_deco_stop_depth(6), 6);
    assert_eq!(calculate_deco_stop_depth(22), 24);
}

#[test]
fn pressure_rises_by_a_bar_every_ten_metres() {
    assert_eq!(pressure_at_depth(0), fixed(1.0));
    assert_eq!(pressure_at_depth(fixed(10.0)), fixed(2.0));
    assert_eq!(pressure_at_depth(fixed(45.5)), fixed(5.55));
}

#[test]
fn record_grows_by_one_sample() {
    let tissues = surface_tissues();
    let mut outputs = SimulationOutputs::new();
    assert_eq!(outputs.depths.len(), 0);
    record_output(&mut outputs, fixed(12.0), fixed(2.2), &tissues);
    record_output(&mut outputs, fixed(13.0), fixed(2.3), &tissues);
    assert_eq!(outputs.depths, vec![fixed(12.0), fixed(13.0)]);
    assert_eq!(outputs.pressures, vec![fixed(2.2), fixed(2.3)]);
    assert_eq!(outputs.tissues_per_interval, vec![tissues, tissues]);
}

#[test]
fn no_deco_loop_stops_at_the_first_oversaturated_compartment() {
    // At the surface, tissues saturated at 4 bar of air exceed the
    // M-value in compartment 4 first: 1 / 0.8126 + 0.62 = 1.85 bar
    // against a load of some 3.1 bar, while the faster compartments
    // tolerate more.
    let mut tissues = [Tissue { load_n2: fixed(2.3), load_he: 0 }; 16];
    let before = tissues;
    let mut params = DiveParameters::default();
    let result = run_no_deco_loop(&mut params, &mut tissues, fixed(1.0), degrees(20.0), fixed(1.0 / 60.0));
    assert_eq!(result, Err(DecoError::Oversaturation));
    // 1/0.5050 + 1.2599 = 3.24, 1/0.6514 + 1 = 2.535, 1/0.7222 + 0.8618 =
    // 2.246: compartment 2 is the first above its M-value.
    for i in 0..=2 {
        assert!(tissues[i].load_n2 < before[i].load_n2, "compartment {}", i);
    }
    for i in 3..16 {
        assert_eq!(tissues[i], before[i]);
    }
    // Saturated at the surface nothing is exceeded, and every compartment
    // is brought forward.
    let mut tissues = [Tissue { load_n2: fixed(1.0), load_he: 0 }; 16];
    let before = tissues;
    let result = run_no_deco_loop(&mut params, &mut tissues, fixed(1.0), degrees(20.0), fixed(1.0));
    assert_eq!(result, Ok(()));
    for i in 0..16 {
        assert!(tissues[i].load_n2 < before[i].load_n2);
    }
    assert_eq!(params, DiveParameters::default());
}

#[test]
fn deco_stops_that_never_clear_are_reported() {
    // A compartment with a half-life of 635 minutes that holds 3 bar has
    // a ceiling of some 17 m; within 10 000 seconds at 18 m it does not
    // come up to 15 m.
    let mut tissues = surface_tissues();
    tissues[15] = Tissue { load_n2: fixed(3.0), load_he: 0 };
    let before = tissues;
    let params = DiveParameters::default();
    assert_eq!(max_ceiling(params, &tissues), (18, 15));
    let result = calculate_deco_stops(params, &mut tissues, fixed(1.0), degrees(20.0));
    assert_eq!(result, Err(DecoError::InvalidSolution));
    assert_eq!(tissues, before);
    // Without a ceiling there is nothing to plan.
    let mut tissues = surface_tissues();
    assert_eq!(calculate_deco_stops(params, &mut tissues, fixed(1.0), degrees(20.0)), Ok(()));
}
