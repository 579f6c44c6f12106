//! The simulation of a dive: descent, time at the bottom, and an ascent
//! with the decompression stops that the ceilings ask for.
//!
//! A dive is run one step at a time. Each step looks at the phase of the
//! dive, moves the diver by at most one second, brings the tissues forward
//! and records a sample whenever the recording interval has passed.
use vstd::prelude::*;
use crate::ceiling::{
    deepest_ceiling, interpolate_gf, interpolated_gf, max_ceiling_with_gf, MAX_CEILING, METRES_PER_BAR,
    STOP_INTERVAL, STOP_SPACING,
};
use crate::tissue::{advance_tissues, all_after, all_wf, Tissue};
use crate::{DiveParameters, MAX_PRESSURE, UNIT, WATER_VAPOR_PRESSURE};

verus! {

/// Most steps that a simulation runs, counting the one that ends it.
pub const MAX_ITERATIONS: u32 = 50_000_000;

/// Deepest target depth that a simulation accepts: nine thousand metres.
pub const MAX_TARGET_DEPTH: u64 = 9_000_000_000_000;

/// Seconds in a minute.
pub const SECONDS_PER_MINUTE: u64 = 60;

/// Shortest time that counts as a decompression stop of its own: sixty
/// seconds. A stop that clears sooner is merged into the next one.
pub const MIN_STOP_TIME: u64 = 60_000_000_000;

/// Longest time spent at one decompression stop: twenty minutes.
pub const MAX_STOP_TIME: u64 = 1_200_000_000_000;

/// How much shallower than a stop the ceiling has to be for the stop to
/// be left: half a metre.
pub const CLEARANCE: u64 = 500_000_000;

/// Depth above which the ascent is checked against a more conservative
/// ceiling: six metres.
pub const NEAR_SURFACE: u64 = 6_000_000_000;

/// The part of the gradient factor that is applied near the surface.
pub const NEAR_SURFACE_FACTOR: u64 = 900_000_000;

/// Time spent at the surface at the end of an ascent, in whole seconds.
pub const SURFACE_SECONDS: u32 = 60;

/// Longest dive time that a step starts from.
pub const MAX_DIVE_TIME: u64 = 4_000_000_000_000_000_000;

/// Most seconds by which one step moves a clock on: the second of the
/// step and the time at the surface.
pub const MAX_STEP_TIME: u64 = 61_000_000_000;

/// The phase of a dive. `Surfaced` ends the run: the diver is back at the
/// surface, or, where no ascent was asked for, the time at the bottom is
/// over.
#[derive(Clone, Copy, Debug, PartialEq, Eq, Structural)]
pub enum Phase {
    Descending,
    Bottom,
    AscendingFree,
    AscendingAtDecoStop,
    Surfaced,
}

/// What a dive is to be: where it goes and how it is recorded.
#[derive(Clone, Copy, Debug)]
pub struct DivePlan {
    pub params: DiveParameters,
    /// Ambient pressure at the surface.
    pub surface_pressure: u64,
    pub target_depth: u64,
    pub temperature: i64,
    /// Seconds between two recorded samples.
    pub interval: u64,
    pub include_ascent: bool,
}

impl DivePlan {
    /// The parameters are valid and the pressures of the whole dive are
    /// within what the calculations accept.
    pub open spec fn wf(self) -> bool {
        &&& self.params.wf()
        &&& WATER_VAPOR_PRESSURE <= self.surface_pressure <= MAX_PRESSURE
        &&& self.target_depth <= MAX_TARGET_DEPTH
    }
}

/// Where a dive stands between two steps.
#[derive(Clone, Copy, Debug)]
pub struct DiveState {
    pub phase: Phase,
    pub depth: u64,
    pub amb_pressure: u64,
    /// Seconds since the start of the dive.
    pub dive_time: u64,
    /// Seconds still to be spent at the bottom.
    pub bottom_time_left: u64,
    /// Depth in metres of the first ceiling of the ascent, once there
    /// was one.
    pub first_stop_depth: Option<u32>,
    /// Depth of the decompression stop that is being held or was held
    /// last.
    pub stop_depth: u64,
    /// Seconds spent at the stop that is being held.
    pub stop_time: u64,
    /// Seconds spent at stops that were too short to count, to be taken
    /// into the next stop.
    pub carried_stop_time: u64,
    /// Seconds since the last sample was due.
    pub since_record: u64,
}

impl DiveState {
    /// The state of a dive that is about to begin.
    pub open spec fn start(plan: DivePlan, bottom_time: u64) -> DiveState {
        DiveState {
            phase: Phase::Descending,
            depth: 0,
            amb_pressure: plan.surface_pressure,
            dive_time: 0,
            bottom_time_left: bottom_time,
            first_stop_depth: None,
            stop_depth: 0,
            stop_time: 0,
            carried_stop_time: 0,
            since_record: 0,
        }
    }

    /// The diver is between the surface and the target depth, the clocks
    /// of the stops are within their limits, and a stop that is being held
    /// lies at a multiple of three metres, no deeper than the diver.
    pub open spec fn wf(self, plan: DivePlan) -> bool {
        &&& self.depth <= plan.target_depth
        &&& self.stop_depth <= plan.target_depth
        &&& self.stop_time < MAX_STOP_TIME
        &&& self.carried_stop_time < MIN_STOP_TIME
        &&& self.phase == Phase::AscendingAtDecoStop ==> {
            &&& self.carried_stop_time == 0
            &&& STOP_INTERVAL <= self.stop_depth <= self.depth
            &&& self.stop_depth % STOP_INTERVAL == 0
        }
        &&& match self.first_stop_depth {
            Some(metres) => 0 < metres <= MAX_CEILING,
            None => true,
        }
    }

    /// The two clocks that run through the dive have room for another
    /// step.
    pub open spec fn has_room(self) -> bool {
        self.dive_time <= MAX_DIVE_TIME && self.since_record <= MAX_DIVE_TIME
    }

    /// The state of a dive that is about to begin: at the surface, with
    /// `bottom_time` seconds to be spent at the bottom.
    pub fn begin(plan: &DivePlan, bottom_time: u64) -> (state: DiveState)
        ensures
            state == DiveState::start(*plan, bottom_time),
            state.wf(*plan),
            state.has_room(),
    {
        DiveState {
            phase: Phase::Descending,
            depth: 0,
            amb_pressure: plan.surface_pressure,
            dive_time: 0,
            bottom_time_left: bottom_time,
            first_stop_depth: None,
            stop_depth: 0,
            stop_time: 0,
            carried_stop_time: 0,
            since_record: 0,
        }
    }
}

/// One recorded moment of a dive.
pub struct Sample {
    pub depth: u64,
    pub pressure: u64,
    pub tissues: Seq<Tissue>,
}

/// The record of a simulation: depth, ambient pressure and tissues at
/// each moment at which a sample was due.
#[derive(Clone, Debug)]
pub struct SimulationOutputs {
    pub depths: Vec<u64>,
    pub pressures: Vec<u64>,
    pub tissues_per_interval: Vec<[Tissue; 16]>,
}

impl View for SimulationOutputs {
    type V = Seq<Sample>;

    /// The samples of the record, in the order in which they were taken.
    open spec fn view(&self) -> Seq<Sample> {
        Seq::new(
            self.depths@.len(),
            |i: int|
                Sample {
                    depth: self.depths@[i],
                    pressure: self.pressures@[i],
                    tissues: self.tissues_per_interval@[i]@,
                },
        )
    }
}

impl SimulationOutputs {
    /// The three series have the same length.
    pub open spec fn wf(self) -> bool {
        self.depths@.len() == self.pressures@.len() == self.tissues_per_interval@.len()
    }

    /// An empty record.
    pub fn new() -> (outputs: SimulationOutputs)
        ensures
            outputs.wf(),
            outputs@ == Seq::<Sample>::empty(),
    {
        let outputs = SimulationOutputs {
            depths: Vec::new(),
            pressures: Vec::new(),
            tissues_per_interval: Vec::new(),
        };
        assert(outputs@ =~= Seq::<Sample>::empty());
        outputs
    }
}

/// A dive in progress, as a mathematical value: its state, its tissues
/// and what has been recorded of it.
pub struct Run {
    pub state: DiveState,
    pub tissues: Seq<Tissue>,
    pub samples: Seq<Sample>,
}

/// Ambient pressure at a depth, under a surface pressure of one bar.
pub open spec fn pressure_at(depth: int) -> int {
    depth / (METRES_PER_BAR as int) + UNIT
}

/// Seconds that it takes to cover `distance` at `speed`, rounded down;
/// zero where there is no speed.
pub open spec fn travel_time(distance: int, speed: int) -> int {
    if speed > 0 {
        distance * UNIT / speed
    } else {
        0
    }
}

/// The depth of the decompression stop for a ceiling: the ceiling rounded
/// up to a multiple of three metres, and at least three metres.
pub open spec fn stop_depth_for(ceiling: int) -> int {
    let rounded = (ceiling + STOP_SPACING - 1) / (STOP_SPACING as int) * STOP_SPACING;
    if rounded < STOP_SPACING {
        STOP_SPACING as int
    } else {
        rounded
    }
}

/// The run after `step` seconds have been added to the recording clock:
/// where the interval has passed, the present moment is recorded and the
/// clock is set back by the interval.
pub open spec fn recorded(plan: DivePlan, run: Run, step: int) -> Run {
    let due = run.state.since_record + step;
    if due >= plan.interval {
        Run {
            state: DiveState { since_record: (due - plan.interval) as u64, ..run.state },
            tissues: run.tissues,
            samples: run.samples.push(
                Sample {
                    depth: run.state.depth,
                    pressure: run.state.amb_pressure,
                    tissues: run.tissues,
                },
            ),
        }
    } else {
        Run { state: DiveState { since_record: due as u64, ..run.state }, ..run }
    }
}

/// The run after the diver has spent `step` seconds reaching or holding
/// `depth` at the ambient pressure `pressure`: the tissues are brought
/// forward, the dive time runs on, and a sample is recorded where it is
/// due.
pub open spec fn ticked(plan: DivePlan, run: Run, depth: int, pressure: int, step: int) -> Run {
    recorded(
        plan,
        Run {
            state: DiveState {
                depth: depth as u64,
                amb_pressure: pressure as u64,
                dive_time: (run.state.dive_time + step) as u64,
                ..run.state
            },
            tissues: all_after(run.tissues, pressure, step / (SECONDS_PER_MINUTE as int)),
            samples: run.samples,
        },
        step,
    )
}

/// One step of the descent: a second at the descent speed, or the rest of
/// the way to the target depth where that is no further; from the target
/// depth the dive goes on at the bottom.
pub open spec fn descend_step(plan: DivePlan, run: Run) -> Run {
    let remaining = plan.target_depth - run.state.depth;
    if remaining <= plan.params.descent_speed {
        let arrived = ticked(
            plan,
            run,
            plan.target_depth as int,
            pressure_at(plan.target_depth as int),
            travel_time(remaining, plan.params.descent_speed as int),
        );
        Run { state: DiveState { phase: Phase::Bottom, ..arrived.state }, ..arrived }
    } else {
        ticked(
            plan,
            run,
            run.state.depth + plan.params.descent_speed,
            pressure_at(run.state.depth + plan.params.descent_speed),
            UNIT as int,
        )
    }
}

/// One step at the bottom: a second at the target depth, or what is left
/// of the bottom time where that is less; once none is left, the ascent
/// begins, or the run ends where no ascent was asked for.
pub open spec fn bottom_step(plan: DivePlan, run: Run) -> Run {
    if run.state.bottom_time_left == 0 {
        Run {
            state: DiveState {
                phase: if plan.include_ascent {
                    Phase::AscendingFree
                } else {
                    Phase::Surfaced
                },
                ..run.state
            },
            ..run
        }
    } else {
        let step = if run.state.bottom_time_left < UNIT {
            run.state.bottom_time_left
        } else {
            UNIT
        };
        ticked(
            plan,
            Run {
                state: DiveState {
                    bottom_time_left: (run.state.bottom_time_left - step) as u64,
                    ..run.state
                },
                ..run
            },
            plan.target_depth as int,
            pressure_at(plan.target_depth as int),
            step as int,
        )
    }
}

/// The depth of the first stop as an ascent step keeps it: once set it
/// stays; until then it is set as soon as the ceiling without gradient
/// factors is above zero.
pub open spec fn latched_first_stop(first_stop: Option<u32>, tissues: Seq<Tissue>) -> Option<u32> {
    if first_stop is None && deepest_ceiling(UNIT as int, UNIT as int, tissues, 16) > 0 {
        Some(deepest_ceiling(UNIT as int, UNIT as int, tissues, 16) as u32)
    } else {
        first_stop
    }
}

/// The gradient factor of an ascent at `depth`: `gf_low` at the first stop
/// and below, `gf_high` at the surface, interpolated in between; `gf_high`
/// as long as there is no first stop.
pub open spec fn ascent_gf(params: DiveParameters, first_stop: Option<u32>, depth: int) -> int {
    match first_stop {
        Some(metres) => interpolated_gf(params.gf_high as int, params.gf_low as int, depth, 0, metres * UNIT),
        None => params.gf_high as int,
    }
}

/// The sixty seconds at the surface that end an ascent, of which
/// `seconds` are still to come: each brings the tissues forward at the
/// surface pressure and may record a sample.
pub open spec fn surface_interval(plan: DivePlan, run: Run, seconds: int) -> Run
    decreases seconds,
{
    if seconds <= 0 {
        run
    } else {
        surface_interval(
            plan,
            ticked(plan, run, 0, plan.surface_pressure as int, UNIT as int),
            seconds - 1,
        )
    }
}

/// One step of the free ascent.
///
/// Where there is a ceiling above which the diver still is, a stop is set
/// at it, and the diver moves towards it for a second. Else the diver
/// rises by a second at the ascent speed if the ceiling allows it, and
/// waits a second where it does not; within six metres of the surface the
/// ceiling that decides this is taken at nine tenths of the gradient
/// factor. A rise that reaches the surface is followed by the time at the
/// surface, and the run ends.
pub open spec fn ascend_step(plan: DivePlan, run: Run) -> Run {
    let first_stop = latched_first_stop(run.state.first_stop_depth, run.tissues);
    let gf = ascent_gf(plan.params, first_stop, run.state.depth as int);
    let ceiling = deepest_ceiling(gf, gf, run.tissues, 16);
    let depth = run.state.depth as int;
    let speed = plan.params.ascent_speed as int;
    let latched = Run { state: DiveState { first_stop_depth: first_stop, ..run.state }, ..run };
    if ceiling > 0 && depth > ceiling * UNIT {
        let stop = stop_depth_for(ceiling) * UNIT;
        let held = Run {
            state: DiveState {
                phase: Phase::AscendingAtDecoStop,
                stop_depth: stop as u64,
                stop_time: run.state.carried_stop_time,
                carried_stop_time: 0,
                ..latched.state
            },
            ..latched
        };
        if depth - stop <= speed {
            ticked(plan, held, stop, pressure_at(stop), travel_time(depth - stop, speed))
        } else {
            ticked(plan, held, depth - speed, pressure_at(depth - speed), UNIT as int)
        }
    } else if depth > 0 {
        let safety = if depth < NEAR_SURFACE {
            deepest_ceiling(
                gf * NEAR_SURFACE_FACTOR / (UNIT as int),
                gf * NEAR_SURFACE_FACTOR / (UNIT as int),
                run.tissues,
                16,
            )
        } else {
            ceiling
        };
        if safety == 0 || depth > safety * UNIT {
            if depth <= speed {
                let landed = surface_interval(
                    plan,
                    Run {
                        state: DiveState {
                            depth: 0,
                            amb_pressure: plan.surface_pressure,
                            ..latched.state
                        },
                        ..latched
                    },
                    SURFACE_SECONDS as int,
                );
                Run { state: DiveState { phase: Phase::Surfaced, ..landed.state }, ..landed }
            } else {
                ticked(plan, latched, depth - speed, pressure_at(depth - speed), UNIT as int)
            }
        } else {
            ticked(plan, latched, depth, pressure_at(depth), UNIT as int)
        }
    } else {
        Run { state: DiveState { phase: Phase::Surfaced, ..latched.state }, ..latched }
    }
}

/// One step at a decompression stop: a second at the depth of the stop.
///
/// The stop is left once the ceiling is at least half a metre shallower
/// than the stop. If that happens within the first sixty seconds, the
/// time spent is carried into the next stop. A stop that has lasted
/// twenty minutes is left whatever the ceiling.
pub open spec fn stop_step(plan: DivePlan, run: Run) -> Run {
    let first_stop = latched_first_stop(run.state.first_stop_depth, run.tissues);
    let gf = ascent_gf(plan.params, first_stop, run.state.depth as int);
    let stop = run.state.stop_depth as int;
    let held = ticked(
        plan,
        Run { state: DiveState { first_stop_depth: first_stop, ..run.state }, ..run },
        stop,
        pressure_at(stop),
        UNIT as int,
    );
    let stop_time = run.state.stop_time + UNIT;
    let ceiling = deepest_ceiling(gf, gf, held.tissues, 16);
    let clear = ceiling == 0 || ceiling * UNIT + CLEARANCE < stop;
    if clear && stop_time >= MIN_STOP_TIME {
        Run {
            state: DiveState { phase: Phase::AscendingFree, stop_time: 0, ..held.state },
            ..held
        }
    } else if clear {
        Run {
            state: DiveState {
                phase: Phase::AscendingFree,
                stop_time: 0,
                carried_stop_time: (run.state.carried_stop_time + stop_time) as u64,
                ..held.state
            },
            ..held
        }
    } else if stop_time >= MAX_STOP_TIME {
        Run {
            state: DiveState { phase: Phase::AscendingFree, stop_time: 0, ..held.state },
            ..held
        }
    } else {
        Run { state: DiveState { stop_time: stop_time as u64, ..held.state }, ..held }
    }
}

/// One step of a dive, by its phase. A run that has ended stays as it is.
pub open spec fn dive_step(plan: DivePlan, run: Run) -> Run {
    match run.state.phase {
        Phase::Descending => descend_step(plan, run),
        Phase::Bottom => bottom_step(plan, run),
        Phase::AscendingFree => ascend_step(plan, run),
        Phase::AscendingAtDecoStop => stop_step(plan, run),
        Phase::Surfaced => run,
    }
}

/// The run after at most `steps` further steps: it stops early once the
/// dive has ended.
pub open spec fn dive_run(plan: DivePlan, run: Run, steps: int) -> Run
    decreases steps,
{
    if steps <= 0 || run.state.phase == Phase::Surfaced {
        run
    } else {
        dive_run(plan, dive_step(plan, run), steps - 1)
    }
}

/// Letting time pass keeps the phase and all that was recorded, and
/// records one sample at most.
pub proof fn lemma_ticked_keeps(plan: DivePlan, run: Run, depth: int, pressure: int, step: int)
    ensures
        ticked(plan, run, depth, pressure, step).state.phase == run.state.phase,
        run.samples.is_prefix_of(ticked(plan, run, depth, pressure, step).samples),
        ticked(plan, run, depth, pressure, step).samples.len() <= run.samples.len() + 1,
{
}

/// The time at the surface keeps the phase and all that was recorded, and
/// records one sample a second at most.
pub proof fn lemma_surface_interval_keeps(plan: DivePlan, run: Run, seconds: int)
    requires
        0 <= seconds,
    ensures
        surface_interval(plan, run, seconds).state.phase == run.state.phase,
        run.samples.is_prefix_of(surface_interval(plan, run, seconds).samples),
        surface_interval(plan, run, seconds).samples.len() <= run.samples.len() + seconds,
    decreases seconds,
{
    if seconds > 0 {
        let next = ticked(plan, run, 0, plan.surface_pressure as int, UNIT as int);
        lemma_ticked_keeps(plan, run, 0, plan.surface_pressure as int, UNIT as int);
        lemma_surface_interval_keeps(plan, next, seconds - 1);
    }
}

/// A step follows the order of the phases and only ever adds to the
/// record.
///
/// The descent leads to the bottom and the bottom to the free ascent, or
/// to the end of the run where no ascent was asked for. The free ascent
/// and the stops alternate, and only the free ascent ends at the surface.
/// A run that has ended does not change. What was recorded stays, and a
/// step adds one sample at most, sixty where it ends at the surface.
pub proof fn lemma_step_follows_phases(plan: DivePlan, run: Run)
    ensures
        ({
            let next = dive_step(plan, run);
            &&& match run.state.phase {
                Phase::Descending => next.state.phase == Phase::Descending || next.state.phase
                    == Phase::Bottom,
                Phase::Bottom => next.state.phase == Phase::Bottom || (plan.include_ascent
                    && next.state.phase == Phase::AscendingFree) || (!plan.include_ascent
                    && next.state.phase == Phase::Surfaced),
                Phase::AscendingFree => next.state.phase == Phase::AscendingFree || next.state.phase
                    == Phase::AscendingAtDecoStop || next.state.phase == Phase::Surfaced,
                Phase::AscendingAtDecoStop => next.state.phase == Phase::AscendingAtDecoStop
                    || next.state.phase == Phase::AscendingFree,
                Phase::Surfaced => next == run,
            }
            &&& run.samples.is_prefix_of(next.samples)
            &&& next.samples.len() <= run.samples.len() + SURFACE_SECONDS
            &&& next.state.phase != Phase::Surfaced ==> next.samples.len() <= run.samples.len() + 1
        }),
{
    let first_stop = latched_first_stop(run.state.first_stop_depth, run.tissues);
    let latched = Run { state: DiveState { first_stop_depth: first_stop, ..run.state }, ..run };
    match run.state.phase {
        Phase::Descending => {
            let remaining = plan.target_depth - run.state.depth;
            lemma_ticked_keeps(
                plan,
                run,
                plan.target_depth as int,
                pressure_at(plan.target_depth as int),
                travel_time(remaining, plan.params.descent_speed as int),
            );
            lemma_ticked_keeps(
                plan,
                run,
                run.state.depth + plan.params.descent_speed,
                pressure_at(run.state.depth + plan.params.descent_speed),
                UNIT as int,
            );
        },
        Phase::Bottom => {
            if run.state.bottom_time_left != 0 {
                let step = if run.state.bottom_time_left < UNIT {
                    run.state.bottom_time_left
                } else {
                    UNIT
                };
                lemma_ticked_keeps(
                    plan,
                    Run {
                        state: DiveState {
                            bottom_time_left: (run.state.bottom_time_left - step) as u64,
                            ..run.state
                        },
                        ..run
                    },
                    plan.target_depth as int,
                    pressure_at(plan.target_depth as int),
                    step as int,
                );
            }
        },
        Phase::AscendingFree => {
            let gf = ascent_gf(plan.params, first_stop, run.state.depth as int);
            let ceiling = deepest_ceiling(gf, gf, run.tissues, 16);
            let depth = run.state.depth as int;
            let speed = plan.params.ascent_speed as int;
            let stop = stop_depth_for(ceiling) * UNIT;
            let held = Run {
                state: DiveState {
                    phase: Phase::AscendingAtDecoStop,
                    stop_depth: stop as u64,
                    stop_time: run.state.carried_stop_time,
                    carried_stop_time: 0,
                    ..latched.state
                },
                ..latched
            };
            lemma_ticked_keeps(plan, held, stop, pressure_at(stop), travel_time(depth - stop, speed));
            lemma_ticked_keeps(plan, held, depth - speed, pressure_at(depth - speed), UNIT as int);
            lemma_ticked_keeps(plan, latched, depth - speed, pressure_at(depth - speed), UNIT as int);
            lemma_ticked_keeps(plan, latched, depth, pressure_at(depth), UNIT as int);
            lemma_surface_interval_keeps(
                plan,
                Run {
                    state: DiveState { depth: 0, amb_pressure: plan.surface_pressure, ..latched.state },
                    ..latched
                },
                SURFACE_SECONDS as int,
            );
        },
        Phase::AscendingAtDecoStop => {
            let stop = run.state.stop_depth as int;
            lemma_ticked_keeps(plan, latched, stop, pressure_at(stop), UNIT as int);
        },
        Phase::Surfaced => {},
    }
}

/// During the ascent the diver never goes deeper: a step of the free
/// ascent or at a stop leaves the diver where the step began or above
/// it.
pub proof fn lemma_ascent_never_descends(plan: DivePlan, run: Run)
    requires
        run.state.wf(plan),
        run.state.phase == Phase::AscendingFree || run.state.phase == Phase::AscendingAtDecoStop,
    ensures
        dive_step(plan, run).state.depth <= run.state.depth,
{
    let first_stop = latched_first_stop(run.state.first_stop_depth, run.tissues);
    let latched = Run { state: DiveState { first_stop_depth: first_stop, ..run.state }, ..run };
    let depth = run.state.depth as int;
    if run.state.phase == Phase::AscendingFree {
        let gf = ascent_gf(plan.params, first_stop, depth);
        lemma_deepest_ceiling_is_stop(gf, gf, run.tissues, 16);
        lemma_surface_interval_depth(
            plan,
            Run {
                state: DiveState { depth: 0, amb_pressure: plan.surface_pressure, ..latched.state },
                ..latched
            },
            SURFACE_SECONDS as int,
        );
    }
}

/// The time at the surface is spent at the surface.
pub proof fn lemma_surface_interval_depth(plan: DivePlan, run: Run, seconds: int)
    requires
        run.state.depth == 0,
    ensures
        surface_interval(plan, run, seconds).state.depth == 0,
    decreases seconds,
{
    if seconds > 0 {
        lemma_surface_interval_depth(
            plan,
            ticked(plan, run, 0, plan.surface_pressure as int, UNIT as int),
            seconds - 1,
        );
    }
}

/// A whole run only ever adds to the record, and once it has ended
/// further steps change nothing.
pub proof fn lemma_run_keeps_record(plan: DivePlan, run: Run, steps: int)
    ensures
        run.samples.is_prefix_of(dive_run(plan, run, steps).samples),
        run.state.phase == Phase::Surfaced ==> dive_run(plan, run, steps) == run,
    decreases steps,
{
    if steps > 0 && run.state.phase != Phase::Surfaced {
        lemma_step_follows_phases(plan, run);
        lemma_run_keeps_record(plan, dive_step(plan, run), steps - 1);
    }
}

/// The mathematical value of a dive in progress.
pub open spec fn run_of(state: DiveState, tissues: [Tissue; 16], outputs: SimulationOutputs) -> Run {
    Run { state, tissues: tissues@, samples: outputs@ }
}

/// The deepest rounded ceiling is a multiple of three metres.
pub proof fn lemma_deepest_ceiling_is_stop(gf_low: int, gf_high: int, tissues: Seq<Tissue>, count: int)
    ensures
        deepest_ceiling(gf_low, gf_high, tissues, count) % 3 == 0,
        deepest_ceiling(gf_low, gf_high, tissues, count) >= 0,
        stop_depth_for(deepest_ceiling(gf_low, gf_high, tissues, count)) == (if deepest_ceiling(
            gf_low,
            gf_high,
            tissues,
            count,
        ) == 0 {
            3
        } else {
            deepest_ceiling(gf_low, gf_high, tissues, count)
        }),
    decreases count,
{
    if count > 0 {
        lemma_deepest_ceiling_is_stop(gf_low, gf_high, tissues, count - 1);
        crate::ceiling::lemma_rounded_ceiling(gf_low, gf_high, tissues[count - 1], count - 1, UNIT as int);
    }
    let deepest = deepest_ceiling(gf_low, gf_high, tissues, count);
    vstd::arithmetic::div_mod::lemma_fundamental_div_mod(deepest, 3);
    vstd::arithmetic::div_mod::lemma_fundamental_div_mod(deepest + 2, 3);
}

/// Computes the depth in metres of the decompression stop for a ceiling.
pub fn calculate_deco_stop_depth(ceiling: u32) -> (metres: u32)
    requires
        ceiling <= 1_000_000,
    ensures
        metres == stop_depth_for(ceiling as int),
        metres >= 3,
        metres % 3 == 0,
{
    let rounded: u32 = (ceiling + 2) / 3 * 3;
    if rounded < 3 {
        3
    } else {
        rounded
    }
}

/// Appends one sample to the record.
pub fn record_output(outputs: &mut SimulationOutputs, depth: u64, pressure: u64, tissues: &[Tissue; 16])
    requires
        old(outputs).wf(),
    ensures
        final(outputs).wf(),
        final(outputs)@ == old(outputs)@.push(
            Sample { depth, pressure, tissues: tissues@ },
        ),
{
    outputs.depths.push(depth);
    outputs.pressures.push(pressure);
    outputs.tissues_per_interval.push(*tissues);
    assert(outputs@ =~= old(outputs)@.push(
        Sample { depth, pressure, tissues: tissues@ },
    ));
}

/// Computes the ambient pressure at a depth, under a surface pressure of
/// one bar.
pub fn pressure_at_depth(depth: u64) -> (pressure: u64)
    requires
        depth <= MAX_TARGET_DEPTH,
    ensures
        pressure == pressure_at(depth as int),
        WATER_VAPOR_PRESSURE <= pressure <= MAX_PRESSURE,
{
    depth / METRES_PER_BAR + UNIT
}

/// Lets `step` seconds pass at `depth` and the ambient pressure
/// `pressure`.
fn tick(
    plan: &DivePlan,
    state: &mut DiveState,
    tissues: &mut [Tissue; 16],
    outputs: &mut SimulationOutputs,
    depth: u64,
    pressure: u64,
    step: u64,
)
    requires
        old(state).dive_time <= 2 * MAX_DIVE_TIME,
        old(state).since_record <= 2 * MAX_DIVE_TIME,
        all_wf(old(tissues)@),
        old(outputs).wf(),
        WATER_VAPOR_PRESSURE <= pressure <= MAX_PRESSURE,
        step <= UNIT,
    ensures
        run_of(*final(state), *final(tissues), *final(outputs)) == ticked(
            *plan,
            run_of(*old(state), *old(tissues), *old(outputs)),
            depth as int,
            pressure as int,
            step as int,
        ),
        all_wf(final(tissues)@),
        final(outputs).wf(),
        final(state).dive_time == old(state).dive_time + step,
        final(state).since_record <= old(state).since_record + step,
        final(state).depth == depth,
        final(state).amb_pressure == pressure,
        final(state).phase == old(state).phase,
        final(state).bottom_time_left == old(state).bottom_time_left,
        final(state).first_stop_depth == old(state).first_stop_depth,
        final(state).stop_depth == old(state).stop_depth,
        final(state).stop_time == old(state).stop_time,
        final(state).carried_stop_time == old(state).carried_stop_time,
        old(outputs)@.is_prefix_of(final(outputs)@),
{
    state.depth = depth;
    state.amb_pressure = pressure;
    state.dive_time = state.dive_time + step;
    advance_tissues(tissues, pressure, plan.temperature, step / SECONDS_PER_MINUTE);
    let due: u64 = state.since_record + step;
    if due >= plan.interval {
        record_output(outputs, depth, pressure, tissues);
        state.since_record = due - plan.interval;
    } else {
        state.since_record = due;
    }
}

/// What every step keeps: the state stays valid, and no clock moves on by
/// more than the longest step.
pub open spec fn step_kept(plan: DivePlan, before: DiveState, after: DiveState) -> bool {
    &&& after.wf(plan)
    &&& after.dive_time <= before.dive_time + MAX_STEP_TIME
    &&& after.since_record <= before.since_record + MAX_STEP_TIME
}

/// Computes the seconds that it takes to cover a distance of at most one
/// second's travel.
fn travel(distance: u64, speed: u64) -> (seconds: u64)
    requires
        distance <= speed,
    ensures
        seconds == travel_time(distance as int, speed as int),
        seconds <= UNIT,
{
    if speed > 0 {
        proof {
            assert(distance * UNIT <= speed * UNIT <= 0xffff_ffff_ffff_ffff * 1_000_000_000)
                by (nonlinear_arith)
                requires
                    0 <= distance <= speed <= 0xffff_ffff_ffff_ffff,
                    UNIT == 1_000_000_000,
            ;
            vstd::arithmetic::div_mod::lemma_div_is_ordered(
                distance * UNIT,
                speed * UNIT,
                speed as int,
            );
            vstd::arithmetic::div_mod::lemma_div_multiples_vanish(UNIT as int, speed as int);
        }
        let scaled: u128 = (distance as u128) * (UNIT as u128);
        (scaled / (speed as u128)) as u64
    } else {
        0
    }
}

/// Takes one step of the descent.
fn descend(plan: &DivePlan, state: &mut DiveState, tissues: &mut [Tissue; 16], outputs: &mut SimulationOutputs)
    requires
        plan.wf(),
        old(state).wf(*plan),
        old(state).has_room(),
        old(state).phase == Phase::Descending,
        all_wf(old(tissues)@),
        old(outputs).wf(),
    ensures
        run_of(*final(state), *final(tissues), *final(outputs)) == descend_step(
            *plan,
            run_of(*old(state), *old(tissues), *old(outputs)),
        ),
        step_kept(*plan, *old(state), *final(state)),
        all_wf(final(tissues)@),
        final(outputs).wf(),
        old(outputs)@.is_prefix_of(final(outputs)@),
{
    let remaining: u64 = plan.target_depth - state.depth;
    let speed: u64 = plan.params.descent_speed;
    if remaining <= speed {
        let step: u64 = travel(remaining, speed);
        let pressure: u64 = pressure_at_depth(plan.target_depth);
        tick(plan, state, tissues, outputs, plan.target_depth, pressure, step);
        state.phase = Phase::Bottom;
    } else {
        let depth: u64 = state.depth + speed;
        let pressure: u64 = pressure_at_depth(depth);
        tick(plan, state, tissues, outputs, depth, pressure, UNIT);
    }
}

/// Takes one step at the bottom.
fn stay_at_bottom(
    plan: &DivePlan,
    state: &mut DiveState,
    tissues: &mut [Tissue; 16],
    outputs: &mut SimulationOutputs,
)
    requires
        plan.wf(),
        old(state).wf(*plan),
        old(state).has_room(),
        old(state).phase == Phase::Bottom,
        all_wf(old(tissues)@),
        old(outputs).wf(),
    ensures
        run_of(*final(state), *final(tissues), *final(outputs)) == bottom_step(
            *plan,
            run_of(*old(state), *old(tissues), *old(outputs)),
        ),
        step_kept(*plan, *old(state), *final(state)),
        all_wf(final(tissues)@),
        final(outputs).wf(),
        old(outputs)@.is_prefix_of(final(outputs)@),
{
    if state.bottom_time_left == 0 {
        state.phase = if plan.include_ascent {
            Phase::AscendingFree
        } else {
            Phase::Surfaced
        };
    } else {
        let step: u64 = if state.bottom_time_left < UNIT {
            state.bottom_time_left
        } else {
            UNIT
        };
        state.bottom_time_left = state.bottom_time_left - step;
        let pressure: u64 = pressure_at_depth(plan.target_depth);
        tick(plan, state, tissues, outputs, plan.target_depth, pressure, step);
    }
}

/// Sets the depth of the first stop where it is due, and computes the
/// gradient factor of the ascent at the present depth.
fn ascent_gradient_factor(plan: &DivePlan, state: &mut DiveState, tissues: &[Tissue; 16]) -> (gf: u64)
    requires
        plan.wf(),
        old(state).wf(*plan),
        all_wf(tissues@),
    ensures
        *final(state) == (DiveState {
            first_stop_depth: latched_first_stop(old(state).first_stop_depth, tissues@),
            ..*old(state)
        }),
        gf == ascent_gf(plan.params, final(state).first_stop_depth, old(state).depth as int),
        gf <= UNIT,
        final(state).wf(*plan),
{
    let unbound: (u32, usize) = max_ceiling_with_gf(UNIT, UNIT, tissues);
    if state.first_stop_depth.is_none() && unbound.0 > 0 {
        state.first_stop_depth = Some(unbound.0);
    }
    match state.first_stop_depth {
        Some(metres) => interpolate_gf(
            plan.params.gf_high,
            plan.params.gf_low,
            state.depth,
            0,
            (metres as u64) * UNIT,
        ),
        None => plan.params.gf_high,
    }
}

/// Takes one step of the free ascent.
fn ascend(plan: &DivePlan, state: &mut DiveState, tissues: &mut [Tissue; 16], outputs: &mut SimulationOutputs)
    requires
        plan.wf(),
        old(state).wf(*plan),
        old(state).has_room(),
        old(state).phase == Phase::AscendingFree,
        all_wf(old(tissues)@),
        old(outputs).wf(),
    ensures
        run_of(*final(state), *final(tissues), *final(outputs)) == ascend_step(
            *plan,
            run_of(*old(state), *old(tissues), *old(outputs)),
        ),
        step_kept(*plan, *old(state), *final(state)),
        all_wf(final(tissues)@),
        final(outputs).wf(),
        old(outputs)@.is_prefix_of(final(outputs)@),
{
    let gf: u64 = ascent_gradient_factor(plan, state, tissues);
    let current: (u32, usize) = max_ceiling_with_gf(gf, gf, tissues);
    let depth: u64 = state.depth;
    let speed: u64 = plan.params.ascent_speed;
    if current.0 > 0 && depth > (current.0 as u64) * UNIT {
        proof {
            lemma_deepest_ceiling_is_stop(gf as int, gf as int, tissues@, 16);
        }
        let stop: u64 = (calculate_deco_stop_depth(current.0) as u64) * UNIT;
        proof {
            let stops = current.0 as int / 3;
            assert(stop == stops * STOP_INTERVAL) by (nonlinear_arith)
                requires
                    stop == current.0 * UNIT,
                    current.0 == 3 * stops,
                    STOP_INTERVAL == 3 * UNIT,
            ;
            vstd::arithmetic::div_mod::lemma_mod_multiples_basic(stops, STOP_INTERVAL as int);
        }
        state.phase = Phase::AscendingAtDecoStop;
        state.stop_depth = stop;
        state.stop_time = state.carried_stop_time;
        state.carried_stop_time = 0;
        if depth - stop <= speed {
            let step: u64 = travel(depth - stop, speed);
            let pressure: u64 = pressure_at_depth(stop);
            tick(plan, state, tissues, outputs, stop, pressure, step);
        } else {
            let pressure: u64 = pressure_at_depth(depth - speed);
            tick(plan, state, tissues, outputs, depth - speed, pressure, UNIT);
        }
    } else if depth > 0 {
        let safety: u32 = if depth < NEAR_SURFACE {
            let cautious: u64 = gf * NEAR_SURFACE_FACTOR / UNIT;
            let near: (u32, usize) = max_ceiling_with_gf(cautious, cautious, tissues);
            near.0
        } else {
            current.0
        };
        if safety == 0 || depth > (safety as u64) * UNIT {
            if depth <= speed {
                state.depth = 0;
                state.amb_pressure = plan.surface_pressure;
                let ghost landing: Run = run_of(*state, *tissues, *outputs);
                let ghost before: DiveState = *state;
                let mut second: u32 = 0;
                while second < SURFACE_SECONDS
                    invariant
                        second <= SURFACE_SECONDS,
                        plan.wf(),
                        state.wf(*plan),
                        state.phase == Phase::AscendingFree,
                        state.dive_time == before.dive_time + second * UNIT,
                        state.since_record <= before.since_record + second * UNIT,
                        before.has_room(),
                        all_wf(tissues@),
                        outputs.wf(),
                        old(outputs)@.is_prefix_of(outputs@),
                        surface_interval(
                            *plan,
                            run_of(*state, *tissues, *outputs),
                            SURFACE_SECONDS - second,
                        ) == surface_interval(*plan, landing, SURFACE_SECONDS as int),
                    decreases SURFACE_SECONDS - second,
                {
                    tick(plan, state, tissues, outputs, 0, plan.surface_pressure, UNIT);
                    second = second + 1;
                }
                state.phase = Phase::Surfaced;
            } else {
                let pressure: u64 = pressure_at_depth(depth - speed);
                tick(plan, state, tissues, outputs, depth - speed, pressure, UNIT);
            }
        } else {
            let pressure: u64 = pressure_at_depth(depth);
            tick(plan, state, tissues, outputs, depth, pressure, UNIT);
        }
    } else {
        state.phase = Phase::Surfaced;
    }
}

/// Takes one step at a decompression stop.
fn hold_stop(
    plan: &DivePlan,
    state: &mut DiveState,
    tissues: &mut [Tissue; 16],
    outputs: &mut SimulationOutputs,
)
    requires
        plan.wf(),
        old(state).wf(*plan),
        old(state).has_room(),
        old(state).phase == Phase::AscendingAtDecoStop,
        all_wf(old(tissues)@),
        old(outputs).wf(),
    ensures
        run_of(*final(state), *final(tissues), *final(outputs)) == stop_step(
            *plan,
            run_of(*old(state), *old(tissues), *old(outputs)),
        ),
        step_kept(*plan, *old(state), *final(state)),
        all_wf(final(tissues)@),
        final(outputs).wf(),
        old(outputs)@.is_prefix_of(final(outputs)@),
{
    let gf: u64 = ascent_gradient_factor(plan, state, tissues);
    let stop: u64 = state.stop_depth;
    let pressure: u64 = pressure_at_depth(stop);
    tick(plan, state, tissues, outputs, stop, pressure, UNIT);
    let stop_time: u64 = state.stop_time + UNIT;
    let ceiling: (u32, usize) = max_ceiling_with_gf(gf, gf, tissues);
    let clear: bool = ceiling.0 == 0 || (ceiling.0 as u64) * UNIT + CLEARANCE < stop;
    if clear && stop_time >= MIN_STOP_TIME {
        state.phase = Phase::AscendingFree;
        state.stop_time = 0;
    } else if clear {
        state.phase = Phase::AscendingFree;
        state.carried_stop_time = state.carried_stop_time + stop_time;
        state.stop_time = 0;
    } else if stop_time >= MAX_STOP_TIME {
        state.phase = Phase::AscendingFree;
        state.stop_time = 0;
    } else {
        state.stop_time = stop_time;
    }
}

/// Takes one step of a dive that has not ended.
pub fn advance_dive(
    plan: &DivePlan,
    state: &mut DiveState,
    tissues: &mut [Tissue; 16],
    outputs: &mut SimulationOutputs,
)
    requires
        plan.wf(),
        old(state).wf(*plan),
        old(state).has_room(),
        all_wf(old(tissues)@),
        old(outputs).wf(),
    ensures
        run_of(*final(state), *final(tissues), *final(outputs)) == dive_step(
            *plan,
            run_of(*old(state), *old(tissues), *old(outputs)),
        ),
        step_kept(*plan, *old(state), *final(state)),
        all_wf(final(tissues)@),
        final(outputs).wf(),
        old(outputs)@.is_prefix_of(final(outputs)@),
{
    match state.phase {
        Phase::Descending => descend(plan, state, tissues, outputs),
        Phase::Bottom => stay_at_bottom(plan, state, tissues, outputs),
        Phase::AscendingFree => ascend(plan, state, tissues, outputs),
        Phase::AscendingAtDecoStop => hold_stop(plan, state, tissues, outputs),
        Phase::Surfaced => {},
    }
}

/// The run of a whole dive: from the surface, with the given tissues and
/// nothing recorded, for as many steps as a simulation takes at most.
pub open spec fn whole_dive(plan: DivePlan, tissues: Seq<Tissue>, bottom_time: u64) -> Run {
    dive_run(
        plan,
        Run { state: DiveState::start(plan, bottom_time), tissues, samples: Seq::empty() },
        MAX_ITERATIONS - 1,
    )
}

/// Simulates a dive to `target_depth`: the descent, `bottom_time_seconds`
/// at the bottom and, if `include_ascent`, the ascent with its
/// decompression stops and a minute at the surface. The tissues are left
/// as they are at the end of the run; the record holds one sample for
/// every `interval_in_seconds` of the dive. A run that has not ended
/// after `MAX_ITERATIONS` steps is cut off there.
pub fn simulate_with_ascent(
    params: &mut DiveParameters,
    tissues: &mut [Tissue; 16],
    starting_ambient_pressure: u64,
    target_depth: u64,
    temperature: i64,
    interval_in_seconds: u64,
    bottom_time_seconds: u64,
    include_ascent: bool,
) -> (outputs: SimulationOutputs)
    requires
        old(params).wf(),
        all_wf(old(tissues)@),
        WATER_VAPOR_PRESSURE <= starting_ambient_pressure <= MAX_PRESSURE,
        target_depth <= MAX_TARGET_DEPTH,
    ensures
        *final(params) == *old(params),
        all_wf(final(tissues)@),
        outputs.wf(),
        ({
            let plan = DivePlan {
                params: *old(params),
                surface_pressure: starting_ambient_pressure,
                target_depth,
                temperature,
                interval: interval_in_seconds,
                include_ascent,
            };
            let end = whole_dive(plan, old(tissues)@, bottom_time_seconds);
            final(tissues)@ == end.tissues && outputs@ == end.samples
        }),
{
    let plan = DivePlan {
        params: *params,
        surface_pressure: starting_ambient_pressure,
        target_depth,
        temperature,
        interval: interval_in_seconds,
        include_ascent,
    };
    let mut state = DiveState::begin(&plan, bottom_time_seconds);
    let mut outputs = SimulationOutputs::new();
    let mut iteration_count: u32 = 1;
    while iteration_count < MAX_ITERATIONS && state.phase != Phase::Surfaced
        invariant
            1 <= iteration_count <= MAX_ITERATIONS,
            plan.wf(),
            state.wf(plan),
            state.dive_time <= (iteration_count - 1) * MAX_STEP_TIME,
            state.since_record <= (iteration_count - 1) * MAX_STEP_TIME,
            all_wf(tissues@),
            outputs.wf(),
            dive_run(plan, run_of(state, *tissues, outputs), MAX_ITERATIONS - iteration_count)
                == whole_dive(plan, old(tissues)@, bottom_time_seconds),
        decreases MAX_ITERATIONS - iteration_count,
    {
        proof {
            assert((iteration_count - 1) * MAX_STEP_TIME <= 50_000_000 * 61_000_000_000)
                by (nonlinear_arith)
                requires
                    1 <= iteration_count <= 50_000_000,
                    MAX_STEP_TIME == 61_000_000_000,
            ;
            assert((iteration_count - 1) * MAX_STEP_TIME + MAX_STEP_TIME == iteration_count
                * MAX_STEP_TIME) by (nonlinear_arith);
        }
        advance_dive(&plan, &mut state, tissues, &mut outputs);
        iteration_count = iteration_count + 1;
    }
    outputs
}

/// Simulates a dive with its ascent.
pub fn simulate(
    params: &mut DiveParameters,
    tissues: &mut [Tissue; 16],
    starting_ambient_pressure: u64,
    target_depth: u64,
    temperature: i64,
    interval_in_seconds: u64,
    bottom_time_seconds: u64,
) -> (outputs: SimulationOutputs)
    requires
        old(params).wf(),
        all_wf(old(tissues)@),
        WATER_VAPOR_PRESSURE <= starting_ambient_pressure <= MAX_PRESSURE,
        target_depth <= MAX_TARGET_DEPTH,
    ensures
        *final(params) == *old(params),
        all_wf(final(tissues)@),
        outputs.wf(),
        ({
            let plan = DivePlan {
                params: *old(params),
                surface_pressure: starting_ambient_pressure,
                target_depth,
                temperature,
                interval: interval_in_seconds,
                include_ascent: true,
            };
            let end = whole_dive(plan, old(tissues)@, bottom_time_seconds);
            final(tissues)@ == end.tissues && outputs@ == end.samples
        }),
{
    simulate_with_ascent(
        params,
        tissues,
        starting_ambient_pressure,
        target_depth,
        temperature,
        interval_in_seconds,
        bottom_time_seconds,
        true,
    )
}

} // verus!
