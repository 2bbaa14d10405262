//! The adaptive strategy: whether a candidate location is sampled, and
//! whether its sample carries a registration.

use crate::registration::{RegistrationConfig, RegistrationFailed};
use vstd::prelude::*;

verus! {

/// The integer parameters of the adaptive strategy.
#[derive(Clone, Copy, Debug, PartialEq, Eq, Structural)]
pub struct Config {
    /// The step radius: points are counted within it round each location.
    pub step: u32,
    /// How many nearest points of each cloud make up a patch.
    pub neighbors: usize,
    /// A cap on the iterations of one registration, if any.
    pub max_iterations: Option<u64>,
}

impl Config {
    /// The squared radius that the counts at a location are queried with.
    pub fn radius_squared(&self) -> (squared: u64)
        ensures
            squared == spec_radius_squared(self.step),
    {
        radius_squared(self.step)
    }

    /// The configuration that each pair of patches is registered with.
    pub fn registration(&self) -> (config: RegistrationConfig)
        ensures
            config.is_policy(),
            config.max_iterations == self.max_iterations,
    {
        RegistrationConfig::policy(self.max_iterations)
    }
}

/// What is done at a candidate location.
#[derive(Clone, Copy, Debug, PartialEq, Eq, Structural)]
pub enum Selection {
    /// One of the clouds has no point within the query radius: the location
    /// lies outside the data and yields nothing, not even an empty sample.
    OutsideCoverage,
    /// Both clouds have points there, but one is sparser than the minimum
    /// density: the sample carries the densities and no registration.
    LowDensity,
    /// Both clouds are dense enough: patches are extracted and registered.
    Register,
}

/// The squared query radius for step radius `step`: the distance that every
/// radius query is made with.
pub open spec fn spec_radius_squared(step: u32) -> int {
    step * step
}

/// Squares the step radius.
pub fn radius_squared(step: u32) -> (squared: u64)
    ensures
        squared == spec_radius_squared(step),
{
    assert(step * step <= u64::MAX) by (nonlinear_arith)
        requires
            step <= u32::MAX,
    ;
    step as u64 * step as u64
}

/// The selection for a location with `fixed_count` and `moving_count` points
/// within the query radius, where `fixed_dense` and `moving_dense` say
/// whether the density of each cloud there reaches the minimum.
pub open spec fn spec_select(
    fixed_count: int,
    moving_count: int,
    fixed_dense: bool,
    moving_dense: bool,
) -> Selection {
    if fixed_count == 0 || moving_count == 0 {
        Selection::OutsideCoverage
    } else if !fixed_dense || !moving_dense {
        Selection::LowDensity
    } else {
        Selection::Register
    }
}

/// Decides what is done at a location from the two counts and the two
/// density verdicts.
pub fn select(fixed_count: usize, moving_count: usize, fixed_dense: bool, moving_dense: bool) -> (selection:
    Selection)
    ensures
        selection == spec_select(fixed_count as int, moving_count as int, fixed_dense, moving_dense),
        (fixed_count == 0 || moving_count == 0) <==> selection == Selection::OutsideCoverage,
{
    if fixed_count == 0 || moving_count == 0 {
        Selection::OutsideCoverage
    } else if !fixed_dense || !moving_dense {
        Selection::LowDensity
    } else {
        Selection::Register
    }
}

impl Selection {
    /// Whether the location yields a sample at all.
    pub open spec fn spec_yields_sample(&self) -> bool {
        *self != Selection::OutsideCoverage
    }

    /// Whether the location yields a sample at all.
    pub fn yields_sample(&self) -> (yields: bool)
        ensures
            yields == self.spec_yields_sample(),
    {
        match self {
            Selection::OutsideCoverage => false,
            _ => true,
        }
    }

    /// Whether the location's patches are registered.
    pub open spec fn spec_registers(&self) -> bool {
        *self == Selection::Register
    }

    /// Whether the location's patches are registered.
    pub fn registers(&self) -> (registers: bool)
        ensures
            registers == self.spec_registers(),
    {
        match self {
            Selection::Register => true,
            _ => false,
        }
    }
}

/// What was measured of one cloud round a location: the number of points
/// within the query radius, the density computed from it, and whether that
/// density reaches the configured minimum.
#[derive(Debug)]
pub struct Density<D> {
    pub count: usize,
    pub value: D,
    pub dense: bool,
}

/// A sample of the displacement at one location: the densities of the two
/// clouds there and, where both were dense enough and the registration ran
/// to its end, what the registration returned.
#[derive(Debug)]
pub struct Sample<P, D, R> {
    pub location: P,
    pub fixed_density: D,
    pub moving_density: D,
    pub registration: Option<R>,
}

/// The registration part of a sample: what a call that ran to its end
/// returned, nothing for a call that faulted.
pub open spec fn spec_registered<R>(answer: Result<R, RegistrationFailed>) -> Option<R> {
    match answer {
        Ok(run) => Some(run),
        Err(_) => None,
    }
}

impl<P, D, R> Sample<P, D, R> {
    /// Samples the data at `location`.
    ///
    /// Where either cloud has no point within the query radius there is no
    /// sample. Where one of them is not dense enough the sample carries the
    /// two densities and no registration, and `register` is not called.
    /// Otherwise `register` is called once and the sample carries what it
    /// returned.
    pub fn new<F: FnOnce() -> Result<R, RegistrationFailed>>(
        location: P,
        fixed: Density<D>,
        moving: Density<D>,
        register: F,
    ) -> (sample: Option<Sample<P, D, R>>)
        requires
            call_requires(register, ()),
        ensures
            sample is None <==> fixed.count == 0 || moving.count == 0,
            match spec_select(fixed.count as int, moving.count as int, fixed.dense, moving.dense) {
                Selection::OutsideCoverage => sample is None,
                Selection::LowDensity => sample == Some(
                    Sample::<P, D, R> {
                        location,
                        fixed_density: fixed.value,
                        moving_density: moving.value,
                        registration: None,
                    },
                ),
                Selection::Register => exists|answer: Result<R, RegistrationFailed>|
                    {
                        &&& #[trigger] call_ensures(register, (), answer)
                        &&& sample == Some(
                            Sample {
                                location,
                                fixed_density: fixed.value,
                                moving_density: moving.value,
                                registration: spec_registered(answer),
                            },
                        )
                    },
            },
    {
        match select(fixed.count, moving.count, fixed.dense, moving.dense) {
            Selection::OutsideCoverage => None,
            Selection::LowDensity => Some(
                Sample {
                    location,
                    fixed_density: fixed.value,
                    moving_density: moving.value,
                    registration: None,
                },
            ),
            Selection::Register => {
                let answer = register();
                let registration = match answer {
                    Ok(run) => Some(run),
                    Err(_) => None,
                };
                Some(
                    Sample {
                        location,
                        fixed_density: fixed.value,
                        moving_density: moving.value,
                        registration,
                    },
                )
            },
        }
    }
}

/// What a survey makes of `before` at candidate location `location`: for
/// densities that `measure` returned there, no sample outside the data, a
/// sample without registration where a cloud is sparse, and otherwise a
/// sample with what an answer of `register` gave.
pub open spec fn surveyed<D, R, M, F>(
    before: Seq<Sample<usize, D, R>>,
    after: Seq<Sample<usize, D, R>>,
    location: usize,
    measure: M,
    register: F,
) -> bool where
    M: Fn(usize) -> (Density<D>, Density<D>),
    F: Fn(usize) -> Result<R, RegistrationFailed>,
 {
    exists|fixed: Density<D>, moving: Density<D>|
        {
            &&& #[trigger] call_ensures(measure, (location,), (fixed, moving))
            &&& match spec_select(
                fixed.count as int,
                moving.count as int,
                fixed.dense,
                moving.dense,
            ) {
                Selection::OutsideCoverage => after =~= before,
                Selection::LowDensity => after =~= before.push(
                    Sample {
                        location,
                        fixed_density: fixed.value,
                        moving_density: moving.value,
                        registration: None,
                    },
                ),
                Selection::Register => exists|answer: Result<R, RegistrationFailed>|
                    {
                        &&& #[trigger] call_ensures(register, (location,), answer)
                        &&& after =~= before.push(
                            Sample {
                                location,
                                fixed_density: fixed.value,
                                moving_density: moving.value,
                                registration: spec_registered(answer),
                            },
                        )
                    },
            }
        }
}

/// `trace` follows a survey of the candidate locations `0` to
/// `locations - 1` in order: it starts empty, and each location takes it
/// from one entry to the next.
pub open spec fn is_survey<D, R, M, F>(
    trace: Seq<Seq<Sample<usize, D, R>>>,
    locations: usize,
    measure: M,
    register: F,
) -> bool where
    M: Fn(usize) -> (Density<D>, Density<D>),
    F: Fn(usize) -> Result<R, RegistrationFailed>,
 {
    &&& trace.len() == locations + 1
    &&& trace[0].len() == 0
    &&& forall|i: int|
        0 <= i < locations ==> surveyed(#[trigger] trace[i], trace[i + 1], i as usize, measure, register)
}

/// Samples the candidate locations `0` to `locations - 1` in order and
/// collects the samples, each under the number of its location: `measure`
/// is called once per location, and `register` once per location where both
/// clouds are dense enough.
pub fn survey<D, R, M, F>(locations: usize, measure: M, register: F) -> (out: Vec<
    Sample<usize, D, R>,
>) where
    M: Fn(usize) -> (Density<D>, Density<D>),
    F: Fn(usize) -> Result<R, RegistrationFailed>,

    requires
        forall|location: usize| call_requires(measure, (location,)),
        forall|location: usize| call_requires(register, (location,)),
    ensures
        exists|trace: Seq<Seq<Sample<usize, D, R>>>|
            {
                &&& #[trigger] is_survey(trace, locations, measure, register)
                &&& trace.last() == out@
            },
{
    let mut out: Vec<Sample<usize, D, R>> = Vec::new();
    let ghost mut trace: Seq<Seq<Sample<usize, D, R>>> = seq![out@];
    let mut location: usize = 0;
    while location < locations
        invariant
            location <= locations,
            forall|location: usize| call_requires(measure, (location,)),
            forall|location: usize| call_requires(register, (location,)),
            is_survey(trace, location, measure, register),
            trace.last() == out@,
        decreases locations - location,
    {
        let ghost before = trace;
        let (fixed, moving) = measure(location);
        match select(fixed.count, moving.count, fixed.dense, moving.dense) {
            Selection::OutsideCoverage => {},
            Selection::LowDensity => {
                out.push(
                    Sample {
                        location,
                        fixed_density: fixed.value,
                        moving_density: moving.value,
                        registration: None,
                    },
                );
            },
            Selection::Register => {
                let answer = register(location);
                let registration = match answer {
                    Ok(run) => Some(run),
                    Err(_) => None,
                };
                out.push(
                    Sample {
                        location,
                        fixed_density: fixed.value,
                        moving_density: moving.value,
                        registration,
                    },
                );
            },
        }
        proof {
            trace = before.push(out@);
            assert(surveyed(before.last(), out@, location, measure, register));
            assert forall|i: int| 0 <= i < location + 1 implies surveyed(
                #[trigger] trace[i],
                trace[i + 1],
                i as usize,
                measure,
                register,
            ) by {
                if i < location {
                    assert(surveyed(before[i], before[i + 1], i as usize, measure, register));
                }
            }
        }
        location += 1;
    }
    out
}

/// A location where either cloud has no point within the query radius
/// yields no sample and no registration, whatever the densities are said
/// to be.
pub proof fn law_empty_radius_is_skipped(
    fixed_count: int,
    moving_count: int,
    fixed_dense: bool,
    moving_dense: bool,
)
    requires
        fixed_count == 0 || moving_count == 0,
    ensures
        !spec_select(fixed_count, moving_count, fixed_dense, moving_dense).spec_yields_sample(),
        !spec_select(fixed_count, moving_count, fixed_dense, moving_dense).spec_registers(),
{
}

/// A survey leaves no sample for a location where a cloud has no point
/// within the query radius: where every measurement there counts no point
/// in one of the clouds, the samples stay as they were.
pub proof fn law_empty_location_leaves_no_sample<D, R, M, F>(
    before: Seq<Sample<usize, D, R>>,
    after: Seq<Sample<usize, D, R>>,
    location: usize,
    measure: M,
    register: F,
) where
    M: Fn(usize) -> (Density<D>, Density<D>),
    F: Fn(usize) -> Result<R, RegistrationFailed>,

    requires
        surveyed(before, after, location, measure, register),
        forall|fixed: Density<D>, moving: Density<D>|
            #[trigger] call_ensures(measure, (location,), (fixed, moving)) ==> fixed.count == 0
                || moving.count == 0,
    ensures
        after == before,
{
}

/// A survey holds at most one sample per location.
pub proof fn law_one_sample_per_location<D, R, M, F>(
    trace: Seq<Seq<Sample<usize, D, R>>>,
    locations: usize,
    measure: M,
    register: F,
    n: int,
) where
    M: Fn(usize) -> (Density<D>, Density<D>),
    F: Fn(usize) -> Result<R, RegistrationFailed>,

    requires
        is_survey(trace, locations, measure, register),
        0 <= n <= locations,
    ensures
        trace[n].len() <= n,
        forall|k: int| 0 <= k < trace[n].len() ==> (#[trigger] trace[n][k]).location < n,
    decreases n,
{
    if n > 0 {
        law_one_sample_per_location(trace, locations, measure, register, n - 1);
        assert(surveyed(trace[n - 1], trace[n - 1 + 1], (n - 1) as usize, measure, register));
    }
}

} // verus!
