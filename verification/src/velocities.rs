//! The grid strategy: every occupied cell of the fixed cloud is a candidate
//! location, compared against the cell with the same key in the moving cloud.

use crate::aggregate::{Aggregator, Collected};
use crate::grid::{find_cell, first_with_key, Cell, Grid, PlanarPoint};
use crate::registration::{RegistrationConfig, RegistrationFailed, RegistrationOutcome};
use vstd::prelude::*;

verus! {

/// The parameters of the grid strategy.
#[derive(Clone, Copy, Debug, PartialEq, Eq, Structural)]
pub struct GridConfig {
    /// The width of a cell, in the unit of the coordinates. Positive.
    pub cell_size: i64,
    /// The fewest points that a patch may hold for its cell to be registered.
    pub min_patch_points: usize,
    /// A cap on the iterations of one registration, if any.
    pub max_iterations: Option<u64>,
}

impl Default for GridConfig {
    /// Cells of 100 units, patches of at least 1000 points, no cap.
    fn default() -> (config: GridConfig)
        ensures
            config.cell_size == 100,
            config.min_patch_points == 1000,
            config.max_iterations is None,
            config.spec_is_valid(),
    {
        GridConfig { cell_size: 100, min_patch_points: 1000, max_iterations: None }
    }
}

impl GridConfig {
    /// The cell size is positive.
    pub open spec fn spec_is_valid(&self) -> bool {
        self.cell_size > 0
    }

    /// Whether the cell size is positive, as `plan` needs it.
    pub fn is_valid(&self) -> (valid: bool)
        ensures
            valid == self.spec_is_valid(),
    {
        self.cell_size > 0
    }

    /// The configuration that each cell pair is registered with.
    pub fn registration(&self) -> (config: RegistrationConfig)
        ensures
            config.is_policy(),
            config.max_iterations == self.max_iterations,
    {
        RegistrationConfig::policy(self.max_iterations)
    }
}

/// What becomes of one cell of the fixed cloud.
#[derive(Clone, Copy, Debug, PartialEq, Eq, Structural)]
pub enum CellStatus {
    /// The moving cloud has no cell with this key: passed over, no fault.
    NoCounterpart,
    /// One of the two cells holds fewer points than the floor asks for.
    InsufficientPoints { moving: usize },
    /// Both cells hold enough points: their point lists are the two patches.
    Ready { moving: usize },
}

/// The status of `cell` against the cells `moving` of the other cloud, where
/// a patch needs at least `min_points` points.
pub open spec fn spec_cell_status(cell: Cell, moving: Seq<Cell>, min_points: int) -> CellStatus {
    match first_with_key(moving, cell.key) {
        None => CellStatus::NoCounterpart,
        Some(m) => if cell.members@.len() >= min_points && moving[m].members@.len()
            >= min_points {
            CellStatus::Ready { moving: m as usize }
        } else {
            CellStatus::InsufficientPoints { moving: m as usize }
        },
    }
}

/// Looks up the counterpart of cell `f` of `fixed` in `moving` and holds both
/// against the floor `min_points`.
pub fn cell_status(fixed: &Grid, moving: &Grid, f: usize, min_points: usize) -> (status:
    CellStatus)
    requires
        f < fixed.cells@.len(),
    ensures
        status == spec_cell_status(fixed.cells@[f as int], moving.cells@, min_points as int),
{
    let cell = &fixed.cells[f];
    match find_cell(&moving.cells, cell.key) {
        None => CellStatus::NoCounterpart,
        Some(m) => {
            if cell.members.len() >= min_points && moving.cells[m].members.len() >= min_points {
                CellStatus::Ready { moving: m }
            } else {
                CellStatus::InsufficientPoints { moving: m }
            }
        },
    }
}

/// A pair of cells to register: positions in the fixed and in the moving
/// grid's cell lists.
#[derive(Clone, Copy, Debug, PartialEq, Eq, Structural)]
pub struct Candidate {
    pub fixed: usize,
    pub moving: usize,
}

/// `out` lists, in the order of `fixed`, exactly the cells of `fixed` that are
/// ready, each with its counterpart.
pub open spec fn lists_ready(
    out: Seq<Candidate>,
    fixed: Seq<Cell>,
    moving: Seq<Cell>,
    min_points: int,
) -> bool {
    &&& forall|a: int, b: int| 0 <= a < b < out.len() ==> out[a].fixed < out[b].fixed
    &&& forall|a: int|
        0 <= a < out.len() ==> {
            &&& (#[trigger] out[a]).fixed < fixed.len()
            &&& spec_cell_status(fixed[out[a].fixed as int], moving, min_points)
                == CellStatus::Ready { moving: out[a].moving }
        }
    &&& forall|f: int|
        0 <= f < fixed.len() && spec_cell_status(#[trigger] fixed[f], moving, min_points) is Ready
            ==> exists|a: int| 0 <= a < out.len() && (#[trigger] out[a]).fixed == f
}

/// The cell pairs of two grids that are to be registered.
pub fn candidates(fixed: &Grid, moving: &Grid, min_points: usize) -> (out: Vec<Candidate>)
    ensures
        lists_ready(out@, fixed.cells@, moving.cells@, min_points as int),
{
    let mut out: Vec<Candidate> = Vec::new();
    let mut f: usize = 0;
    while f < fixed.cells.len()
        invariant
            f <= fixed.cells@.len(),
            lists_ready(out@, fixed.cells@.take(f as int), moving.cells@, min_points as int),
            forall|a: int| 0 <= a < out@.len() ==> (#[trigger] out@[a]).fixed < f,
        decreases fixed.cells@.len() - f,
    {
        let ghost before = out@;
        let ghost seen = fixed.cells@.take(f as int);
        let ghost now = fixed.cells@.take(f + 1);
        let status = cell_status(fixed, moving, f, min_points);
        if let CellStatus::Ready { moving: m } = status {
            out.push(Candidate { fixed: f, moving: m });
        }
        proof {
            assert forall|a: int| 0 <= a < out@.len() implies {
                &&& (#[trigger] out@[a]).fixed < now.len()
                &&& spec_cell_status(now[out@[a].fixed as int], moving.cells@, min_points as int)
                    == CellStatus::Ready { moving: out@[a].moving }
            } by {
                if a < before.len() {
                    assert(out@[a] == before[a]);
                    assert(seen[before[a].fixed as int] == now[before[a].fixed as int]);
                }
            }
            assert forall|g: int|
                0 <= g < now.len() && spec_cell_status(
                    #[trigger] now[g],
                    moving.cells@,
                    min_points as int,
                ) is Ready implies exists|a: int|
                0 <= a < out@.len() && (#[trigger] out@[a]).fixed == g by {
                if g < f {
                    assert(seen[g] == now[g]);
                    let a = choose|a: int| 0 <= a < before.len() && (#[trigger] before[a]).fixed == g;
                    assert(out@[a].fixed == g);
                } else {
                    assert(out@[before.len() as int].fixed == g);
                }
            }
        }
        f += 1;
    }
    proof {
        assert(fixed.cells@.take(fixed.cells@.len() as int) == fixed.cells@);
    }
    out
}

/// Two clouds binned with one cell size, and the cell pairs to register.
pub struct Plan {
    pub fixed: Grid,
    pub moving: Grid,
    pub candidates: Vec<Candidate>,
}

impl Plan {
    /// The plan is the one for these two clouds under `config`.
    pub open spec fn is_for(
        &self,
        fixed: Seq<PlanarPoint>,
        moving: Seq<PlanarPoint>,
        config: GridConfig,
    ) -> bool {
        &&& self.fixed.cell_size == config.cell_size
        &&& self.moving.cell_size == config.cell_size
        &&& self.fixed.partitions(fixed)
        &&& self.moving.partitions(moving)
        &&& lists_ready(
            self.candidates@,
            self.fixed.cells@,
            self.moving.cells@,
            config.min_patch_points as int,
        )
    }
}

/// Bins both clouds into cells of the configured width and pairs the cells
/// that are present in both with at least the configured number of points
/// each.
pub fn plan(fixed: &Vec<PlanarPoint>, moving: &Vec<PlanarPoint>, config: &GridConfig) -> (plan:
    Plan)
    requires
        config.spec_is_valid(),
    ensures
        plan.is_for(fixed@, moving@, *config),
{
    let fixed = Grid::partition(fixed, config.cell_size);
    let moving = Grid::partition(moving, config.cell_size);
    let candidates = candidates(&fixed, &moving, config.min_patch_points);
    Plan { fixed, moving, candidates }
}

/// `trace` follows a walk over the cells of `fixed` in order: it starts
/// empty, and each cell takes it from one entry to the next as
/// `Aggregator::visit` does for the cell's status.
pub open spec fn is_trace<T, V, R, F>(
    trace: Seq<Collected<V>>,
    fixed: Seq<Cell>,
    moving: Seq<Cell>,
    min_points: int,
    register: R,
    velocity: F,
) -> bool where
    R: Fn(usize, usize) -> Result<RegistrationOutcome<T>, RegistrationFailed>,
    F: Fn(usize, T) -> V,
 {
    &&& trace.len() == fixed.len() + 1
    &&& trace[0].is_empty()
    &&& forall|f: int|
        0 <= f < fixed.len() ==> trace[f + 1].visits(
            #[trigger] trace[f],
            f as usize,
            spec_cell_status(fixed[f], moving, min_points),
            register,
            velocity,
        )
}

/// After `n` cells a walk holds at most `n` entries, velocities and markers
/// together: each cell leaves one of the two, or nothing.
pub proof fn law_one_entry_per_cell<T, V, R, F>(
    trace: Seq<Collected<V>>,
    fixed: Seq<Cell>,
    moving: Seq<Cell>,
    min_points: int,
    register: R,
    velocity: F,
    n: int,
) where
    R: Fn(usize, usize) -> Result<RegistrationOutcome<T>, RegistrationFailed>,
    F: Fn(usize, T) -> V,

    requires
        is_trace(trace, fixed, moving, min_points, register, velocity),
        0 <= n <= fixed.len(),
    ensures
        trace[n].velocities.len() + trace[n].skipped.len() <= n,
    decreases n,
{
    if n > 0 {
        law_one_entry_per_cell(trace, fixed, moving, min_points, register, velocity, n - 1);
        assert(trace[n - 1 + 1].visits(
            trace[n - 1],
            (n - 1) as usize,
            spec_cell_status(fixed[n - 1], moving, min_points),
            register,
            velocity,
        ));
    }
}

/// A walk on which no registration converges collects no velocity: where
/// every answer that `register` can give is without convergence or a fault,
/// the walk holds markers alone.
pub proof fn law_no_convergence_no_velocity<T, V, R, F>(
    trace: Seq<Collected<V>>,
    fixed: Seq<Cell>,
    moving: Seq<Cell>,
    min_points: int,
    register: R,
    velocity: F,
    n: int,
) where
    R: Fn(usize, usize) -> Result<RegistrationOutcome<T>, RegistrationFailed>,
    F: Fn(usize, T) -> V,

    requires
        is_trace(trace, fixed, moving, min_points, register, velocity),
        0 <= n <= fixed.len(),
        forall|f: usize, m: usize, answer: Result<RegistrationOutcome<T>, RegistrationFailed>|
            #[trigger] call_ensures(register, (f, m), answer) ==> (answer matches Ok(outcome)
                ==> !outcome.converged),
    ensures
        trace[n].velocities.len() == 0,
    decreases n,
{
    if n > 0 {
        law_no_convergence_no_velocity(trace, fixed, moving, min_points, register, velocity, n - 1);
        assert(trace[n - 1 + 1].visits(
            trace[n - 1],
            (n - 1) as usize,
            spec_cell_status(fixed[n - 1], moving, min_points),
            register,
            velocity,
        ));
    }
}

/// Walks over the cells of the fixed cloud in order and collects what they
/// yield: for each ready cell `register` is called on the positions of the
/// cell and of its counterpart, and where its answer converged `velocity` is
/// called on the cell's position and the transform.
pub fn velocities<T, V, R, F>(plan: &Plan, config: &GridConfig, register: R, velocity: F) -> (out:
    Aggregator<V>) where
    R: Fn(usize, usize) -> Result<RegistrationOutcome<T>, RegistrationFailed>,
    F: Fn(usize, T) -> V,

    requires
        forall|fixed: usize, moving: usize| call_requires(register, (fixed, moving)),
        forall|fixed: usize, transform: T| call_requires(velocity, (fixed, transform)),
    ensures
        exists|trace: Seq<Collected<V>>|
            {
                &&& #[trigger] is_trace(
                    trace,
                    plan.fixed.cells@,
                    plan.moving.cells@,
                    config.min_patch_points as int,
                    register,
                    velocity,
                )
                &&& trace.last() == out@
            },
{
    let mut out: Aggregator<V> = Aggregator::new();
    let ghost mut trace: Seq<Collected<V>> = seq![out@];
    let mut f: usize = 0;
    while f < plan.fixed.cells.len()
        invariant
            f <= plan.fixed.cells@.len(),
            forall|fixed: usize, moving: usize| call_requires(register, (fixed, moving)),
            forall|fixed: usize, transform: T| call_requires(velocity, (fixed, transform)),
            is_trace(
                trace,
                plan.fixed.cells@.take(f as int),
                plan.moving.cells@,
                config.min_patch_points as int,
                register,
                velocity,
            ),
            trace.last() == out@,
        decreases plan.fixed.cells@.len() - f,
    {
        let ghost before = trace;
        let status = cell_status(&plan.fixed, &plan.moving, f, config.min_patch_points);
        out.visit(f, status, &register, &velocity);
        proof {
            trace = before.push(out@);
            let seen = plan.fixed.cells@.take(f as int);
            let now = plan.fixed.cells@.take(f + 1);
            assert forall|g: int| 0 <= g < now.len() implies trace[g + 1].visits(
                #[trigger] trace[g],
                g as usize,
                spec_cell_status(now[g], plan.moving.cells@, config.min_patch_points as int),
                register,
                velocity,
            ) by {
                if g < f {
                    assert(seen[g] == now[g]);
                    assert(before[g + 1].visits(
                        before[g],
                        g as usize,
                        spec_cell_status(seen[g], plan.moving.cells@, config.min_patch_points as int),
                        register,
                        velocity,
                    ));
                }
            }
        }
        f += 1;
    }
    proof {
        assert(plan.fixed.cells@.take(plan.fixed.cells@.len() as int) == plan.fixed.cells@);
    }
    out
}

} // verus!
