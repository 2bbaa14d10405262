//! Collecting what the locations of the grid strategy yield.

use crate::registration::{settle, spec_settle, RegistrationFailed, RegistrationOutcome, Skip};
use crate::velocities::CellStatus;
use vstd::prelude::*;

verus! {

/// A marker for a location that was looked at and yields no velocity.
#[derive(Clone, Copy, Debug, PartialEq, Eq, Structural)]
pub struct Skipped {
    pub location: usize,
    pub reason: Skip,
}

/// The velocities of the locations that converged, and a marker for each
/// location that was skipped, both in the order in which they came in.
#[derive(Debug)]
pub struct Aggregator<V> {
    pub velocities: Vec<V>,
    pub skipped: Vec<Skipped>,
}

/// What an aggregator holds.
pub struct Collected<V> {
    pub velocities: Seq<V>,
    pub skipped: Seq<Skipped>,
}

impl<V> View for Aggregator<V> {
    type V = Collected<V>;

    open spec fn view(&self) -> Collected<V> {
        Collected { velocities: self.velocities@, skipped: self.skipped@ }
    }
}

impl<V> Collected<V> {
    /// Nothing collected.
    pub open spec fn is_empty(self) -> bool {
        self.velocities.len() == 0 && self.skipped.len() == 0
    }

    /// `self` holds what `other` holds.
    pub open spec fn same_as(self, other: Self) -> bool {
        self.velocities =~= other.velocities && self.skipped =~= other.skipped
    }

    /// `self` holds what `before` held and, after it, a marker for
    /// `location`.
    pub open spec fn marks(self, before: Self, location: usize, reason: Skip) -> bool {
        &&& self.velocities =~= before.velocities
        &&& self.skipped =~= before.skipped.push(Skipped { location, reason })
    }

    /// `self` holds what `before` held and, after it, one more velocity.
    pub open spec fn adds_velocity(self, before: Self) -> bool {
        &&& self.velocities.len() == before.velocities.len() + 1
        &&& self.velocities.drop_last() =~= before.velocities
        &&& self.skipped =~= before.skipped
    }

    /// What `conclude` makes of `before` for `answer` at `location`: with
    /// convergence one more velocity, which `velocity` returned for the
    /// location and the transform; without it, or after a fault, one more
    /// marker and no velocity.
    pub open spec fn concludes<T, F: Fn(usize, T) -> V>(
        self,
        before: Self,
        location: usize,
        answer: Result<RegistrationOutcome<T>, RegistrationFailed>,
        velocity: F,
    ) -> bool {
        match spec_settle(answer) {
            Ok(transform) => {
                &&& self.adds_velocity(before)
                &&& call_ensures(velocity, (location, transform), self.velocities.last())
            },
            Err(reason) => self.marks(before, location, reason),
        }
    }

    /// What `visit` makes of `before` for a cell with `status` at
    /// `location`: nothing for a cell without counterpart, a marker for a
    /// cell below the floor, and for a ready cell what `conclude` makes of
    /// an answer that `register` returned for the cell and its counterpart.
    pub open spec fn visits<T, R, F>(
        self,
        before: Self,
        location: usize,
        status: CellStatus,
        register: R,
        velocity: F,
    ) -> bool where
        R: Fn(usize, usize) -> Result<RegistrationOutcome<T>, RegistrationFailed>,
        F: Fn(usize, T) -> V,
     {
        match status {
            CellStatus::NoCounterpart => self.same_as(before),
            CellStatus::InsufficientPoints { .. } => self.marks(
                before,
                location,
                Skip::InsufficientPoints,
            ),
            CellStatus::Ready { moving } => exists|
                answer: Result<RegistrationOutcome<T>, RegistrationFailed>,
            |
                {
                    &&& #[trigger] call_ensures(register, (location, moving), answer)
                    &&& self.concludes(before, location, answer, velocity)
                },
        }
    }
}

impl<V> Aggregator<V> {
    /// An aggregator that holds nothing yet.
    pub fn new() -> (aggregator: Self)
        ensures
            aggregator@.is_empty(),
    {
        Aggregator { velocities: Vec::new(), skipped: Vec::new() }
    }

    /// Marks `location` as skipped. No velocity comes of it.
    pub fn skip(&mut self, location: usize, reason: Skip)
        ensures
            final(self)@.marks(old(self)@, location, reason),
    {
        self.skipped.push(Skipped { location, reason });
    }

    /// Takes in the answer of the registration at `location`.
    ///
    /// Where it converged, `velocity` is called once, on the location and
    /// the transform, and what it returns is appended to the velocities.
    /// Where it did not, or faulted, `velocity` is not called, no velocity
    /// is added, and the location is marked as not converged.
    pub fn conclude<T, F: Fn(usize, T) -> V>(
        &mut self,
        location: usize,
        answer: Result<RegistrationOutcome<T>, RegistrationFailed>,
        velocity: &F,
    )
        requires
            forall|transform: T| call_requires(*velocity, (location, transform)),
        ensures
            final(self)@.concludes(old(self)@, location, answer, *velocity),
    {
        match settle(answer) {
            Ok(transform) => {
                let found = velocity(location, transform);
                self.velocities.push(found);
            },
            Err(reason) => {
                self.skip(location, reason);
            },
        }
    }

    /// Deals with cell `location` of the fixed cloud, whose status is
    /// `status`.
    ///
    /// A cell without counterpart leaves no trace. A cell below the floor is
    /// marked as skipped. For a ready cell `register` is called once, on the
    /// positions of the cell and of its counterpart, and its answer is taken
    /// in as `conclude` does. Neither function is called for a cell that is
    /// not ready.
    pub fn visit<T, R, F>(&mut self, location: usize, status: CellStatus, register: &R, velocity: &F)
        where
            R: Fn(usize, usize) -> Result<RegistrationOutcome<T>, RegistrationFailed>,
            F: Fn(usize, T) -> V,
        requires
            forall|moving: usize| call_requires(*register, (location, moving)),
            forall|transform: T| call_requires(*velocity, (location, transform)),
        ensures
            final(self)@.visits(old(self)@, location, status, *register, *velocity),
    {
        match status {
            CellStatus::NoCounterpart => {},
            CellStatus::InsufficientPoints { .. } => {
                self.skip(location, Skip::InsufficientPoints);
            },
            CellStatus::Ready { moving } => {
                let answer = register(location, moving);
                self.conclude(location, answer, velocity);
            },
        }
    }
}

/// A registration that did not converge, or that faulted, never adds a
/// velocity: what `conclude` leaves behind holds the velocities it found,
/// and one more marker.
pub proof fn law_no_velocity_without_convergence<V, T, F: Fn(usize, T) -> V>(
    before: Collected<V>,
    after: Collected<V>,
    location: usize,
    answer: Result<RegistrationOutcome<T>, RegistrationFailed>,
    velocity: F,
)
    requires
        answer matches Ok(outcome) ==> !outcome.converged,
        after.concludes(before, location, answer, velocity),
    ensures
        after.velocities == before.velocities,
        after.skipped == before.skipped.push(Skipped { location, reason: Skip::NonConverged }),
{
}

/// A cell that is not ready never adds a velocity, whatever the two
/// functions would have returned.
pub proof fn law_no_velocity_without_registration<V, T, R, F>(
    before: Collected<V>,
    after: Collected<V>,
    location: usize,
    status: CellStatus,
    register: R,
    velocity: F,
) where
    R: Fn(usize, usize) -> Result<RegistrationOutcome<T>, RegistrationFailed>,
    F: Fn(usize, T) -> V,

    requires
        !(status is Ready),
        after.visits(before, location, status, register, velocity),
    ensures
        after.velocities == before.velocities,
{
}

} // verus!
