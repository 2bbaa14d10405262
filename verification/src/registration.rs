//! The seam to the rigid-registration capability: the configuration that
//! every call is made with, and what a call's answer means for a location.

use vstd::prelude::*;

verus! {

/// How the two patches are scaled before they are registered.
#[derive(Clone, Copy, Debug, PartialEq, Eq, Structural)]
pub enum Normalize {
    /// Each patch by its own extent.
    Independent,
    /// Both patches by one common scale.
    SameScale,
}

/// The configuration of one registration call.
#[derive(Clone, Copy, Debug, PartialEq, Eq, Structural)]
pub struct RegistrationConfig {
    pub normalize: Normalize,
    /// Whether a scale factor is estimated besides rotation and translation.
    pub scale: bool,
    /// Whether the rotation may be improper.
    pub allow_reflections: bool,
    /// A cap on the iterations, where the capability's own is not wanted.
    pub max_iterations: Option<u64>,
}

impl RegistrationConfig {
    /// The configuration is the fixed policy: a rigid transform over
    /// patches of one scale, without scaling and without reflections.
    pub open spec fn is_policy(&self) -> bool {
        &&& self.normalize == Normalize::SameScale
        &&& !self.scale
        &&& !self.allow_reflections
    }

    /// The policy, with the iteration cap as given.
    pub fn policy(max_iterations: Option<u64>) -> (config: RegistrationConfig)
        ensures
            config.is_policy(),
            config.max_iterations == max_iterations,
    {
        RegistrationConfig {
            normalize: Normalize::SameScale,
            scale: false,
            allow_reflections: false,
            max_iterations,
        }
    }
}

/// What the capability returns where it runs to its end: a transform, and
/// whether the estimate had settled before the iteration cap.
#[derive(Debug)]
pub struct RegistrationOutcome<T> {
    pub transform: T,
    pub converged: bool,
}

/// The capability faulted inside the call.
#[derive(Clone, Copy, Debug, PartialEq, Eq, Structural)]
pub struct RegistrationFailed;

/// Why a location, though looked at, yields no velocity.
#[derive(Clone, Copy, Debug, PartialEq, Eq, Structural)]
pub enum Skip {
    /// A patch holds fewer points than the floor asks for.
    InsufficientPoints,
    /// The registration did not converge, or faulted.
    NonConverged,
}

/// The transform to derive a velocity from, or why there is none: a
/// transform is handed on only where the registration converged, and a
/// fault counts as no convergence.
pub open spec fn spec_settle<T>(answer: Result<RegistrationOutcome<T>, RegistrationFailed>) -> Result<
    T,
    Skip,
> {
    match answer {
        Ok(outcome) => if outcome.converged {
            Ok(outcome.transform)
        } else {
            Err(Skip::NonConverged)
        },
        Err(_) => Err(Skip::NonConverged),
    }
}

/// Decides whether the answer of a registration is handed on.
pub fn settle<T>(answer: Result<RegistrationOutcome<T>, RegistrationFailed>) -> (settled: Result<
    T,
    Skip,
>)
    ensures
        settled == spec_settle(answer),
{
    match answer {
        Ok(outcome) => if outcome.converged {
            Ok(outcome.transform)
        } else {
            Err(Skip::NonConverged)
        },
        Err(_) => Err(Skip::NonConverged),
    }
}

} // verus!
