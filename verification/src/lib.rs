//! Surface-displacement fields between two time-separated point-cloud captures.
//!
//! The library holds the exact part of the work: pairing capture files by the
//! timestamps in their names, binning a cloud into grid cells, deciding per
//! location whether a registration is attempted, and collecting what each
//! location yields. The registration itself, the arithmetic on coordinates
//! and the access to files are handed in by the caller: the library is
//! generic in what a transform, a velocity and a density are, and proves what
//! it does with them.

pub mod aggregate;
pub mod error;
pub mod grid;
pub mod pairing;
pub mod registration;
pub mod sample;
pub mod velocities;
