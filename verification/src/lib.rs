//! Computational core of the Kronig-Penney periodic-potential model.
//!
//! The model alternates zero-potential wells with fixed-height barriers along
//! the position axis. This crate generates the evenly spaced sample grid,
//! classifies each position as well or barrier, and selects the branch of the
//! transcendental band-structure function, all in exact rational arithmetic so
//! that every boundary decision is proved rather than subject to rounding.
//! Plot rendering and the transcendental floating-point evaluation live
//! outside the verified core.

pub mod analysis;
pub mod grid;
pub mod potential;
pub mod rational;
