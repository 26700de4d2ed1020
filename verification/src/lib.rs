//! Movement-technique analysis for recorded matches: a BSP clip-tree point
//! containment query, per-tick acceleration kinematics, a strafe-angle
//! optimizer, and a scan that segments a replay into jump techniques.
//!
//! All physical quantities (coordinates, velocities, angles in degrees,
//! physics constants) are held in saturating fixed-point with a scale of
//! 1000 steps per unit, so that every result is exact integer arithmetic.
//! `demo` holds the vector and tick-sample model, `bspfile` the level
//! records and their container decoder, `parse` the replay container
//! decoder, `analyze` the collision query, kinematics and optimizer,
//! and `segments` the technique extractor.

use vstd::prelude::*;

pub mod analyze;
pub mod bspfile;
pub mod bytes;
pub mod demo;
pub mod fx;
pub mod parse;
pub mod segments;

verus! {

} // verus!
