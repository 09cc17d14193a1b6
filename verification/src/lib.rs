//! A first-person camera and orbital light kinematics library.
//!
//! All quantities are Q47.16 fixed-point numbers stored in `i64`: one world
//! unit is `fixed::SCALE` steps, angles are degrees (or radians where noted)
//! in the same representation.  Every update rule is specified exactly over
//! the integers, so the derived camera frame is provably orthogonal and the
//! view matrix is provably the product of its rotation and translation parts.

pub mod camera;
pub mod fixed;
pub mod light;
pub mod trig;
pub mod matrix;
pub mod quaternion;
pub mod vector;

use vstd::prelude::*;

verus! {

} // verus!
