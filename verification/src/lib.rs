//! Fixed-point core of a local path planner for a point robot among
//! nonlinear obstacles.
//!
//! All quantities live on an integer grid whose unit is one millionth of a
//! length unit, so every formula is evaluated exactly and every contract is
//! stated over mathematical integers.

pub mod fixed;
pub mod obstacle;
pub mod problem;
pub mod replan;
pub mod sampling;
