//! Axis-aligned rectangle partitioning.
//!
//! Given an outer rectangle, an ordered list of positive weights and a target
//! aspect ratio, the dividing engine produces one sub-rectangle per weight,
//! index-aligned with the weights, with areas proportional to the weights and
//! each piece shaped close to the target ratio (an order-preserving variant of
//! the squarified-treemap family).
//!
//! All geometry is exact integer arithmetic over `i64`; the target aspect
//! ratio is an exact rational. Every operation constructs new values and
//! never mutates its receiver.

pub mod area;
pub mod axis;
pub mod axis_aligned_rectangle;
pub mod direction;
pub mod dividing;
pub mod division_laws;
pub mod point;
pub mod ratio;
pub mod rectangle;
pub mod rotate;
pub mod vector;
pub mod weight;
