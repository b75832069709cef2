//! Causal, time-ordered keyframe series for choreographing drone shows:
//! 3D position trajectories, RGB light programs and yaw-angle setpoint
//! lists, together with a generic divide-and-conquer keyframe
//! simplification engine bounded by a caller-chosen error tolerance.
//!
//! Times, coordinates and angles are fixed-point integers in domain
//! units (seconds, meters, degrees at the caller's chosen resolution),
//! so every deviation computation is exact rational arithmetic.

pub mod color;
pub mod light_program;
pub mod metric;
pub mod point;
pub mod series;
pub mod simplify;
pub mod trajectory;
pub mod yaw;
