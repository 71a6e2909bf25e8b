//! Locomotion, grounding, animation-selection and camera rules of a small
//! third-person platformer, on fixed-point values.

pub mod animation;
pub mod camera;
pub mod common;
pub mod physics;
pub mod player;
pub mod units;
