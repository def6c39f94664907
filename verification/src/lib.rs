//! A drifting-dot animation engine in exact fixed-point arithmetic.

pub mod clock;
pub mod config;
pub mod curve;
pub mod dot;
pub mod field;
pub mod fixed;
pub mod game;
pub mod player;
pub mod random;
