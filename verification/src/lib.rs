//! Game logic of "Shoot out your life": a vertical shooter in which every
//! shot is paid for with the player's life, which comes back when a bullet
//! hits an enemy or is caught again at the bottom line.
//!
//! The playing field works in whole pixels, so positions and velocities are
//! integer vectors here; drawing, sound, input and the floating-point particle
//! effects live in the application around this library.

pub mod geometry;
pub mod info;
pub mod bullet;
pub mod enemy;
pub mod assets;
pub mod rng;
pub mod scenes;
