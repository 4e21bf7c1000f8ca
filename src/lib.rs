//! Simulation core of a small arcade game: wandering shapes, the player's
//! cone of sight, and the courage/level progression that encounters drive.
//!
//! Lengths are in thousandths of a world unit, directions are vectors whose
//! unit length is `geometry::UNIT`, and time is in milliseconds.
pub mod assets;
pub mod chance;
pub mod entities;
pub mod geometry;
pub mod player;
pub mod world;
