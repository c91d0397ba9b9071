//! Core of a grid-based first-person renderer ("Wolfenstein-style" raycaster).
//!
//! All world coordinates are fixed-point integers: one tile spans `FP` units.
//! The crate provides the per-column visibility algorithm (DDA grid traversal
//! combined with ray/primitive intersection tests), the axis-separated
//! collision resolver that keeps the player inside navigable space, and the
//! event-to-behaviour binding registry that turns raw input events into
//! stable, revocable action registrations.

pub mod fixed;
pub mod vec2;
pub mod geometry;
pub mod parser;
pub mod level;
pub mod controls;
pub mod player;
