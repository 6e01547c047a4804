//! A verified core for a Conway's Game of Life simulation.
//!
//! The library holds the simulation engine: the grid store, neighbor
//! counting under three boundary topologies, the generation stepper with
//! its run/pause state, the viewport mapping between screen pixels and
//! world coordinates, and the pointer-driven cell editor. Rendering,
//! event polling and frame pacing live outside the library.

pub mod cell;
pub mod edit;
pub mod grid;
pub mod laws;
pub mod neighbor;
pub mod pattern;
pub mod stepper;
pub mod topology;
pub mod viewport;
