//! Conway's Game of Life on a fixed-size toroidal grid.
//!
//! The engine owns two parallel 2D arrays: per-cell liveness and an optional
//! per-cell color tag that records which "lineage" of seeded pattern a live
//! cell descends from.  `CellGrid::advance` steps the simulation one
//! generation, applying the standard birth/survival rule with wraparound
//! neighbor counting and propagating color tags to newly born cells by
//! majority vote over their neighbors.

pub mod color;
pub mod grid;
pub mod laws;
pub mod patterns;
