//! Core model of a player-owned settlement: a fixed-size tile grid whose
//! tiles can hold capacity-limited structures, a sparse per-tile occupancy
//! ledger, town-wide balanced activity counters, and the spatial queries
//! used to answer range and lane-distance questions about the grid.
//!
//! All mutation funnels through the [`town::Town`] facade, which keeps the
//! grid and the per-tile state registry in agreement at every step.

pub mod error;
pub mod grid;
pub mod ledger;
pub mod registry;
pub mod spatial;
pub mod town;
