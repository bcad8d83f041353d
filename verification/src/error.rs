//! Typed, recoverable errors for every facade operation. Bad input can come
//! from untrusted remote commands, so nothing here panics: each operation
//! reports exactly why it refused.

use vstd::prelude::*;

use crate::ledger::ActivityCategory;

verus! {

/// Why a town operation was refused. Each variant names the coordinate or
/// category it was refused for.
#[derive(Clone, Copy, Debug, PartialEq, Eq, Structural)]
pub enum TownError {
    /// The coordinate lies off the grid.
    OutOfBounds(usize, usize),
    /// The target tile is a lane or already holds a building.
    NotBuildable(usize, usize),
    /// No occupancy record exists for the tile.
    NoStateForTile(usize, usize),
    /// The building's occupancy already equals its capacity.
    CapacityExceeded(usize, usize),
    /// The building's occupancy is already zero.
    Underflow(usize, usize),
    /// An activity was ended more often than it was begun.
    Imbalance(ActivityCategory),
}

} // verus!
