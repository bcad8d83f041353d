//! The fixed-size tile grid: tile coordinates, tile types, building kinds,
//! and the bounds-checked map of tile types.

use vstd::prelude::*;

use crate::error::TownError;

verus! {

/// Width of the town grid, in tiles.
pub const TOWN_X: usize = 23;

/// Height of the town grid, in tiles.
pub const TOWN_Y: usize = 13;

/// Row occupied by the fixed lane in the basic layout.
pub const TOWN_LANE_Y: usize = 6;

/// A grid coordinate `(x, y)`; it lies on the grid when `x < TOWN_X` and
/// `y < TOWN_Y`.
pub type TileIndex = (usize, usize);

/// Whether a coordinate lies on the grid.
pub open spec fn in_bounds(i: TileIndex) -> bool {
    i.0 < TOWN_X && i.1 < TOWN_Y
}

/// The kinds of structure a tile can hold. The kind fixes the capacity of
/// the structure at placement.
#[derive(Clone, Copy, Debug, PartialEq, Eq, Structural)]
pub enum BuildingKind {
    BlueFlowers,
    RedFlowers,
    Tree,
    BundlingStation,
    SawMill,
    Temple,
}

/// Capacity of a structure of the given kind: the greatest number of
/// entities that may occupy it at once. Always positive.
pub open spec fn kind_capacity(k: BuildingKind) -> usize {
    match k {
        BuildingKind::BlueFlowers => 1,
        BuildingKind::RedFlowers => 1,
        BuildingKind::Tree => 1,
        BuildingKind::BundlingStation => 2,
        BuildingKind::SawMill => 2,
        BuildingKind::Temple => 3,
    }
}

impl BuildingKind {
    /// The capacity a structure of this kind has at placement.
    pub fn capacity(&self) -> (c: usize)
        ensures
            c == kind_capacity(*self),
            c >= 1,
    {
        match self {
            BuildingKind::BlueFlowers => 1,
            BuildingKind::RedFlowers => 1,
            BuildingKind::Tree => 1,
            BuildingKind::BundlingStation => 2,
            BuildingKind::SawMill => 2,
            BuildingKind::Temple => 3,
        }
    }
}

/// What a tile of the grid holds. `Lane` tiles are fixed at layout creation
/// and never change; `Empty` and `Building` alternate through placement and
/// removal.
#[derive(Clone, Copy, Debug, PartialEq, Eq, Structural)]
pub enum TownTileType {
    Empty,
    Building(BuildingKind),
    Lane,
}

impl TownTileType {
    /// A structure may be placed only on an empty tile.
    pub fn is_buildable(&self) -> (r: bool)
        ensures
            r == (*self is Empty),
    {
        match self {
            TownTileType::Empty => true,
            TownTileType::Building(_) | TownTileType::Lane => false,
        }
    }

    /// Workers can walk over empty tiles and over the lane, not through
    /// buildings.
    pub fn is_walkable(&self) -> (r: bool)
        ensures
            r == (*self is Empty || *self is Lane),
    {
        match self {
            TownTileType::Empty | TownTileType::Lane => true,
            TownTileType::Building(_) => false,
        }
    }
}

/// The fixed layouts a town can be created with.
#[derive(Clone, Copy, Debug, PartialEq, Eq, Structural)]
pub enum TownLayout {
    /// A single horizontal lane at row `TOWN_LANE_Y`; every other tile empty.
    Basic,
}

/// The tile type a fresh basic-layout grid assigns to a coordinate.
pub open spec fn basic_tile(i: TileIndex) -> TownTileType {
    if i.1 == TOWN_LANE_Y {
        TownTileType::Lane
    } else {
        TownTileType::Empty
    }
}

/// Fixed-size 2D grid of tile types, stored row-by-column in one vector.
pub struct TownMap {
    tiles: Vec<TownTileType>,
}

impl TownMap {
    /// The grid holds exactly one tile type per coordinate.
    pub closed spec fn wf(self) -> bool {
        self.tiles@.len() == TOWN_X * TOWN_Y
    }

    /// The tile type at a coordinate; meaningful only on the grid.
    pub closed spec fn spec_tile(self, i: TileIndex) -> TownTileType
        recommends
            in_bounds(i),
    {
        self.tiles@[i.0 as int * TOWN_Y as int + i.1 as int]
    }

    /// The basic layout: one lane row at `TOWN_LANE_Y`, all else empty.
    pub fn basic_map() -> (m: TownMap)
        ensures
            m.wf(),
            forall|i: TileIndex| in_bounds(i) ==> m.spec_tile(i) == basic_tile(i),
    {
        let mut tiles: Vec<TownTileType> = Vec::new();
        let mut x: usize = 0;
        while x < TOWN_X
            invariant
                x <= TOWN_X,
                tiles@.len() == x * TOWN_Y,
                forall|xi: int, yi: int|
                    0 <= xi < x && 0 <= yi < TOWN_Y ==> #[trigger] tiles@[xi * TOWN_Y as int + yi]
                        == basic_tile((xi as usize, yi as usize)),
            decreases TOWN_X - x,
        {
            let mut y: usize = 0;
            while y < TOWN_Y
                invariant
                    x < TOWN_X,
                    y <= TOWN_Y,
                    tiles@.len() == x * TOWN_Y + y,
                    forall|xi: int, yi: int|
                        0 <= xi < x && 0 <= yi < TOWN_Y ==> #[trigger] tiles@[xi * TOWN_Y as int
                            + yi] == basic_tile((xi as usize, yi as usize)),
                    forall|yi: int|
                        0 <= yi < y ==> #[trigger] tiles@[x as int * TOWN_Y as int + yi]
                            == basic_tile((x, yi as usize)),
                decreases TOWN_Y - y,
            {
                if y == TOWN_LANE_Y {
                    tiles.push(TownTileType::Lane);
                } else {
                    tiles.push(TownTileType::Empty);
                }
                y = y + 1;
            }
            x = x + 1;
        }
        TownMap { tiles }
    }

    /// A grid with the given fixed layout.
    pub fn new(layout: TownLayout) -> (m: TownMap)
        ensures
            m.wf(),
            layout == TownLayout::Basic ==> forall|i: TileIndex|
                in_bounds(i) ==> m.spec_tile(i) == basic_tile(i),
    {
        match layout {
            TownLayout::Basic => Self::basic_map(),
        }
    }

    /// The tile type at `index`, or `None` exactly when `index` is off the
    /// grid.
    pub fn tile_type(&self, index: TileIndex) -> (r: Option<TownTileType>)
        requires
            self.wf(),
        ensures
            r == if in_bounds(index) {
                Some(self.spec_tile(index))
            } else {
                None::<TownTileType>
            },
    {
        if index.0 < TOWN_X && index.1 < TOWN_Y {
            Some(self.tiles[index.0 * TOWN_Y + index.1])
        } else {
            None
        }
    }

    /// Bounds-checked mutation of one tile; every other tile keeps its type.
    pub fn set_tile_type(&mut self, index: TileIndex, t: TownTileType) -> (r: Result<
        (),
        TownError,
    >)
        requires
            old(self).wf(),
        ensures
            final(self).wf(),
            r is Ok <==> in_bounds(index),
            in_bounds(index) ==> final(self).spec_tile(index) == t,
            !in_bounds(index) ==> r == Err::<(), TownError>(
                TownError::OutOfBounds(index.0, index.1),
            ),
            forall|j: TileIndex|
                in_bounds(j) && j != index ==> final(self).spec_tile(j) == old(self).spec_tile(j),
    {
        if index.0 < TOWN_X && index.1 < TOWN_Y {
            self.tiles.set(index.0 * TOWN_Y + index.1, t);
            assert forall|j: TileIndex| in_bounds(j) && j != index implies j.0 as int * TOWN_Y
                as int + j.1 as int != index.0 as int * TOWN_Y as int + index.1 as int by {
                assert(j.0 as int * TOWN_Y as int + j.1 as int != index.0 as int * TOWN_Y as int
                    + index.1 as int) by (nonlinear_arith)
                    requires
                        j.1 < TOWN_Y as int,
                        index.1 < TOWN_Y as int,
                        j != index,
                        TOWN_Y as int > 0,
                ;
            }
            Ok(())
        } else {
            Err(TownError::OutOfBounds(index.0, index.1))
        }
    }
}

} // verus!
