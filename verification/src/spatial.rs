//! Stateless spatial queries over the grid: exact squared Euclidean
//! distance, the rectified-circle radius search, and the distance from a
//! tile to the nearest lane tile. All distance tests compare squared
//! distances, so no square root is ever taken.

use vstd::prelude::*;

use crate::grid::{in_bounds, TileIndex, TownMap, TownTileType, TOWN_X, TOWN_Y};

verus! {

/// Coordinates at or above this bound are rejected by the spatial queries so
/// that every squared distance and every box edge fits the machine integers.
pub const COORD_LIMIT: usize = 0x4000_0000;

/// Squared Euclidean distance between two coordinates.
pub open spec fn dist2(a: TileIndex, b: TileIndex) -> int {
    (a.0 - b.0) * (a.0 - b.0) + (a.1 - b.1) * (a.1 - b.1)
}

/// Squared Euclidean distance, computed exactly in machine integers.
pub fn distance2(a: TileIndex, b: TileIndex) -> (r: u64)
    requires
        a.0 < COORD_LIMIT,
        a.1 < COORD_LIMIT,
        b.0 < COORD_LIMIT,
        b.1 < COORD_LIMIT,
    ensures
        r == dist2(a, b),
{
    let dx: usize = if a.0 >= b.0 {
        a.0 - b.0
    } else {
        b.0 - a.0
    };
    let dy: usize = if a.1 >= b.1 {
        a.1 - b.1
    } else {
        b.1 - a.1
    };
    proof {
        let dxi = dx as int;
        let dyi = dy as int;
        assert((dxi * dxi == (a.0 - b.0) * (a.0 - b.0)) && (dxi * dxi < 0x1000_0000_0000_0000))
            by (nonlinear_arith)
            requires
                0 <= dxi < 0x4000_0000,
                dxi == a.0 - b.0 || dxi == b.0 - a.0,
        ;
        assert((dyi * dyi == (a.1 - b.1) * (a.1 - b.1)) && (dyi * dyi < 0x1000_0000_0000_0000))
            by (nonlinear_arith)
            requires
                0 <= dyi < 0x4000_0000,
                dyi == a.1 - b.1 || dyi == b.1 - a.1,
        ;
    }
    (dx as u64) * (dx as u64) + (dy as u64) * (dy as u64)
}

/// Left edge of the bounding box of a radius search: the center's column
/// moved left by the radius, stopping at the grid edge.
pub open spec fn box_min(c: usize, r: usize) -> int {
    if c >= r {
        c - r
    } else {
        0
    }
}

/// Right edge (exclusive) of the bounding box along an axis of extent `n`:
/// one past the center's column moved right by the radius, stopping at the
/// grid edge.
pub open spec fn box_max(c: usize, r: usize, n: usize) -> int {
    if c + r + 1 > n {
        n as int
    } else {
        c + r + 1
    }
}

/// Column-then-row order on coordinates: the order in which the searches
/// walk the grid and hand tiles out.
pub open spec fn lex_before(a: TileIndex, b: TileIndex) -> bool {
    a.0 < b.0 || (a.0 == b.0 && a.1 < b.1)
}

/// Whether `t` belongs to the rectified circle around `center`: inside the
/// bounding box of side `2 * radius + 1` clamped to the grid, and at squared
/// Euclidean distance at most `radius * radius` from the center.
pub open spec fn in_rectified_circle(center: TileIndex, radius: usize, t: TileIndex) -> bool {
    &&& box_min(center.0, radius) <= t.0 < box_max(center.0, radius, TOWN_X)
    &&& box_min(center.1, radius) <= t.1 < box_max(center.1, radius, TOWN_Y)
    &&& dist2(center, t) <= radius * radius
}

/// All grid tiles within `radius` of `tile`, by exact squared-distance test
/// over a bounding box clamped to the grid edges — the search never wraps
/// or fails at the border. Tiles come out in ascending column-then-row
/// order, each at most once.
pub fn tiles_in_rectified_circle(tile: TileIndex, radius: usize) -> (res: Vec<TileIndex>)
    requires
        tile.0 < COORD_LIMIT,
        tile.1 < COORD_LIMIT,
        radius < COORD_LIMIT,
    ensures
        forall|t: TileIndex| res@.contains(t) <==> in_rectified_circle(tile, radius, t),
        forall|p: int, q: int|
            0 <= p < q < res@.len() ==> lex_before(#[trigger] res@[p], #[trigger] res@[q]),
        res@.no_duplicates(),
{
    let r = radius;
    let xmin: usize = if tile.0 >= r {
        tile.0 - r
    } else {
        0
    };
    let ymin: usize = if tile.1 >= r {
        tile.1 - r
    } else {
        0
    };
    let xmax: usize = if tile.0 + r + 1 > TOWN_X {
        TOWN_X
    } else {
        tile.0 + r + 1
    };
    let ymax: usize = if tile.1 + r + 1 > TOWN_Y {
        TOWN_Y
    } else {
        tile.1 + r + 1
    };
    let r2: u64 = {
        proof {
            assert(((r as int) * (r as int)) < 0x1000_0000_0000_0000) by (nonlinear_arith)
                requires
                    0 <= (r as int) < 0x4000_0000,
            ;
        }
        (r as u64) * (r as u64)
    };
    let mut res: Vec<TileIndex> = Vec::new();
    let mut x: usize = xmin;
    while x < xmax
        invariant
            xmin <= x <= xmax || x == xmin,
            tile.0 < COORD_LIMIT,
            tile.1 < COORD_LIMIT,
            radius < COORD_LIMIT,
            r == radius,
            xmin == box_min(tile.0, radius),
            ymin == box_min(tile.1, radius),
            xmax == box_max(tile.0, radius, TOWN_X),
            ymax == box_max(tile.1, radius, TOWN_Y),
            r2 == radius * radius,
            forall|t: TileIndex|
                res@.contains(t) <==> (in_rectified_circle(tile, radius, t) && t.0 < x),
            forall|k: int| 0 <= k < res@.len() ==> (#[trigger] res@[k]).0 < x,
            forall|p: int, q: int|
                0 <= p < q < res@.len() ==> lex_before(#[trigger] res@[p], #[trigger] res@[q]),
            res@.no_duplicates(),
        decreases xmax - x,
    {
        let mut y: usize = ymin;
        while y < ymax
            invariant
                xmin <= x < xmax,
                ymin <= y <= ymax || y == ymin,
                tile.0 < COORD_LIMIT,
                tile.1 < COORD_LIMIT,
                radius < COORD_LIMIT,
                r == radius,
                xmin == box_min(tile.0, radius),
                ymin == box_min(tile.1, radius),
                xmax == box_max(tile.0, radius, TOWN_X),
                ymax == box_max(tile.1, radius, TOWN_Y),
                r2 == radius * radius,
                forall|t: TileIndex|
                    res@.contains(t) <==> (in_rectified_circle(tile, radius, t) && (t.0 < x || (
                    t.0 == x && t.1 < y))),
                forall|k: int|
                    0 <= k < res@.len() ==> ((#[trigger] res@[k]).0 < x || (res@[k].0 == x
                        && res@[k].1 < y)),
                forall|p: int, q: int|
                    0 <= p < q < res@.len() ==> lex_before(#[trigger] res@[p], #[trigger] res@[q]),
                res@.no_duplicates(),
            decreases ymax - y,
        {
            if distance2(tile, (x, y)) <= r2 {
                let ghost pre = res@;
                res.push((x, y));
                proof {
                    assert forall|t: TileIndex| res@.contains(t) implies (pre.contains(t) || t
                        == ((x, y))) by {
                        let k = choose|k: int| 0 <= k < res@.len() && res@[k] == t;
                        if k < pre.len() {
                            assert(pre[k] == t);
                        }
                    }
                    assert forall|t: TileIndex| pre.contains(t) implies res@.contains(t) by {
                        let k = choose|k: int| 0 <= k < pre.len() && pre[k] == t;
                        assert(res@[k] == t);
                    }
                    assert(res@[pre.len() as int] == ((x, y)));
                    assert(res@.contains((x, y)));
                    assert(forall|k: int| 0 <= k < pre.len() ==> #[trigger] pre[k] != ((x, y)));
                    assert forall|p: int, q: int|
                        0 <= p < res@.len() && 0 <= q < res@.len() && p != q implies res@[p]
                        != res@[q] by {
                        if p < pre.len() && q < pre.len() {
                            assert(pre[p] == res@[p] && pre[q] == res@[q]);
                        }
                    }
                    assert forall|p: int, q: int|
                        0 <= p < q < res@.len() implies lex_before(
                        #[trigger] res@[p],
                        #[trigger] res@[q],
                    ) by {
                        if q < pre.len() {
                            assert(pre[p] == res@[p] && pre[q] == res@[q]);
                        } else {
                            assert(res@[q] == ((x, y)));
                            assert(pre[p] == res@[p]);
                        }
                    }
                }
            }
            y = y + 1;
        }
        x = x + 1;
    }
    res
}

/// Whether the grid has a lane tile at `t`.
pub open spec fn is_lane_at(m: TownMap, t: TileIndex) -> bool {
    in_bounds(t) && m.spec_tile(t) == TownTileType::Lane
}

/// The grid tiles a column-by-column scan has visited before reaching
/// column `x`, row `y`.
spec fn scanned(x: int, y: int, t: TileIndex) -> bool {
    in_bounds(t) && ((t.0 as int) < x || (t.0 as int == x && (t.1 as int) < y))
}

/// The squared Euclidean distance from `i` to the nearest lane tile of the
/// grid, or `None` when the grid has no lane tile at all.
pub fn distance_to_lane_squared(map: &TownMap, i: TileIndex) -> (r: Option<u64>)
    requires
        map.wf(),
        i.0 < COORD_LIMIT,
        i.1 < COORD_LIMIT,
    ensures
        r is None <==> (forall|t: TileIndex| !is_lane_at(*map, t)),
        r matches Some(d) ==> (exists|t: TileIndex| is_lane_at(*map, t) && dist2(i, t) == d) && (
        forall|t: TileIndex| is_lane_at(*map, t) ==> dist2(i, t) >= d),
    {
    let mut best: Option<u64> = None;
    let mut x: usize = 0;
    while x < TOWN_X
        invariant
            x <= TOWN_X,
            map.wf(),
            i.0 < COORD_LIMIT,
            i.1 < COORD_LIMIT,
            best is None <==> (forall|t: TileIndex|
                is_lane_at(*map, t) ==> !#[trigger] scanned(x as int, 0, t)),
            best matches Some(d) ==> (exists|t: TileIndex|
                is_lane_at(*map, t) && #[trigger] scanned(x as int, 0, t) && dist2(i, t) == d) && (
            forall|t: TileIndex|
                is_lane_at(*map, t) && #[trigger] scanned(x as int, 0, t) ==> dist2(i, t) >= d),
        decreases TOWN_X - x,
    {
        let mut y: usize = 0;
        while y < TOWN_Y
            invariant
                x < TOWN_X,
                y <= TOWN_Y,
                map.wf(),
                i.0 < COORD_LIMIT,
                i.1 < COORD_LIMIT,
                best is None <==> (forall|t: TileIndex|
                    is_lane_at(*map, t) ==> !#[trigger] scanned(x as int, y as int, t)),
                best matches Some(d) ==> (exists|t: TileIndex|
                    is_lane_at(*map, t) && #[trigger] scanned(x as int, y as int, t) && dist2(i, t)
                        == d) && (forall|t: TileIndex|
                    is_lane_at(*map, t) && #[trigger] scanned(x as int, y as int, t) ==> dist2(
                        i,
                        t,
                    ) >= d),
            decreases TOWN_Y - y,
        {
            let here = (x, y);
            let tt = map.tile_type(here);
            if tt == Some(TownTileType::Lane) {
                let d = distance2(i, here);
                let next = match best {
                    None => d,
                    Some(b) => if d < b {
                        d
                    } else {
                        b
                    },
                };
                proof {
                    assert(scanned(x as int, y as int + 1, here));
                    if let Some(b) = best {
                        if b <= d {
                            let w = choose|t: TileIndex|
                                is_lane_at(*map, t) && scanned(x as int, y as int, t) && dist2(
                                    i,
                                    t,
                                ) == b;
                            assert(scanned(x as int, y as int + 1, w));
                        }
                    }
                }
                best = Some(next);
            }
            proof {
                assert forall|t: TileIndex| #[trigger]
                    scanned(x as int, y as int + 1, t) implies scanned(x as int, y as int, t) || t
                    == here by {}
                if tt != Some(TownTileType::Lane) {
                    assert(!is_lane_at(*map, here));
                    if let Some(b) = best {
                        let w = choose|t: TileIndex|
                            is_lane_at(*map, t) && scanned(x as int, y as int, t) && dist2(i, t)
                                == b;
                        assert(scanned(x as int, y as int + 1, w));
                    }
                }
            }
            y = y + 1;
        }
        proof {
            assert forall|t: TileIndex| #[trigger]
                scanned(x as int + 1, 0, t) implies scanned(x as int, TOWN_Y as int, t) by {}
            if let Some(b) = best {
                let w = choose|t: TileIndex|
                    is_lane_at(*map, t) && scanned(x as int, TOWN_Y as int, t) && dist2(i, t)
                        == b;
                assert(scanned(x as int + 1, 0, w));
            }
        }
        x = x + 1;
    }
    proof {
        if let Some(d) = best {
            assert forall|t: TileIndex| is_lane_at(*map, t) implies dist2(i, t) >= d by {
                assert(scanned(x as int, 0, t));
            }
            let w = choose|t: TileIndex|
                is_lane_at(*map, t) && scanned(x as int, 0, t) && dist2(i, t) == d;
            assert(is_lane_at(*map, w) && dist2(i, w) == d);
        } else {
            assert forall|t: TileIndex| !is_lane_at(*map, t) by {
                if is_lane_at(*map, t) {
                    assert(scanned(x as int, 0, t));
                }
            }
        }
    }
    best
}

} // verus!
