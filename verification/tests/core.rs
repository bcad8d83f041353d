//! Tests of the grid, the occupancy registry, the activity ledger and the
//! spatial queries, each taken on its own.

use paddlers_town::error::TownError;
use paddlers_town::grid::{
    BuildingKind, TownLayout, TownMap, TownTileType, TOWN_LANE_Y, TOWN_X, TOWN_Y,
};
use paddlers_town::ledger::{ActivityCategory, ActivityLedger};
use paddlers_town::registry::{OwnerRef, TileState, TileStateRegistry};
use paddlers_town::spatial::{distance2, distance_to_lane_squared, tiles_in_rectified_circle};

#[test]
fn basic_map_has_one_lane_row() {
    let m = TownMap::basic_map();
    for x in 0..TOWN_X {
        for y in 0..TOWN_Y {
            let expected = if y == TOWN_LANE_Y {
                TownTileType::Lane
            } else {
                TownTileType::Empty
            };
            assert_eq!(m.tile_type((x, y)), Some(expected));
        }
    }
}

#[test]
fn tile_type_is_total_on_grid_and_none_off_grid() {
    let m = TownMap::new(TownLayout::Basic);
    for x in 0..TOWN_X {
        for y in 0..TOWN_Y {
            assert!(m.tile_type((x, y)).is_some());
        }
    }
    assert_eq!(m.tile_type((TOWN_X, 0)), None);
    assert_eq!(m.tile_type((0, TOWN_Y)), None);
    assert_eq!(m.tile_type((TOWN_X, TOWN_Y)), None);
    assert_eq!(m.tile_type((usize::MAX, usize::MAX)), None);
}

#[test]
fn set_tile_type_is_bounds_checked() {
    let mut m = TownMap::basic_map();
    assert_eq!(m.set_tile_type((3, 2), TownTileType::Building(BuildingKind::Tree)), Ok(()));
    assert_eq!(m.tile_type((3, 2)), Some(TownTileType::Building(BuildingKind::Tree)));
    assert_eq!(m.tile_type((3, 3)), Some(TownTileType::Empty));
    assert_eq!(
        m.set_tile_type((TOWN_X, 2), TownTileType::Empty),
        Err(TownError::OutOfBounds(TOWN_X, 2))
    );
}

#[test]
fn buildable_and_walkable_follow_the_tile_type() {
    assert!(TownTileType::Empty.is_buildable());
    assert!(TownTileType::Empty.is_walkable());
    assert!(!TownTileType::Lane.is_buildable());
    assert!(TownTileType::Lane.is_walkable());
    let b = TownTileType::Building(BuildingKind::SawMill);
    assert!(!b.is_buildable());
    assert!(!b.is_walkable());
}

#[test]
fn kind_fixes_a_positive_capacity() {
    assert_eq!(BuildingKind::BundlingStation.capacity(), 2);
    assert_eq!(BuildingKind::Temple.capacity(), 3);
    for k in [
        BuildingKind::BlueFlowers,
        BuildingKind::RedFlowers,
        BuildingKind::Tree,
        BuildingKind::BundlingStation,
        BuildingKind::SawMill,
        BuildingKind::Temple,
    ] {
        assert!(k.capacity() >= 1);
    }
}

#[test]
fn registry_fills_exactly_to_capacity() {
    let mut reg = TileStateRegistry::new();
    let i = (4, 2);
    let c: usize = 3;
    reg.insert(i, TileState::new_building(OwnerRef(9), c, 0));
    for step in 0..c {
        assert_eq!(reg.get(i).unwrap().occupancy, step);
        assert_eq!(reg.try_add_entity(i), Ok(()));
    }
    assert_eq!(reg.try_add_entity(i), Err(TownError::CapacityExceeded(4, 2)));
    assert_eq!(reg.get(i).unwrap().occupancy, c);
}

#[test]
fn registry_remove_entity_underflows_at_zero() {
    let mut reg = TileStateRegistry::new();
    let i = (1, 1);
    reg.insert(i, TileState::new_building(OwnerRef(3), 2, 0));
    assert_eq!(reg.try_remove_entity(i), Err(TownError::Underflow(1, 1)));
    assert_eq!(reg.get(i).unwrap().occupancy, 0);
    assert_eq!(reg.try_add_entity(i), Ok(()));
    assert_eq!(reg.try_remove_entity(i), Ok(()));
    assert_eq!(reg.get(i).unwrap().occupancy, 0);
}

#[test]
fn registry_signals_missing_records() {
    let mut reg = TileStateRegistry::new();
    assert_eq!(reg.try_add_entity((2, 2)), Err(TownError::NoStateForTile(2, 2)));
    assert_eq!(reg.try_remove_entity((2, 2)), Err(TownError::NoStateForTile(2, 2)));
    assert_eq!(reg.get((2, 2)), None);
    assert_eq!(reg.remove((2, 2)), None);
}

#[test]
fn registry_remove_returns_the_record() {
    let mut reg = TileStateRegistry::new();
    let s = TileState::new_building(OwnerRef(11), 2, 0);
    reg.insert((6, 3), s);
    assert_eq!(reg.remove((6, 3)), Some(s));
    assert_eq!(reg.get((6, 3)), None);
}

#[test]
fn ledger_balanced_begin_end_restores_usage() {
    let mut l = ActivityLedger::new();
    let c = ActivityCategory::Forestry;
    let before = l.usage(c);
    let n = 5;
    for _ in 0..n {
        l.register_begin(c);
    }
    assert_eq!(l.usage(c), before + n);
    for _ in 0..n {
        assert_eq!(l.register_end(c), Ok(()));
    }
    assert_eq!(l.usage(c), before);
    assert_eq!(l.register_end(c), Err(TownError::Imbalance(c)));
    assert_eq!(l.usage(c), before);
}

#[test]
fn ledger_free_is_exact_and_can_go_negative() {
    let mut l = ActivityLedger::new();
    let c = ActivityCategory::Forestry;
    l.set_capacity(c, 1);
    assert_eq!(l.free(c), 1);
    l.register_begin(c);
    l.register_begin(c);
    assert_eq!(l.usage(c), 2);
    assert_eq!(l.capacity(c), 1);
    assert_eq!(l.free(c), -1);
}

#[test]
fn distance2_is_exact_squared_euclidean() {
    assert_eq!(distance2((0, 0), (0, 0)), 0);
    assert_eq!(distance2((0, 0), (3, 4)), 25);
    assert_eq!(distance2((3, 4), (0, 0)), 25);
    assert_eq!(distance2((10, 6), (10, 4)), 4);
    assert_eq!(distance2((1, 1), (2, 2)), 2);
}

#[test]
fn rectified_circle_radius_one_excludes_diagonals() {
    let v = tiles_in_rectified_circle((5, 5), 1);
    assert_eq!(v, vec![(4, 5), (5, 4), (5, 5), (5, 6), (6, 5)]);
}

#[test]
fn rectified_circle_is_clamped_at_the_grid_edge() {
    let v = tiles_in_rectified_circle((0, 0), 1);
    assert_eq!(v, vec![(0, 0), (0, 1), (1, 0)]);
    let far = tiles_in_rectified_circle((TOWN_X - 1, TOWN_Y - 1), 1);
    assert_eq!(
        far,
        vec![(TOWN_X - 2, TOWN_Y - 1), (TOWN_X - 1, TOWN_Y - 2), (TOWN_X - 1, TOWN_Y - 1)]
    );
}

#[test]
fn rectified_circle_radius_zero_is_the_center() {
    let v = tiles_in_rectified_circle((7, 3), 0);
    assert_eq!(v, vec![(7, 3)]);
}

#[test]
fn distance_to_lane_squared_finds_the_lane_row() {
    let m = TownMap::basic_map();
    assert_eq!(distance_to_lane_squared(&m, (10, TOWN_LANE_Y)), Some(0));
    assert_eq!(distance_to_lane_squared(&m, (10, 4)), Some(4));
    assert_eq!(distance_to_lane_squared(&m, (0, 0)), Some(36));
}

#[test]
fn distance_to_lane_squared_is_none_without_lanes() {
    let mut m = TownMap::basic_map();
    for x in 0..TOWN_X {
        m.set_tile_type((x, TOWN_LANE_Y), TownTileType::Empty).unwrap();
    }
    assert_eq!(distance_to_lane_squared(&m, (10, 4)), None);
}
