//! Scenario tests of the town facade: placement, removal, occupancy,
//! stateful tasks and the lane queries, all through the public operations.

use paddlers_town::error::TownError;
use paddlers_town::grid::{BuildingKind, TownTileType, TOWN_LANE_Y, TOWN_X, TOWN_Y};
use paddlers_town::registry::OwnerRef;
use paddlers_town::town::{TaskType, Town};

#[test]
fn place_then_remove_restores_empty_and_returns_the_owner() {
    let mut t = Town::new();
    let owner = OwnerRef(42);
    let i = (3, 9);
    assert_eq!(t.place_building(i, BuildingKind::Tree, owner), Ok(()));
    assert_eq!(t.tile_type(i), Some(TownTileType::Building(BuildingKind::Tree)));
    assert_eq!(t.remove_building(i), Ok(owner));
    assert_eq!(t.tile_type(i), Some(TownTileType::Empty));
}

#[test]
fn full_placement_scenario_on_the_basic_layout() {
    // Grid 23 x 13, lane fixed at row 6.
    assert_eq!((TOWN_X, TOWN_Y, TOWN_LANE_Y), (23, 13, 6));
    let mut t = Town::new();
    let owner = OwnerRef(1);

    // The lane is not buildable.
    assert_eq!(
        t.place_building((10, 6), BuildingKind::Temple, owner),
        Err(TownError::NotBuildable(10, 6))
    );

    // A kind with capacity 2 takes exactly two entities.
    assert_eq!(BuildingKind::BundlingStation.capacity(), 2);
    assert_eq!(t.place_building((10, 5), BuildingKind::BundlingStation, owner), Ok(()));
    assert_eq!(t.add_entity_to_building((10, 5)), Ok(()));
    assert_eq!(t.add_entity_to_building((10, 5)), Ok(()));
    assert_eq!(t.add_entity_to_building((10, 5)), Err(TownError::CapacityExceeded(10, 5)));

    // Removal hands the owner back and restores the tile.
    assert_eq!(t.remove_building((10, 5)), Ok(owner));
    assert_eq!(t.tile_type((10, 5)), Some(TownTileType::Empty));
}

#[test]
fn place_building_rejects_bad_targets() {
    let mut t = Town::new();
    let owner = OwnerRef(5);
    assert_eq!(
        t.place_building((TOWN_X, 2), BuildingKind::Tree, owner),
        Err(TownError::OutOfBounds(TOWN_X, 2))
    );
    assert_eq!(t.place_building((4, 4), BuildingKind::Tree, owner), Ok(()));
    assert_eq!(
        t.place_building((4, 4), BuildingKind::SawMill, owner),
        Err(TownError::NotBuildable(4, 4))
    );
}

#[test]
fn remove_building_without_state_fails() {
    let mut t = Town::new();
    assert_eq!(t.remove_building((2, 2)), Err(TownError::NoStateForTile(2, 2)));
    assert_eq!(t.remove_building((TOWN_X, 2)), Err(TownError::NoStateForTile(TOWN_X, 2)));
}

#[test]
fn entity_counting_needs_a_building() {
    let mut t = Town::new();
    assert_eq!(t.add_entity_to_building((8, 2)), Err(TownError::NoStateForTile(8, 2)));
    assert_eq!(t.remove_entity_from_building((8, 2)), Err(TownError::NoStateForTile(8, 2)));
}

#[test]
fn remove_entity_underflows_on_a_fresh_building() {
    let mut t = Town::new();
    assert_eq!(t.place_building((8, 2), BuildingKind::SawMill, OwnerRef(2)), Ok(()));
    assert_eq!(t.remove_entity_from_building((8, 2)), Err(TownError::Underflow(8, 2)));
    assert_eq!(t.add_entity_to_building((8, 2)), Ok(()));
    assert_eq!(t.remove_entity_from_building((8, 2)), Ok(()));
    assert_eq!(t.remove_entity_from_building((8, 2)), Err(TownError::Underflow(8, 2)));
}

#[test]
fn building_type_reports_kind_or_why_not() {
    let mut t = Town::new();
    assert_eq!(t.building_type((TOWN_X, 0)), Err(TownError::OutOfBounds(TOWN_X, 0)));
    assert_eq!(t.building_type((5, 5)), Err(TownError::NoStateForTile(5, 5)));
    assert_eq!(t.building_type((5, TOWN_LANE_Y)), Err(TownError::NoStateForTile(5, TOWN_LANE_Y)));
    t.place_building((5, 5), BuildingKind::RedFlowers, OwnerRef(0)).unwrap();
    assert_eq!(t.building_type((5, 5)), Ok(BuildingKind::RedFlowers));
}

#[test]
fn get_buildable_tile_checks_the_projected_tile() {
    let mut t = Town::new();
    assert_eq!(t.get_buildable_tile((9, 9)), Some((9, 9)));
    assert_eq!(t.get_buildable_tile((9, TOWN_LANE_Y)), None);
    assert_eq!(t.get_buildable_tile((TOWN_X, 9)), None);
    t.place_building((9, 9), BuildingKind::Tree, OwnerRef(1)).unwrap();
    assert_eq!(t.get_buildable_tile((9, 9)), None);
}

#[test]
fn forest_counters_move_on_separate_paths() {
    let mut t = Town::new();
    assert_eq!(t.forest_size(), 0);
    assert_eq!(t.forest_usage(), 0);
    assert_eq!(t.forest_size_free(), 0);
    t.update_forest_size(10);
    assert_eq!(t.forest_size(), 10);
    assert_eq!(t.forest_size_free(), 10);
    t.grow_forest(5);
    assert_eq!(t.forest_size(), 15);
    assert_eq!(t.forest_usage(), 0);
}

#[test]
fn stateful_tasks_move_the_forest_usage() {
    let mut t = Town::new();
    t.update_forest_size(1);
    assert_eq!(t.add_stateful_task(TaskType::ChopTree), Ok(()));
    assert_eq!(t.forest_usage(), 1);
    // The ledger tracks balance only: a second begin passes capacity by.
    assert_eq!(t.add_stateful_task(TaskType::ChopTree), Ok(()));
    assert_eq!(t.forest_usage(), 2);
    assert_eq!(t.forest_size_free(), -1);
    assert_eq!(t.remove_stateful_task(TaskType::ChopTree), Ok(()));
    assert_eq!(t.remove_stateful_task(TaskType::ChopTree), Ok(()));
    assert_eq!(t.forest_usage(), 0);
    assert_eq!(
        t.remove_stateful_task(TaskType::ChopTree),
        Err(TownError::Imbalance(paddlers_town::ledger::ActivityCategory::Forestry))
    );
}

#[test]
fn tasks_without_a_category_leave_the_ledger_alone() {
    let mut t = Town::new();
    assert_eq!(t.add_stateful_task(TaskType::Walk), Ok(()));
    assert_eq!(t.add_stateful_task(TaskType::Idle), Ok(()));
    assert_eq!(t.remove_stateful_task(TaskType::Defend), Ok(()));
    assert_eq!(t.forest_usage(), 0);
}

#[test]
fn lane_in_range_keeps_only_lane_tiles_in_the_clamped_box() {
    let t = Town::new();
    assert_eq!(t.lane_in_range((10, 4), 2), vec![(10, 6)]);
    let none: Vec<(usize, usize)> = vec![];
    assert_eq!(t.lane_in_range((10, 0), 2), none);
    // Radius 3 from two rows above the lane reaches five lane tiles.
    assert_eq!(t.lane_in_range((10, 4), 3), vec![(8, 6), (9, 6), (10, 6), (11, 6), (12, 6)]);
}

#[test]
fn distance_to_lane_squared_on_the_town_matches_the_lane_row() {
    let t = Town::new();
    assert_eq!(t.distance_to_lane_squared((10, TOWN_LANE_Y)), Some(0));
    assert_eq!(t.distance_to_lane_squared((10, 4)), Some(4));
    assert_eq!(t.distance_to_lane_squared((0, 0)), Some(36));
}
