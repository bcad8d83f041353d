//! The town facade: the one externally visible aggregate. It owns the tile
//! grid, the per-tile occupancy registry and the activity ledger, funnels
//! every mutation through typed, recoverable operations, and keeps the grid
//! and the registry in agreement — an occupancy record exists for a tile
//! exactly while that tile holds a building, and the record's capacity is
//! the one its building kind fixes.

use vstd::prelude::*;

use crate::error::TownError;
use crate::grid::{
    basic_tile, in_bounds, kind_capacity, BuildingKind, TileIndex, TownLayout, TownMap,
    TownTileType,
};
use crate::ledger::{
    spec_begin, spec_capacity, spec_end, spec_usage, ActivityCategory, ActivityLedger,
};
use crate::registry::{
    add_entity_step, remove_entity_step, OwnerRef, TileState, TileStateRegistry,
};
use crate::spatial::{
    dist2, distance_to_lane_squared, in_rectified_circle, is_lane_at, lex_before,
    tiles_in_rectified_circle, COORD_LIMIT,
};

verus! {

/// The work a worker can be sent to do. Tasks that consume a shared town
/// resource while they run map to an activity category; the rest leave the
/// ledger alone.
#[derive(Clone, Copy, Debug, PartialEq, Eq, Structural)]
pub enum TaskType {
    Idle,
    Walk,
    Defend,
    ChopTree,
}

/// The activity category a task occupies while it runs, if any: chopping a
/// tree consumes forest capacity, the other tasks consume nothing.
pub open spec fn spec_task_category(t: TaskType) -> Option<ActivityCategory> {
    match t {
        TaskType::ChopTree => Some(ActivityCategory::Forestry),
        TaskType::Idle | TaskType::Walk | TaskType::Defend => None,
    }
}

/// The town: grid, occupancy registry and activity ledger behind one
/// exclusive-access boundary, so that no caller can see a placement or a
/// removal half-applied.
pub struct Town {
    map: TownMap,
    state: TileStateRegistry,
    ledger: ActivityLedger,
}

impl Town {
    /// The grid the spatial queries run over.
    pub closed spec fn map_view(self) -> TownMap {
        self.map
    }

    /// The tile type at a coordinate; meaningful only on the grid.
    pub open spec fn tile_at(self, i: TileIndex) -> TownTileType {
        self.map_view().spec_tile(i)
    }

    /// The occupancy record at a coordinate; `None` off the grid and on
    /// tiles without a building.
    pub closed spec fn state_at(self, i: TileIndex) -> Option<TileState> {
        self.state.spec_state(i)
    }

    /// The activity ledger.
    pub closed spec fn ledger_view(self) -> ActivityLedger {
        self.ledger
    }

    /// The town invariant: grid and registry are well formed and never
    /// disagree — a record exists exactly for building tiles, and each
    /// record's capacity is the one fixed by the building's kind.
    pub closed spec fn inv(self) -> bool {
        &&& self.map.wf()
        &&& self.state.wf()
        &&& forall|i: TileIndex|
            in_bounds(i) ==> ((#[trigger] self.state.spec_state(i)) is Some <==> self.map.spec_tile(
                i,
            ) is Building)
        &&& forall|i: TileIndex|
            in_bounds(i) ==> ((#[trigger] self.map.spec_tile(i)) matches TownTileType::Building(k)
                ==> (self.state.spec_state(i) matches Some(s) && s.capacity == kind_capacity(k)))
    }
}

/// Both stores unchanged on every tile: what a refused operation, and one
/// that only touches the ledger, leaves behind.
pub open spec fn grid_unchanged(pre: Town, post: Town) -> bool {
    &&& forall|j: TileIndex| in_bounds(j) ==> post.tile_at(j) == pre.tile_at(j)
    &&& forall|j: TileIndex| post.state_at(j) == pre.state_at(j)
}

/// What `place_building` leaves behind: success exactly on a buildable
/// on-grid tile, where the tile becomes a building of the given kind with a
/// fresh record — owner as given, capacity fixed by the kind, occupancy
/// zero. A refused placement names why and changes nothing; the ledger and
/// every other tile are never touched.
pub open spec fn place_building_post(
    pre: Town,
    post: Town,
    i: TileIndex,
    kind: BuildingKind,
    owner: OwnerRef,
    r: Result<(), TownError>,
) -> bool {
    &&& post.ledger_view() == pre.ledger_view()
    &&& (r is Ok <==> in_bounds(i) && pre.tile_at(i) is Empty)
    &&& (!in_bounds(i) ==> r == Err::<(), TownError>(TownError::OutOfBounds(i.0, i.1)))
    &&& (in_bounds(i) && !(pre.tile_at(i) is Empty) ==> r == Err::<(), TownError>(
        TownError::NotBuildable(i.0, i.1),
    ))
    &&& (r is Ok ==> post.tile_at(i) == TownTileType::Building(kind) && post.state_at(i) == Some(
        TileState { owner, capacity: kind_capacity(kind), occupancy: 0 },
    ))
    &&& (r is Err ==> grid_unchanged(pre, post))
    &&& (forall|j: TileIndex| in_bounds(j) && j != i ==> post.tile_at(j) == pre.tile_at(j))
    &&& (forall|j: TileIndex| j != i ==> post.state_at(j) == pre.state_at(j))
}

/// What `remove_building` leaves behind: success exactly where a record
/// exists, the tile back to `Empty`, the record gone and its owner handed
/// back; `NoStateForTile` and no change anywhere else.
pub open spec fn remove_building_post(
    pre: Town,
    post: Town,
    i: TileIndex,
    r: Result<OwnerRef, TownError>,
) -> bool {
    &&& post.ledger_view() == pre.ledger_view()
    &&& (r is Ok <==> pre.state_at(i) is Some)
    &&& (pre.state_at(i) matches Some(s) ==> r == Ok::<OwnerRef, TownError>(s.owner)
        && post.tile_at(i) == TownTileType::Empty && post.state_at(i) is None)
    &&& (pre.state_at(i) is None ==> r == Err::<OwnerRef, TownError>(
        TownError::NoStateForTile(i.0, i.1),
    ) && grid_unchanged(pre, post))
    &&& (forall|j: TileIndex| in_bounds(j) && j != i ==> post.tile_at(j) == pre.tile_at(j))
    &&& (forall|j: TileIndex| j != i ==> post.state_at(j) == pre.state_at(j))
}

/// What `add_entity_to_building` leaves behind: one more occupant where a
/// record exists and has room; `CapacityExceeded` at capacity and
/// `NoStateForTile` where no record exists, each leaving everything
/// unchanged. The grid and the ledger are never touched.
pub open spec fn add_entity_post(
    pre: Town,
    post: Town,
    i: TileIndex,
    r: Result<(), TownError>,
) -> bool {
    &&& post.ledger_view() == pre.ledger_view()
    &&& (forall|j: TileIndex| in_bounds(j) ==> post.tile_at(j) == pre.tile_at(j))
    &&& (forall|j: TileIndex| j != i ==> post.state_at(j) == pre.state_at(j))
    &&& match pre.state_at(i) {
        None => r == Err::<(), TownError>(TownError::NoStateForTile(i.0, i.1)) && post.state_at(i)
            == pre.state_at(i),
        Some(s) => if s.occupancy < s.capacity {
            r == Ok::<(), TownError>(()) && (post.state_at(i) matches Some(p) && add_entity_step(
                s,
                p,
            ))
        } else {
            r == Err::<(), TownError>(TownError::CapacityExceeded(i.0, i.1)) && post.state_at(i)
                == pre.state_at(i)
        },
    }
}

/// What `remove_entity_from_building` leaves behind: one occupant fewer
/// where a record exists and is occupied; `Underflow` at occupancy zero and
/// `NoStateForTile` where no record exists, each leaving everything
/// unchanged. The grid and the ledger are never touched.
pub open spec fn remove_entity_post(
    pre: Town,
    post: Town,
    i: TileIndex,
    r: Result<(), TownError>,
) -> bool {
    &&& post.ledger_view() == pre.ledger_view()
    &&& (forall|j: TileIndex| in_bounds(j) ==> post.tile_at(j) == pre.tile_at(j))
    &&& (forall|j: TileIndex| j != i ==> post.state_at(j) == pre.state_at(j))
    &&& match pre.state_at(i) {
        None => r == Err::<(), TownError>(TownError::NoStateForTile(i.0, i.1)) && post.state_at(i)
            == pre.state_at(i),
        Some(s) => if s.occupancy > 0 {
            r == Ok::<(), TownError>(()) && (post.state_at(i) matches Some(p)
                && remove_entity_step(s, p))
        } else {
            r == Err::<(), TownError>(TownError::Underflow(i.0, i.1)) && post.state_at(i)
                == pre.state_at(i)
        },
    }
}

impl Town {
    /// A fresh town: the basic layout, no building anywhere, and a ledger
    /// with every counter and every capacity zero.
    pub fn new() -> (t: Town)
        ensures
            t.inv(),
            forall|i: TileIndex| in_bounds(i) ==> t.tile_at(i) == basic_tile(i),
            forall|i: TileIndex| t.state_at(i) is None,
            forall|c: ActivityCategory| spec_usage(t.ledger_view(), c) == 0,
            forall|c: ActivityCategory| spec_capacity(t.ledger_view(), c) == 0,
    {
        Town {
            map: TownMap::new(TownLayout::Basic),
            state: TileStateRegistry::new(),
            ledger: ActivityLedger::new(),
        }
    }

    /// The tile type at `index`, or `None` exactly when `index` is off the
    /// grid.
    pub fn tile_type(&self, index: TileIndex) -> (r: Option<TownTileType>)
        requires
            self.inv(),
        ensures
            r == if in_bounds(index) {
                Some(self.tile_at(index))
            } else {
                None::<TownTileType>
            },
    {
        self.map.tile_type(index)
    }

    /// Whether a structure may be placed at `i`: on the grid and empty.
    pub fn is_buildable(&self, i: TileIndex) -> (r: bool)
        requires
            self.inv(),
        ensures
            r == (in_bounds(i) && self.tile_at(i) is Empty),
    {
        match self.map.tile_type(i) {
            Some(t) => t.is_buildable(),
            None => false,
        }
    }

    /// The already-projected grid coordinate of a world position, kept
    /// exactly when a structure may be placed there.
    pub fn get_buildable_tile(&self, pos: TileIndex) -> (r: Option<TileIndex>)
        requires
            self.inv(),
        ensures
            r == if in_bounds(pos) && self.tile_at(pos) is Empty {
                Some(pos)
            } else {
                None::<TileIndex>
            },
    {
        if self.is_buildable(pos) {
            Some(pos)
        } else {
            None
        }
    }

    /// Places a building of the given kind for the given owner. Refuses an
    /// off-grid coordinate with `OutOfBounds` and a lane or occupied tile
    /// with `NotBuildable`; bad input is expected from untrusted commands
    /// and never brings the town down. On success the grid and the registry
    /// move together: no caller can see one updated without the other.
    pub fn place_building(&mut self, i: TileIndex, kind: BuildingKind, owner: OwnerRef) -> (r:
        Result<(), TownError>)
        requires
            old(self).inv(),
        ensures
            final(self).inv(),
            place_building_post(*old(self), *final(self), i, kind, owner, r),
    {
        match self.map.tile_type(i) {
            None => Err(TownError::OutOfBounds(i.0, i.1)),
            Some(TownTileType::Empty) => {
                let cap = kind.capacity();
                let _ = self.map.set_tile_type(i, TownTileType::Building(kind));
                let state = TileState::new_building(owner, cap, 0);
                self.state.insert(i, state);
                Ok(())
            },
            Some(_) => Err(TownError::NotBuildable(i.0, i.1)),
        }
    }

    /// Removes the building at `i`, restores the tile to `Empty` and hands
    /// the owner reference back to the caller — the caller, not the town,
    /// decides what becomes of the owning entity. Fails with
    /// `NoStateForTile` where no building stands, and then changes nothing.
    pub fn remove_building(&mut self, i: TileIndex) -> (r: Result<OwnerRef, TownError>)
        requires
            old(self).inv(),
        ensures
            final(self).inv(),
            remove_building_post(*old(self), *final(self), i, r),
    {
        match self.state.get(i) {
            None => Err(TownError::NoStateForTile(i.0, i.1)),
            Some(s) => {
                let _ = self.map.set_tile_type(i, TownTileType::Empty);
                self.state.remove(i);
                Ok(s.owner)
            },
        }
    }

    /// The kind of the building at `i`: `OutOfBounds` off the grid,
    /// `NoStateForTile` on a tile without a building.
    pub fn building_type(&self, i: TileIndex) -> (r: Result<BuildingKind, TownError>)
        requires
            self.inv(),
        ensures
            !in_bounds(i) ==> r == Err::<BuildingKind, TownError>(
                TownError::OutOfBounds(i.0, i.1),
            ),
            in_bounds(i) ==> match self.tile_at(i) {
                TownTileType::Building(k) => r == Ok::<BuildingKind, TownError>(k),
                _ => r == Err::<BuildingKind, TownError>(TownError::NoStateForTile(i.0, i.1)),
            },
    {
        match self.map.tile_type(i) {
            None => Err(TownError::OutOfBounds(i.0, i.1)),
            Some(TownTileType::Building(k)) => Ok(k),
            Some(_) => Err(TownError::NoStateForTile(i.0, i.1)),
        }
    }

    /// Adds one worker entity to the building at `i`; see `add_entity_post`
    /// for exactly when it succeeds and fails.
    pub fn add_entity_to_building(&mut self, i: TileIndex) -> (r: Result<(), TownError>)
        requires
            old(self).inv(),
        ensures
            final(self).inv(),
            add_entity_post(*old(self), *final(self), i, r),
    {
        self.state.try_add_entity(i)
    }

    /// Removes one worker entity from the building at `i`; see
    /// `remove_entity_post` for exactly when it succeeds and fails.
    pub fn remove_entity_from_building(&mut self, i: TileIndex) -> (r: Result<(), TownError>)
        requires
            old(self).inv(),
        ensures
            final(self).inv(),
            remove_entity_post(*old(self), *final(self), i, r),
    {
        self.state.try_remove_entity(i)
    }

    /// The configured forest capacity.
    pub fn forest_size(&self) -> (r: usize)
        ensures
            r == spec_capacity(self.ledger_view(), ActivityCategory::Forestry),
    {
        self.ledger.capacity(ActivityCategory::Forestry)
    }

    /// Sets the forest capacity; usage and the stores are untouched.
    pub fn update_forest_size(&mut self, new_score: usize)
        requires
            old(self).inv(),
        ensures
            final(self).inv(),
            grid_unchanged(*old(self), *final(self)),
            spec_capacity(final(self).ledger_view(), ActivityCategory::Forestry) == new_score,
            spec_usage(final(self).ledger_view(), ActivityCategory::Forestry) == spec_usage(
                old(self).ledger_view(),
                ActivityCategory::Forestry,
            ),
    {
        self.ledger.set_capacity(ActivityCategory::Forestry, new_score);
    }

    /// Raises the forest capacity by `add_score`; usage and the stores are
    /// untouched.
    pub fn grow_forest(&mut self, add_score: usize)
        requires
            old(self).inv(),
            spec_capacity(old(self).ledger_view(), ActivityCategory::Forestry) + add_score
                <= usize::MAX,
        ensures
            final(self).inv(),
            grid_unchanged(*old(self), *final(self)),
            spec_capacity(final(self).ledger_view(), ActivityCategory::Forestry) == spec_capacity(
                old(self).ledger_view(),
                ActivityCategory::Forestry,
            ) + add_score,
            spec_usage(final(self).ledger_view(), ActivityCategory::Forestry) == spec_usage(
                old(self).ledger_view(),
                ActivityCategory::Forestry,
            ),
    {
        let cur = self.ledger.capacity(ActivityCategory::Forestry);
        self.ledger.set_capacity(ActivityCategory::Forestry, cur + add_score);
    }

    /// The live count of running forestry activities.
    pub fn forest_usage(&self) -> (r: usize)
        ensures
            r == spec_usage(self.ledger_view(), ActivityCategory::Forestry),
    {
        self.ledger.usage(ActivityCategory::Forestry)
    }

    /// Forest capacity minus forest usage, exactly; negative when the
    /// capacity setting is already inconsistent, which is surfaced, not
    /// clamped.
    pub fn forest_size_free(&self) -> (r: i128)
        ensures
            r == spec_capacity(self.ledger_view(), ActivityCategory::Forestry) - spec_usage(
                self.ledger_view(),
                ActivityCategory::Forestry,
            ),
    {
        self.ledger.free(ActivityCategory::Forestry)
    }

    /// Call this when a worker begins a task that has an effect on the
    /// town's state: the task's category, if it has one, is begun on the
    /// ledger; a task without a category changes nothing. Always succeeds.
    pub fn add_stateful_task(&mut self, task: TaskType) -> (r: Result<(), TownError>)
        requires
            old(self).inv(),
            spec_task_category(task) matches Some(c) ==> spec_usage(old(self).ledger_view(), c)
                < usize::MAX,
        ensures
            final(self).inv(),
            grid_unchanged(*old(self), *final(self)),
            r is Ok,
            match spec_task_category(task) {
                None => final(self).ledger_view() == old(self).ledger_view(),
                Some(c) => final(self).ledger_view() == spec_begin(old(self).ledger_view(), c),
            },
    {
        match task {
            TaskType::ChopTree => {
                self.ledger.register_begin(ActivityCategory::Forestry);
                Ok(())
            },
            TaskType::Idle | TaskType::Walk | TaskType::Defend => Ok(()),
        }
    }

    /// Call this when a worker ends a task that has an effect on the town's
    /// state: the task's category, if it has one, is ended on the ledger;
    /// ending more often than beginning fails with `Imbalance` and changes
    /// nothing. A task without a category always succeeds and changes
    /// nothing.
    pub fn remove_stateful_task(&mut self, task: TaskType) -> (r: Result<(), TownError>)
        requires
            old(self).inv(),
        ensures
            final(self).inv(),
            grid_unchanged(*old(self), *final(self)),
            match spec_task_category(task) {
                None => r is Ok && final(self).ledger_view() == old(self).ledger_view(),
                Some(c) => if spec_usage(old(self).ledger_view(), c) > 0 {
                    r is Ok && final(self).ledger_view() == spec_end(old(self).ledger_view(), c)
                } else {
                    r == Err::<(), TownError>(TownError::Imbalance(c)) && final(self).ledger_view()
                        == old(self).ledger_view()
                },
            },
    {
        match task {
            TaskType::ChopTree => self.ledger.register_end(ActivityCategory::Forestry),
            TaskType::Idle | TaskType::Walk | TaskType::Defend => Ok(()),
        }
    }

    /// The lane tiles a ranged structure at `pos` can affect: the rectified
    /// circle around `pos`, kept to tiles of type `Lane`.
    pub fn lane_in_range(&self, pos: TileIndex, range: usize) -> (res: Vec<TileIndex>)
        requires
            self.inv(),
            pos.0 < COORD_LIMIT,
            pos.1 < COORD_LIMIT,
            range < COORD_LIMIT,
        ensures
            forall|t: TileIndex|
                res@.contains(t) <==> (in_rectified_circle(pos, range, t) && self.tile_at(t)
                    == TownTileType::Lane),
            forall|p: int, q: int|
                0 <= p < q < res@.len() ==> lex_before(#[trigger] res@[p], #[trigger] res@[q]),
            res@.no_duplicates(),
    {
        let candidates = tiles_in_rectified_circle(pos, range);
        let mut res: Vec<TileIndex> = Vec::new();
        let mut k: usize = 0;
        while k < candidates.len()
            invariant
                self.inv(),
                k <= candidates@.len(),
                forall|t: TileIndex| #![trigger candidates@.contains(t)]
                    candidates@.contains(t) <==> in_rectified_circle(pos, range, t),
                candidates@.no_duplicates(),
                forall|t: TileIndex| #![trigger res@.contains(t)]
                    res@.contains(t) <==> ((exists|j: int|
                        0 <= j < k && candidates@[j] == t) && self.tile_at(t)
                        == TownTileType::Lane),
                forall|p: int, q: int|
                    0 <= p < q < candidates@.len() ==> lex_before(
                        #[trigger] candidates@[p],
                        #[trigger] candidates@[q],
                    ),
                forall|p: int, q: int|
                    0 <= p < q < res@.len() ==> lex_before(#[trigger] res@[p], #[trigger] res@[q]),
                res@.no_duplicates(),
            decreases candidates@.len() - k,
        {
            let c = candidates[k];
            proof {
                assert(candidates@.contains(c));
                assert(in_rectified_circle(pos, range, c));
                assert(in_bounds(c));
            }
            let ghost pre = res@;
            match self.map.tile_type(c) {
                Some(TownTileType::Lane) => {
                    proof {
                        if res@.contains(c) {
                            let j = choose|j: int| 0 <= j < k && candidates@[j] == c;
                            assert(candidates@[j] == candidates@[k as int]);
                            assert(false);
                        }
                    }
                    res.push(c);
                    proof {
                        assert forall|t: TileIndex| res@.contains(t) implies (pre.contains(t) || t
                            == c) by {
                            let j = choose|j: int| 0 <= j < res@.len() && res@[j] == t;
                            if j < pre.len() {
                                assert(pre[j] == t);
                            }
                        }
                        assert forall|t: TileIndex| pre.contains(t) implies res@.contains(t) by {
                            let j = choose|j: int| 0 <= j < pre.len() && pre[j] == t;
                            assert(res@[j] == t);
                        }
                        assert(res@[pre.len() as int] == c);
                        assert(res@.contains(c));
                        assert(forall|j: int| 0 <= j < pre.len() ==> #[trigger] pre[j] != c);
                        assert forall|p: int, q: int|
                            0 <= p < res@.len() && 0 <= q < res@.len() && p != q implies res@[p]
                            != res@[q] by {
                            if p < pre.len() && q < pre.len() {
                                assert(pre[p] == res@[p] && pre[q] == res@[q]);
                            }
                        }
                        assert forall|p: int, q: int|
                            0 <= p < q < res@.len() implies lex_before(
                            #[trigger] res@[p],
                            #[trigger] res@[q],
                        ) by {
                            if q < pre.len() {
                                assert(pre[p] == res@[p] && pre[q] == res@[q]);
                            } else {
                                assert(res@[q] == c);
                                assert(pre[p] == res@[p]);
                                assert(pre.contains(pre[p]));
                                let j = choose|j: int| 0 <= j < k && candidates@[j] == pre[p];
                                assert(lex_before(candidates@[j], candidates@[k as int]));
                            }
                        }
                    }
                },
                _ => {},
            }
            proof {
                assert forall|t: TileIndex|
                    res@.contains(t) implies ((exists|j: int|
                    0 <= j < k + 1 && candidates@[j] == t) && self.tile_at(t)
                    == TownTileType::Lane) by {
                    if pre.contains(t) {
                        let j = choose|j: int| 0 <= j < k && candidates@[j] == t;
                        assert(0 <= j < k + 1 && candidates@[j] == t);
                    } else {
                        assert(t == c);
                        assert(candidates@[k as int] == t);
                    }
                }
                assert forall|t: TileIndex|
                    ((exists|j: int| 0 <= j < k + 1 && candidates@[j] == t) && self.tile_at(t)
                        == TownTileType::Lane) implies res@.contains(t) by {
                    let j = choose|j: int| 0 <= j < k + 1 && candidates@[j] == t;
                    if j < k {
                        assert(pre.contains(t));
                    } else {
                        assert(t == c);
                    }
                }
            }
            k = k + 1;
        }
        proof {
            assert forall|t: TileIndex|
                res@.contains(t) implies (in_rectified_circle(pos, range, t) && self.tile_at(t)
                == TownTileType::Lane) by {
                let j = choose|j: int| 0 <= j < k && candidates@[j] == t;
                assert(candidates@.contains(t));
            }
            assert forall|t: TileIndex|
                (in_rectified_circle(pos, range, t) && self.tile_at(t) == TownTileType::Lane)
                    implies res@.contains(t) by {
                assert(candidates@.contains(t));
                let j = choose|j: int| 0 <= j < candidates@.len() && candidates@[j] == t;
                assert(0 <= j < k && candidates@[j] == t);
            }
        }
        res
    }

    /// The squared Euclidean distance from `i` to the nearest lane tile, or
    /// `None` when the layout has no lane at all. Placement-effectiveness
    /// logic outside the core takes the square root if it needs the plain
    /// distance.
    pub fn distance_to_lane_squared(&self, i: TileIndex) -> (r: Option<u64>)
        requires
            self.inv(),
            i.0 < COORD_LIMIT,
            i.1 < COORD_LIMIT,
        ensures
            r is None <==> (forall|t: TileIndex| !is_lane_at(self.map_view(), t)),
            r matches Some(d) ==> (exists|t: TileIndex|
                is_lane_at(self.map_view(), t) && dist2(i, t) == d) && (forall|t: TileIndex|
                is_lane_at(self.map_view(), t) ==> dist2(i, t) >= d),
    {
        let r = distance_to_lane_squared(&self.map, i);
        proof {
            if r is None {
                assert forall|t: TileIndex| !is_lane_at(self.map_view(), t) by {
                    assert(!is_lane_at(self.map, t));
                }
            } else {
                let d = r->0;
                let w = choose|t: TileIndex| is_lane_at(self.map, t) && dist2(i, t) == d;
                assert(is_lane_at(self.map_view(), w) && dist2(i, w) == d);
                assert forall|t: TileIndex| is_lane_at(self.map_view(), t) implies dist2(i, t)
                    >= d by {
                    assert(is_lane_at(self.map, t));
                }
            }
        }
        r
    }
}

/// Law: placing a building and then removing it restores the tile to
/// `Empty` and hands the same owner back; in fact the whole town is back
/// where it started — every tile, every record and the ledger.
pub proof fn lemma_place_then_remove_restores(
    t0: Town,
    t1: Town,
    t2: Town,
    i: TileIndex,
    kind: BuildingKind,
    owner: OwnerRef,
    r: Result<OwnerRef, TownError>,
)
    requires
        t0.inv(),
        place_building_post(t0, t1, i, kind, owner, Ok(())),
        remove_building_post(t1, t2, i, r),
    ensures
        r == Ok::<OwnerRef, TownError>(owner),
        t2.tile_at(i) == TownTileType::Empty,
        forall|j: TileIndex| in_bounds(j) ==> t2.tile_at(j) == t0.tile_at(j),
        forall|j: TileIndex| t2.state_at(j) == t0.state_at(j),
        t2.ledger_view() == t0.ledger_view(),
{
    assert(in_bounds(i) && t0.tile_at(i) is Empty);
    assert(t1.state_at(i) == Some(
        TileState { owner, capacity: kind_capacity(kind), occupancy: 0 },
    ));
}

} // verus!
