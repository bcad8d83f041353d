//! Sparse per-tile occupancy records for placed structures. A record exists
//! exactly for tiles that currently hold a building; keeping the record set
//! and the grid in agreement is the facade's task.

use vstd::prelude::*;

use crate::error::TownError;
use crate::grid::{in_bounds, TileIndex, TOWN_X, TOWN_Y};

verus! {

/// A non-owning back-reference to the external entity that owns a placed
/// structure. The core never creates or destroys the referenced entity; it
/// only stores the key and hands it back at removal.
#[derive(Clone, Copy, Debug, PartialEq, Eq, Hash, Structural)]
pub struct OwnerRef(pub u64);

/// The occupancy record of one placed structure: who owns it, how many
/// entities it can hold, and how many it holds now.
#[derive(Clone, Copy, Debug, PartialEq, Eq, Structural)]
pub struct TileState {
    /// Back-reference to the owning external entity.
    pub owner: OwnerRef,
    /// Greatest number of simultaneous occupants; fixed at placement.
    pub capacity: usize,
    /// Current number of occupants; always in `[0, capacity]`.
    pub occupancy: usize,
}

/// A record is well formed when its occupancy stays within its capacity.
pub open spec fn state_wf(s: TileState) -> bool {
    s.occupancy <= s.capacity
}

/// The relation a successful occupant addition leaves behind: there was room,
/// and exactly the occupancy moved, up by one.
pub open spec fn add_entity_step(pre: TileState, post: TileState) -> bool {
    &&& pre.occupancy < pre.capacity
    &&& post == TileState { occupancy: (pre.occupancy + 1) as usize, ..pre }
}

/// The relation a successful occupant removal leaves behind: the structure
/// was occupied, and exactly the occupancy moved, down by one.
pub open spec fn remove_entity_step(pre: TileState, post: TileState) -> bool {
    &&& pre.occupancy > 0
    &&& post == TileState { occupancy: (pre.occupancy - 1) as usize, ..pre }
}

impl TileState {
    /// A record for a structure placed now: the given owner and capacity,
    /// and the given starting occupancy.
    pub fn new_building(owner: OwnerRef, capacity: usize, occupancy: usize) -> (s: TileState)
        requires
            occupancy <= capacity,
        ensures
            s == (TileState { owner, capacity, occupancy }),
            state_wf(s),
    {
        TileState { owner, capacity, occupancy }
    }
}

/// Law: from a fresh record (occupancy zero), a run of successful
/// occupant additions counts the occupancy up one by one and can never
/// be longer than the capacity: exactly `capacity` consecutive
/// additions succeed, the occupancy then equals the capacity, and — by
/// the contract of `try_add_entity` — one further addition fails with
/// `CapacityExceeded` and changes nothing.
pub proof fn lemma_adds_fill_to_capacity(tr: Seq<TileState>)
    requires
        tr.len() >= 1,
        tr[0].occupancy == 0,
        forall|j: int| 0 <= j < tr.len() - 1 ==> add_entity_step(#[trigger] tr[j], tr[j + 1]),
    ensures
        forall|j: int|
            0 <= j < tr.len() ==> (#[trigger] tr[j]).occupancy == j && tr[j].capacity
                == tr[0].capacity,
        tr.len() <= tr[0].capacity + 1,
    decreases tr.len(),
{
    if tr.len() > 1 {
        let pre = tr.drop_last();
        assert forall|j: int|
            0 <= j < pre.len() - 1 implies add_entity_step(#[trigger] pre[j], pre[j + 1]) by {
            assert(pre[j] == tr[j] && pre[j + 1] == tr[j + 1]);
            assert(add_entity_step(tr[j], tr[j + 1]));
        }
        lemma_adds_fill_to_capacity(pre);
        let n = tr.len() - 1;
        assert(pre[n - 1] == tr[n - 1]);
        assert(add_entity_step(tr[n - 1], tr[n]));
        assert forall|j: int|
            0 <= j < tr.len() implies (#[trigger] tr[j]).occupancy == j && tr[j].capacity
            == tr[0].capacity by {
            if j < n {
                assert(pre[j] == tr[j]);
            }
        }
    }
}

/// Map from occupied tile index to its occupancy record, stored as one slot
/// per grid coordinate.
pub struct TileStateRegistry {
    slots: Vec<Option<TileState>>,
}

impl TileStateRegistry {
    /// One slot per grid coordinate, and every record within capacity.
    pub closed spec fn wf(self) -> bool {
        &&& self.slots@.len() == TOWN_X * TOWN_Y
        &&& forall|k: int|
            0 <= k < self.slots@.len() ==> (#[trigger] self.slots@[k] matches Some(s)
                ==> state_wf(s))
    }

    /// The record at a coordinate; `None` off the grid and on tiles without
    /// a structure.
    pub closed spec fn spec_state(self, i: TileIndex) -> Option<TileState> {
        if in_bounds(i) {
            self.slots@[i.0 as int * TOWN_Y as int + i.1 as int]
        } else {
            None
        }
    }

    /// An empty registry: no tile has a record.
    pub fn new() -> (r: TileStateRegistry)
        ensures
            r.wf(),
            forall|i: TileIndex| r.spec_state(i) is None,
    {
        let mut slots: Vec<Option<TileState>> = Vec::new();
        let mut k: usize = 0;
        while k < TOWN_X * TOWN_Y
            invariant
                k <= TOWN_X * TOWN_Y,
                slots@.len() == k,
                forall|j: int| 0 <= j < k ==> slots@[j] is None,
            decreases TOWN_X * TOWN_Y - k,
        {
            slots.push(None);
            k = k + 1;
        }
        TileStateRegistry { slots }
    }

    /// The record at `i`, if any.
    pub fn get(&self, i: TileIndex) -> (r: Option<TileState>)
        requires
            self.wf(),
        ensures
            r == self.spec_state(i),
            r is Some ==> in_bounds(i),
    {
        if i.0 < TOWN_X && i.1 < TOWN_Y {
            self.slots[i.0 * TOWN_Y + i.1]
        } else {
            None
        }
    }

    /// Attaches a fresh record to a tile that has none. The facade calls
    /// this exactly once per placement; overwriting an existing record is a
    /// caller error and is ruled out here, not recovered from.
    pub fn insert(&mut self, i: TileIndex, s: TileState)
        requires
            old(self).wf(),
            in_bounds(i),
            old(self).spec_state(i) is None,
            state_wf(s),
        ensures
            final(self).wf(),
            final(self).spec_state(i) == Some(s),
            forall|j: TileIndex|
                j != i ==> final(self).spec_state(j) == old(self).spec_state(j),
    {
        self.set_slot(i, Some(s));
    }

    /// Detaches and returns the record at `i`, or `None` when the tile has
    /// none (an off-grid coordinate has none).
    pub fn remove(&mut self, i: TileIndex) -> (r: Option<TileState>)
        requires
            old(self).wf(),
        ensures
            final(self).wf(),
            r == old(self).spec_state(i),
            final(self).spec_state(i) is None,
            forall|j: TileIndex|
                j != i ==> final(self).spec_state(j) == old(self).spec_state(j),
    {
        if i.0 < TOWN_X && i.1 < TOWN_Y {
            let r = self.slots[i.0 * TOWN_Y + i.1];
            self.set_slot(i, None);
            r
        } else {
            None
        }
    }

    /// Adds one occupant to the structure at `i`: succeeds and raises the
    /// occupancy exactly when there is room; fails with `CapacityExceeded`
    /// at capacity, and with `NoStateForTile` when the tile has no record.
    /// A failed call changes nothing.
    pub fn try_add_entity(&mut self, i: TileIndex) -> (r: Result<(), TownError>)
        requires
            old(self).wf(),
        ensures
            final(self).wf(),
            forall|j: TileIndex|
                j != i ==> final(self).spec_state(j) == old(self).spec_state(j),
            match old(self).spec_state(i) {
                None => r == Err::<(), TownError>(TownError::NoStateForTile(i.0, i.1))
                    && final(self).spec_state(i) == old(self).spec_state(i),
                Some(s) => if s.occupancy < s.capacity {
                    r == Ok::<(), TownError>(()) && (final(self).spec_state(i) matches Some(p)
                        && add_entity_step(s, p))
                } else {
                    r == Err::<(), TownError>(TownError::CapacityExceeded(i.0, i.1))
                        && final(self).spec_state(i) == old(self).spec_state(i)
                },
            },
    {
        match self.get(i) {
            None => Err(TownError::NoStateForTile(i.0, i.1)),
            Some(s) => {
                if s.occupancy < s.capacity {
                    let updated = TileState {
                        owner: s.owner,
                        capacity: s.capacity,
                        occupancy: s.occupancy + 1,
                    };
                    self.set_slot(i, Some(updated));
                    Ok(())
                } else {
                    Err(TownError::CapacityExceeded(i.0, i.1))
                }
            },
        }
    }

    /// Removes one occupant from the structure at `i`: succeeds and lowers
    /// the occupancy exactly when it is positive; fails with `Underflow` at
    /// zero, and with `NoStateForTile` when the tile has no record. A failed
    /// call changes nothing.
    pub fn try_remove_entity(&mut self, i: TileIndex) -> (r: Result<(), TownError>)
        requires
            old(self).wf(),
        ensures
            final(self).wf(),
            forall|j: TileIndex|
                j != i ==> final(self).spec_state(j) == old(self).spec_state(j),
            match old(self).spec_state(i) {
                None => r == Err::<(), TownError>(TownError::NoStateForTile(i.0, i.1))
                    && final(self).spec_state(i) == old(self).spec_state(i),
                Some(s) => if s.occupancy > 0 {
                    r == Ok::<(), TownError>(()) && (final(self).spec_state(i) matches Some(p)
                        && remove_entity_step(s, p))
                } else {
                    r == Err::<(), TownError>(TownError::Underflow(i.0, i.1))
                        && final(self).spec_state(i) == old(self).spec_state(i)
                },
            },
    {
        match self.get(i) {
            None => Err(TownError::NoStateForTile(i.0, i.1)),
            Some(s) => {
                if s.occupancy > 0 {
                    let updated = TileState {
                        owner: s.owner,
                        capacity: s.capacity,
                        occupancy: s.occupancy - 1,
                    };
                    self.set_slot(i, Some(updated));
                    Ok(())
                } else {
                    Err(TownError::Underflow(i.0, i.1))
                }
            },
        }
    }

    /// Writes one slot and shows that every other coordinate keeps its
    /// record.
    fn set_slot(&mut self, i: TileIndex, v: Option<TileState>)
        requires
            old(self).wf(),
            in_bounds(i),
            v matches Some(s) ==> state_wf(s),
        ensures
            final(self).wf(),
            final(self).spec_state(i) == v,
            forall|j: TileIndex|
                j != i ==> final(self).spec_state(j) == old(self).spec_state(j),
    {
        self.slots.set(i.0 * TOWN_Y + i.1, v);
        assert forall|j: TileIndex| j != i implies final(self).spec_state(j) == old(
            self,
        ).spec_state(j) by {
            if in_bounds(j) {
                assert(j.0 as int * TOWN_Y as int + j.1 as int != i.0 as int * TOWN_Y as int + i.1
                    as int) by (nonlinear_arith)
                    requires
                        j.1 < TOWN_Y as int,
                        i.1 < TOWN_Y as int,
                        j != i,
                        TOWN_Y as int > 0,
                ;
            }
        }
    }
}

} // verus!
