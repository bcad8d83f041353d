//! Town-wide activity counters. Each category pairs a live usage counter,
//! moved only by balanced begin/end calls, with an independently set
//! capacity. The ledger tracks balance; whether a begin is permitted is the
//! caller's decision.

use vstd::prelude::*;

use crate::error::TownError;

verus! {

/// A named shared resource whose usage is tracked by balanced begin/end
/// calls.
#[derive(Clone, Copy, Debug, PartialEq, Eq, Structural)]
pub enum ActivityCategory {
    /// Forest capacity, consumed while forestry tasks run.
    Forestry,
}

/// Per-category usage counters and capacities. Usage and capacity move along
/// different paths and are never conflated: capacity comes from external
/// resource updates, usage from balanced begin/end calls.
#[derive(Clone, Copy, Debug, PartialEq, Eq, Structural)]
pub struct ActivityLedger {
    /// Live count of running forestry activities.
    pub forestry_usage: usize,
    /// Configured forest capacity.
    pub forestry_capacity: usize,
}

/// The usage counter of a category.
pub open spec fn spec_usage(l: ActivityLedger, c: ActivityCategory) -> usize {
    match c {
        ActivityCategory::Forestry => l.forestry_usage,
    }
}

/// The capacity of a category.
pub open spec fn spec_capacity(l: ActivityLedger, c: ActivityCategory) -> usize {
    match c {
        ActivityCategory::Forestry => l.forestry_capacity,
    }
}

/// The ledger after one begin of `c`: that category's usage one higher,
/// everything else unchanged.
pub open spec fn spec_begin(l: ActivityLedger, c: ActivityCategory) -> ActivityLedger
    recommends
        spec_usage(l, c) < usize::MAX,
{
    match c {
        ActivityCategory::Forestry => ActivityLedger {
            forestry_usage: (l.forestry_usage + 1) as usize,
            ..l
        },
    }
}

/// The ledger after one successful end of `c`: that category's usage one
/// lower, everything else unchanged.
pub open spec fn spec_end(l: ActivityLedger, c: ActivityCategory) -> ActivityLedger
    recommends
        spec_usage(l, c) > 0,
{
    match c {
        ActivityCategory::Forestry => ActivityLedger {
            forestry_usage: (l.forestry_usage - 1) as usize,
            ..l
        },
    }
}

/// The ledger after `n` begins of `c`.
pub open spec fn spec_begins(l: ActivityLedger, c: ActivityCategory, n: nat) -> ActivityLedger
    decreases n,
{
    if n == 0 {
        l
    } else {
        spec_begin(spec_begins(l, c, (n - 1) as nat), c)
    }
}

/// The ledger after `n` ends of `c`, each taken while the counter is
/// positive.
pub open spec fn spec_ends(l: ActivityLedger, c: ActivityCategory, n: nat) -> ActivityLedger
    decreases n,
{
    if n == 0 {
        l
    } else {
        spec_end(spec_ends(l, c, (n - 1) as nat), c)
    }
}

/// `n` begins move the counter up by exactly `n` and touch nothing else.
proof fn lemma_begins_shape(l: ActivityLedger, c: ActivityCategory, n: nat)
    requires
        spec_usage(l, c) + n <= usize::MAX,
    ensures
        spec_usage(spec_begins(l, c, n), c) == spec_usage(l, c) + n,
        spec_capacity(spec_begins(l, c, n), c) == spec_capacity(l, c),
    decreases n,
{
    if n > 0 {
        lemma_begins_shape(l, c, (n - 1) as nat);
    }
}

/// While the counter stays at or above `n`, `n` ends move it down by
/// exactly `n` and touch nothing else.
proof fn lemma_ends_shape(l: ActivityLedger, c: ActivityCategory, n: nat)
    requires
        spec_usage(l, c) >= n,
    ensures
        spec_usage(spec_ends(l, c, n), c) == spec_usage(l, c) - n,
        spec_capacity(spec_ends(l, c, n), c) == spec_capacity(l, c),
    decreases n,
{
    if n > 0 {
        lemma_ends_shape(l, c, (n - 1) as nat);
    }
}

/// Law: over any window of `n` begins of a category followed by `n` ends of
/// it, the ledger returns to exactly its starting value — usage and
/// capacity alike; each of the `n` ends sees a positive counter first, so
/// none of them can fail `Imbalance`; and when the starting counter was
/// zero, the counter after the window is zero again, so — by the contract
/// of `register_end` — one further end fails `Imbalance` and changes
/// nothing.
pub proof fn lemma_balanced_begin_end(l: ActivityLedger, c: ActivityCategory, n: nat)
    requires
        spec_usage(l, c) + n <= usize::MAX,
    ensures
        spec_ends(spec_begins(l, c, n), c, n) == l,
        forall|m: nat|
            m < n ==> spec_usage(#[trigger] spec_ends(spec_begins(l, c, n), c, m), c) > 0,
        spec_usage(l, c) == 0 ==> spec_usage(spec_ends(spec_begins(l, c, n), c, n), c) == 0,
{
    let b = spec_begins(l, c, n);
    lemma_begins_shape(l, c, n);
    lemma_ends_shape(b, c, n);
    match c {
        ActivityCategory::Forestry => {
            assert(spec_ends(b, c, n) == l);
        },
    }
    assert forall|m: nat| m < n implies spec_usage(
        #[trigger] spec_ends(b, c, m),
        c,
    ) > 0 by {
        lemma_ends_shape(b, c, m);
    }
}

impl ActivityLedger {
    /// A fresh ledger: every usage counter and every capacity zero.
    pub fn new() -> (l: ActivityLedger)
        ensures
            forall|c: ActivityCategory| spec_usage(l, c) == 0,
            forall|c: ActivityCategory| spec_capacity(l, c) == 0,
    {
        ActivityLedger { forestry_usage: 0, forestry_capacity: 0 }
    }

    /// The live usage counter of `c`.
    pub fn usage(&self, c: ActivityCategory) -> (r: usize)
        ensures
            r == spec_usage(*self, c),
    {
        match c {
            ActivityCategory::Forestry => self.forestry_usage,
        }
    }

    /// The configured capacity of `c`.
    pub fn capacity(&self, c: ActivityCategory) -> (r: usize)
        ensures
            r == spec_capacity(*self, c),
    {
        match c {
            ActivityCategory::Forestry => self.forestry_capacity,
        }
    }

    /// Capacity minus usage, exactly. The difference is not clamped at zero:
    /// a negative result means the capacity setting is already inconsistent
    /// with the running activities and must be surfaced, not hidden.
    pub fn free(&self, c: ActivityCategory) -> (r: i128)
        ensures
            r == spec_capacity(*self, c) - spec_usage(*self, c),
    {
        match c {
            ActivityCategory::Forestry => self.forestry_capacity as i128
                - self.forestry_usage as i128,
        }
    }

    /// Sets the capacity of `c`; usage counters and other capacities keep
    /// their values.
    pub fn set_capacity(&mut self, c: ActivityCategory, cap: usize)
        ensures
            spec_capacity(*final(self), c) == cap,
            forall|d: ActivityCategory| spec_usage(*final(self), d) == spec_usage(*old(self), d),
            forall|d: ActivityCategory|
                d != c ==> spec_capacity(*final(self), d) == spec_capacity(*old(self), d),
    {
        match c {
            ActivityCategory::Forestry => {
                self.forestry_capacity = cap;
            },
        }
    }

    /// Begins one activity of `c`: increments its usage counter
    /// unconditionally. Capacity enforcement, if any, is the caller's
    /// responsibility.
    pub fn register_begin(&mut self, c: ActivityCategory)
        requires
            spec_usage(*old(self), c) < usize::MAX,
        ensures
            *final(self) == spec_begin(*old(self), c),
    {
        match c {
            ActivityCategory::Forestry => {
                self.forestry_usage = self.forestry_usage + 1;
            },
        }
    }

    /// Ends one activity of `c`: decrements its usage counter, or fails with
    /// `Imbalance` and changes nothing when the counter is already zero —
    /// a begin/end mismatch is always reported, never silently clamped.
    pub fn register_end(&mut self, c: ActivityCategory) -> (r: Result<(), TownError>)
        ensures
            spec_usage(*old(self), c) > 0 ==> r == Ok::<(), TownError>(()) && *final(self) == spec_end(
                *old(self),
                c,
            ),
            spec_usage(*old(self), c) == 0 ==> r == Err::<(), TownError>(
                TownError::Imbalance(c),
            ) && *final(self) == *old(self),
    {
        match c {
            ActivityCategory::Forestry => {
                if self.forestry_usage > 0 {
                    self.forestry_usage = self.forestry_usage - 1;
                    Ok(())
                } else {
                    Err(TownError::Imbalance(c))
                }
            },
        }
    }
}

} // verus!
