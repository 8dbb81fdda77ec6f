//! The registry of window handles that are currently masked from capture.
use std::collections::HashSet;
use vstd::prelude::*;

verus! {

broadcast use vstd::std_specs::hash::group_hash_axioms;

/// The set of window handles (`HWND` values) whose display affinity excludes them from capture.
pub struct AffinityGuard {
    masked_hwnds: HashSet<isize>,
}

impl View for AffinityGuard {
    type V = Set<isize>;

    closed spec fn view(&self) -> Set<isize> {
        self.masked_hwnds@
    }
}

impl AffinityGuard {
    /// A guard that masks no window.
    pub fn new() -> (g: Self)
        ensures
            g@ == Set::<isize>::empty(),
    {
        AffinityGuard { masked_hwnds: HashSet::new() }
    }

    /// Records `hwnd` as masked; true when it was not masked before.
    pub fn register_exclusion(&mut self, hwnd: isize) -> (added: bool)
        ensures
            final(self)@ == old(self)@.insert(hwnd),
            added == !old(self)@.contains(hwnd),
    {
        self.masked_hwnds.insert(hwnd)
    }

    /// Forgets `hwnd`; true when it was masked before.
    pub fn remove_exclusion(&mut self, hwnd: isize) -> (removed: bool)
        ensures
            final(self)@ == old(self)@.remove(hwnd),
            removed == old(self)@.contains(hwnd),
    {
        self.masked_hwnds.remove(&hwnd)
    }

    /// Is `hwnd` masked?
    pub fn is_excluded(&self, hwnd: isize) -> (b: bool)
        ensures
            b == self@.contains(hwnd),
    {
        self.masked_hwnds.contains(&hwnd)
    }
}

impl Default for AffinityGuard {
    fn default() -> (g: Self)
        ensures
            g@ == Set::<isize>::empty(),
    {
        AffinityGuard::new()
    }
}

/// After `register_exclusion(h)` the handle `h` is excluded, and every other handle
/// keeps the status it had.
pub proof fn law_register_then_excluded(before: Set<isize>, h: isize, other: isize)
    ensures
        before.insert(h).contains(h),
        other != h ==> (before.insert(h).contains(other) == before.contains(other)),
{
}

/// After `remove_exclusion(h)` the handle `h` is no longer excluded, and every other
/// handle keeps the status it had.
pub proof fn law_remove_then_not_excluded(before: Set<isize>, h: isize, other: isize)
    ensures
        !before.remove(h).contains(h),
        other != h ==> (before.remove(h).contains(other) == before.contains(other)),
{
}

/// Registering a handle that was not masked and then removing it restores the guard.
pub proof fn law_register_remove_round_trip(before: Set<isize>, h: isize)
    requires
        !before.contains(h),
    ensures
        before.insert(h).remove(h) == before,
{
    assert(before.insert(h).remove(h) =~= before);
}

} // verus!
