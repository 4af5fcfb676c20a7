//! Which tenants are essential.

use std::collections::BTreeSet;
use vstd::prelude::*;

use crate::order::u64_keys_are_ordered;

verus! {

/// The tenants marked as essential.
#[derive(Debug)]
pub struct TenancyState {
    essential: BTreeSet<u64>,
}

impl View for TenancyState {
    type V = Set<u64>;

    closed spec fn view(&self) -> Set<u64> {
        self.essential@
    }
}

impl Default for TenancyState {
    fn default() -> (state: Self)
        ensures
            state@ == Set::<u64>::empty(),
    {
        TenancyState { essential: BTreeSet::new() }
    }
}

impl TenancyState {
    /// Starts from a set of essential tenants.
    pub fn new(essential: BTreeSet<u64>) -> (state: Self)
        ensures
            state@ == essential@,
    {
        TenancyState { essential }
    }

    /// Whether a tenant is essential.
    pub fn is_essential(&self, cgroup_id: u64) -> (r: bool)
        ensures
            r == self@.contains(cgroup_id),
    {
        broadcast use vstd::std_specs::btree::group_btree_axioms;

        proof {
            u64_keys_are_ordered();
        }
        self.essential.contains(&cgroup_id)
    }

    /// Marks or unmarks a tenant; `true` when that changed anything.
    pub fn set_essential(&mut self, cgroup_id: u64, is_essential: bool) -> (changed: bool)
        ensures
            final(self)@ == (if is_essential {
                old(self)@.insert(cgroup_id)
            } else {
                old(self)@.remove(cgroup_id)
            }),
            changed == (old(self)@.contains(cgroup_id) != is_essential),
    {
        broadcast use vstd::std_specs::btree::group_btree_axioms;

        proof {
            u64_keys_are_ordered();
        }
        if is_essential {
            self.essential.insert(cgroup_id)
        } else {
            self.essential.remove(&cgroup_id)
        }
    }
}

} // verus!
