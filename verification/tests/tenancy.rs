//! Essential tenants.

use std::collections::BTreeSet;

use vantage::tenancy::TenancyState;

#[test]
fn defaults_to_non_essential() {
    let state = TenancyState::default();
    let checked = state.is_essential(42);
    assert!(!checked);
}

#[test]
fn can_mark_and_unmark_essential() {
    let mut initial = BTreeSet::new();
    initial.insert(11);
    let mut state = TenancyState::new(initial);

    let is_essential = state.is_essential(11);
    assert!(is_essential);

    let changed = state.set_essential(22, true);
    assert!(changed);

    let removed = state.set_essential(11, false);
    assert!(removed);

    let still = state.is_essential(11);
    assert!(!still);
}

#[test]
fn marking_twice_changes_nothing() {
    let mut state = TenancyState::default();
    assert!(state.set_essential(7, true));
    assert!(!state.set_essential(7, true));
    assert!(state.set_essential(7, false));
    assert!(!state.set_essential(7, false));
}
