//! The desired state that survives restarts: switches, essential tenants, base
//! policies and runtime overrides.
//!
//! A change takes effect only once it has been persisted; how is up to the
//! function that the caller supplies.

use std::collections::BTreeSet;
use vstd::prelude::*;

use crate::common::{Policy, TenantKey};
use crate::order::u64_keys_are_ordered;
use crate::table::{ascending, has_key, map_of, push_adds_key, KeyedTable, Ranked};
use crate::text::{decimal, push_u64};

verus! {

pub const STATE_VERSION_V1: u16 = 1;

/// Who put a runtime override in place.
#[derive(Clone, Copy, Debug, PartialEq, Eq, Structural)]
pub enum RuntimeOwner {
    Manual,
    Adaptive,
}

/// What became of an adaptive upsert.
#[derive(Clone, Copy, Debug, PartialEq, Eq, Structural)]
pub enum AdaptiveUpsertOutcome {
    Applied,
    SkippedManualOwner,
}

/// Which runtime overrides a deletion may remove.
#[derive(Clone, Copy, Debug, PartialEq, Eq, Structural)]
pub enum RuntimeDeleteMode {
    ManualOnly,
    AnyOwner,
}

/// A runtime override and its owner.
#[derive(Clone, Copy, Debug, PartialEq, Eq)]
pub struct RuntimeOverrideRecord {
    pub policy: Policy,
    pub owner: RuntimeOwner,
}

/// What a daemon without a state file starts from.
#[derive(Debug)]
pub struct StateStoreDefaults {
    pub global_enabled: bool,
    pub flow_keys_live: bool,
    pub essential_tenants: BTreeSet<u64>,
}

impl Default for StateStoreDefaults {
    fn default() -> (defaults: Self)
        ensures
            !defaults.global_enabled,
            !defaults.flow_keys_live,
            defaults.essential_tenants@ == Set::<u64>::empty(),
    {
        StateStoreDefaults {
            global_enabled: false,
            flow_keys_live: false,
            essential_tenants: BTreeSet::new(),
        }
    }
}

/// The desired state.
#[derive(Debug)]
pub struct PersistedStateV1 {
    pub version: u16,
    pub global_enabled: bool,
    pub flow_keys_live: bool,
    pub essential_tenants: BTreeSet<u64>,
    pub base_policies: KeyedTable<TenantKey, Policy>,
    pub runtime_overrides: KeyedTable<TenantKey, RuntimeOverrideRecord>,
}

/// The desired state as sets and maps.
#[verifier::ext_equal]
pub struct DesiredState {
    pub version: u16,
    pub global_enabled: bool,
    pub flow_keys_live: bool,
    pub essential_tenants: Set<u64>,
    pub base_policies: Map<TenantKey, Policy>,
    pub runtime_overrides: Map<TenantKey, RuntimeOverrideRecord>,
}

impl View for PersistedStateV1 {
    type V = DesiredState;

    open spec fn view(&self) -> DesiredState {
        DesiredState {
            version: self.version,
            global_enabled: self.global_enabled,
            flow_keys_live: self.flow_keys_live,
            essential_tenants: self.essential_tenants@,
            base_policies: self.base_policies@,
            runtime_overrides: self.runtime_overrides@,
        }
    }
}

impl Clone for PersistedStateV1 {
    fn clone(&self) -> (copy: Self)
        ensures
            copy@ == self@,
    {
        PersistedStateV1 {
            version: self.version,
            global_enabled: self.global_enabled,
            flow_keys_live: self.flow_keys_live,
            essential_tenants: self.essential_tenants.clone(),
            base_policies: self.base_policies.clone(),
            runtime_overrides: self.runtime_overrides.clone(),
        }
    }
}

/// The state that a daemon with these defaults starts from.
pub open spec fn default_state(defaults: StateStoreDefaults) -> DesiredState {
    DesiredState {
        version: STATE_VERSION_V1,
        global_enabled: defaults.global_enabled,
        flow_keys_live: defaults.flow_keys_live,
        essential_tenants: defaults.essential_tenants@,
        base_policies: Map::empty(),
        runtime_overrides: Map::empty(),
    }
}

/// A daemon without a state file starts from its defaults, at the first version, and
/// without any policy or override.
pub proof fn defaults_have_no_policies(defaults: StateStoreDefaults, key: TenantKey)
    ensures
        default_state(defaults).version == 1,
        default_state(defaults).global_enabled == defaults.global_enabled,
        default_state(defaults).flow_keys_live == defaults.flow_keys_live,
        default_state(defaults).essential_tenants == defaults.essential_tenants@,
        !default_state(defaults).base_policies.dom().contains(key),
        !default_state(defaults).runtime_overrides.dom().contains(key),
{
}

impl PersistedStateV1 {
    /// The state that a daemon with these defaults starts from.
    pub fn with_defaults(defaults: &StateStoreDefaults) -> (state: Self)
        ensures
            state@ == default_state(*defaults),
    {
        PersistedStateV1 {
            version: STATE_VERSION_V1,
            global_enabled: defaults.global_enabled,
            flow_keys_live: defaults.flow_keys_live,
            essential_tenants: defaults.essential_tenants.clone(),
            base_policies: KeyedTable::new(),
            runtime_overrides: KeyedTable::new(),
        }
    }
}

/// Why the desired state could not be loaded or stored.
#[derive(Debug)]
pub enum StateStoreError {
    LockPoisoned,
    ReadFile { path: String, source: String },
    WriteFile { path: String, source: String },
    Parse { path: String, source: String },
    UnsupportedVersion { path: String, version: u16 },
}

/// The wording of a state store error.
pub open spec fn state_store_error_text(error: StateStoreError) -> Seq<char> {
    match error {
        StateStoreError::LockPoisoned => "failed to lock persisted state"@,
        StateStoreError::ReadFile { path, source } => "failed to read state file '"@ + path@
            + "': "@ + source@,
        StateStoreError::WriteFile { path, source } => "failed to write state file '"@ + path@
            + "': "@ + source@,
        StateStoreError::Parse { path, source } => "failed to parse state file '"@ + path@ + "': "@
            + source@,
        StateStoreError::UnsupportedVersion { path, version } => "state file '"@ + path@
            + "' has unsupported version "@ + decimal(version as nat),
    }
}

/// Each failure of the state store names the file and tells why; an unsupported version
/// is given in decimal.
pub proof fn state_store_failures_are_worded(path: String, source: String, version: u16)
    ensures
        state_store_error_text(StateStoreError::LockPoisoned) == "failed to lock persisted state"@,
        state_store_error_text(StateStoreError::ReadFile { path, source })
            == "failed to read state file '"@ + path@ + "': "@ + source@,
        state_store_error_text(StateStoreError::WriteFile { path, source })
            == "failed to write state file '"@ + path@ + "': "@ + source@,
        state_store_error_text(StateStoreError::Parse { path, source })
            == "failed to parse state file '"@ + path@ + "': "@ + source@,
        state_store_error_text(StateStoreError::UnsupportedVersion { path, version })
            == "state file '"@ + path@ + "' has unsupported version "@ + decimal(version as nat),
{
}

impl StateStoreError {
    /// The wording of the error.
    pub fn message(&self) -> (text: String)
        ensures
            text@ == state_store_error_text(*self),
    {
        let mut text = String::new();
        match self {
            StateStoreError::LockPoisoned => {
                text.append("failed to lock persisted state");
            },
            StateStoreError::ReadFile { path, source } => {
                text.append("failed to read state file '");
                text.append(path.as_str());
                text.append("': ");
                text.append(source.as_str());
            },
            StateStoreError::WriteFile { path, source } => {
                text.append("failed to write state file '");
                text.append(path.as_str());
                text.append("': ");
                text.append(source.as_str());
            },
            StateStoreError::Parse { path, source } => {
                text.append("failed to parse state file '");
                text.append(path.as_str());
                text.append("': ");
                text.append(source.as_str());
            },
            StateStoreError::UnsupportedVersion { path, version } => {
                text.append("state file '");
                text.append(path.as_str());
                text.append("' has unsupported version ");
                push_u64(&mut text, *version as u64);
            },
        }
        assert(text@ =~= state_store_error_text(*self));
        text
    }
}

/// Whether persisting `desired` can have come out as `outcome`.
pub open spec fn persisted<P: FnOnce(&PersistedStateV1) -> Result<(), StateStoreError>>(
    persist: P,
    desired: DesiredState,
    outcome: Result<(), StateStoreError>,
) -> bool {
    exists|candidate: PersistedStateV1|
        candidate@ == desired && #[trigger] call_ensures(persist, (&candidate,), outcome)
}

/// What was persisted is the state itself: its version, its switches, its essential
/// tenants, its policies and its overrides.
pub proof fn the_whole_state_is_persisted<
    P: FnOnce(&PersistedStateV1) -> Result<(), StateStoreError>,
>(persist: P, desired: DesiredState, outcome: Result<(), StateStoreError>)
    requires
        persisted(persist, desired, outcome),
    ensures
        exists|candidate: PersistedStateV1|
            {
                &&& #[trigger] call_ensures(persist, (&candidate,), outcome)
                &&& candidate.version == desired.version
                &&& candidate.global_enabled == desired.global_enabled
                &&& candidate.flow_keys_live == desired.flow_keys_live
                &&& candidate.essential_tenants@ == desired.essential_tenants
                &&& candidate.base_policies@ == desired.base_policies
                &&& candidate.runtime_overrides@ == desired.runtime_overrides
            },
{
}

/// Whether `persist` may be called for states that stand for `desired`.
pub open spec fn may_persist<P: FnOnce(&PersistedStateV1) -> Result<(), StateStoreError>>(
    persist: P,
    desired: DesiredState,
) -> bool {
    forall|s: &PersistedStateV1| s@ == desired ==> #[trigger] call_requires(persist, (s,))
}

/// The desired state, with a revision that moves with every change.
#[derive(Debug)]
pub struct StateStore {
    state: PersistedStateV1,
    revision: u64,
}

impl StateStore {
    /// The desired state.
    pub closed spec fn desired(&self) -> DesiredState {
        self.state@
    }

    /// How often the desired state was changed, modulo the range.
    pub closed spec fn changes(&self) -> u64 {
        self.revision
    }

    /// Whether `r` and `after` are how a change to `desired` comes out: it was
    /// persisted and is in force, or it was not and nothing has changed.
    pub open spec fn change_to<R, P: FnOnce(&PersistedStateV1) -> Result<(), StateStoreError>>(
        &self,
        after: &Self,
        persist: P,
        desired: DesiredState,
        r: Result<R, StateStoreError>,
    ) -> bool {
        match r {
            Ok(_) => {
                &&& persisted(persist, desired, Ok::<(), StateStoreError>(()))
                &&& after.desired() == desired
                &&& after.changes() == self.changes().wrapping_add(1)
            },
            Err(error) => {
                &&& persisted(persist, desired, Err::<(), StateStoreError>(error))
                &&& after.desired() == self.desired()
                &&& after.changes() == self.changes()
            },
        }
    }

    /// Takes over the state that `read` finds, or starts from the defaults and
    /// persists them when it finds none. Nothing else is persisted.
    pub fn load_or_init<
        F: FnOnce() -> Result<Option<PersistedStateV1>, StateStoreError>,
        P: FnOnce(&PersistedStateV1) -> Result<(), StateStoreError>,
    >(read: F, persist: P, defaults: &StateStoreDefaults) -> (r: Result<Self, StateStoreError>)
        requires
            call_requires(read, ()),
            call_ensures(read, (), Ok::<Option<PersistedStateV1>, StateStoreError>(None))
                ==> may_persist(persist, default_state(*defaults)),
        ensures
            load_outcome(read, persist, *defaults, r),
    {
        match read() {
            Err(error) => Err(error),
            Ok(Some(state)) => Ok(StateStore { state, revision: 0 }),
            Ok(None) => {
                let initial = PersistedStateV1::with_defaults(defaults);
                match persist(&initial) {
                    Err(error) => {
                        assert(call_ensures(
                            persist,
                            (&initial,),
                            Err::<(), StateStoreError>(error),
                        ));
                        Err(error)
                    },
                    Ok(unit) => {
                        assert(unit == ());
                        Ok(StateStore { state: initial, revision: 0 })
                    },
                }
            },
        }
    }

    /// A copy of the desired state.
    pub fn snapshot(&self) -> (state: PersistedStateV1)
        ensures
            state@ == self.desired(),
    {
        self.state.clone()
    }

    /// A copy of the desired state and its revision.
    pub fn snapshot_with_revision(&self) -> (r: (PersistedStateV1, u64))
        ensures
            r.0@ == self.desired(),
            r.1 == self.changes(),
    {
        (self.state.clone(), self.revision)
    }

    /// The revision of the desired state.
    pub fn revision(&self) -> (revision: u64)
        ensures
            revision == self.changes(),
    {
        self.revision
    }

    /// Persists `candidate` and makes it the desired state.
    fn commit<P: FnOnce(&PersistedStateV1) -> Result<(), StateStoreError>>(
        &mut self,
        candidate: PersistedStateV1,
        persist: P,
    ) -> (r: Result<(), StateStoreError>)
        requires
            may_persist(persist, candidate@),
        ensures
            old(self).change_to(final(self), persist, candidate@, r),
    {
        match persist(&candidate) {
            Err(error) => {
                Err(error)
            },
            Ok(unit) => {
                assert(unit == ());
                self.state = candidate;
                self.revision = self.revision.wrapping_add(1);
                Ok(())
            },
        }
    }

    /// Switches the filter on or off.
    pub fn set_global_enabled<P: FnOnce(&PersistedStateV1) -> Result<(), StateStoreError>>(
        &mut self,
        enabled: bool,
        persist: P,
    ) -> (r: Result<(), StateStoreError>)
        requires
            may_persist(
                persist,
                DesiredState { global_enabled: enabled, ..old(self).desired() },
            ),
        ensures
            old(self).change_to(
                final(self),
                persist,
                DesiredState { global_enabled: enabled, ..old(self).desired() },
                r,
            ),
    {
        let mut candidate = self.state.clone();
        candidate.global_enabled = enabled;
        self.commit(candidate, persist)
    }

    /// Switches flow-aware matching on or off.
    pub fn set_flow_keys_live<P: FnOnce(&PersistedStateV1) -> Result<(), StateStoreError>>(
        &mut self,
        flow_keys_live: bool,
        persist: P,
    ) -> (r: Result<(), StateStoreError>)
        requires
            may_persist(
                persist,
                DesiredState { flow_keys_live, ..old(self).desired() },
            ),
        ensures
            old(self).change_to(
                final(self),
                persist,
                DesiredState { flow_keys_live, ..old(self).desired() },
                r,
            ),
    {
        let mut candidate = self.state.clone();
        candidate.flow_keys_live = flow_keys_live;
        self.commit(candidate, persist)
    }

    /// Marks or unmarks a tenant as essential; `true` when that changed the set.
    pub fn set_essential_tenant<P: FnOnce(&PersistedStateV1) -> Result<(), StateStoreError>>(
        &mut self,
        cgroup_id: u64,
        essential: bool,
        persist: P,
    ) -> (r: Result<bool, StateStoreError>)
        requires
            may_persist(
                persist,
                DesiredState {
                    essential_tenants: if essential {
                        old(self).desired().essential_tenants.insert(cgroup_id)
                    } else {
                        old(self).desired().essential_tenants.remove(cgroup_id)
                    },
                    ..old(self).desired()
                },
            ),
        ensures
            old(self).change_to(
                final(self),
                persist,
                DesiredState {
                    essential_tenants: if essential {
                        old(self).desired().essential_tenants.insert(cgroup_id)
                    } else {
                        old(self).desired().essential_tenants.remove(cgroup_id)
                    },
                    ..old(self).desired()
                },
                r,
            ),
            r matches Ok(changed) ==> changed == (old(self).desired().essential_tenants.contains(
                cgroup_id,
            ) != essential),
    {
        broadcast use vstd::std_specs::btree::group_btree_axioms;

        proof {
            u64_keys_are_ordered();
        }
        let mut candidate = self.state.clone();
        let changed: bool = if essential {
            candidate.essential_tenants.insert(cgroup_id)
        } else {
            candidate.essential_tenants.remove(&cgroup_id)
        };
        match self.commit(candidate, persist) {
            Ok(_) => Ok(changed),
            Err(error) => Err(error),
        }
    }

    /// Sets a base policy and returns the one it replaces.
    pub fn upsert_base_policy<P: FnOnce(&PersistedStateV1) -> Result<(), StateStoreError>>(
        &mut self,
        tenant: TenantKey,
        policy: Policy,
        persist: P,
    ) -> (r: Result<Option<Policy>, StateStoreError>)
        requires
            may_persist(
                persist,
                DesiredState {
                    base_policies: old(self).desired().base_policies.insert(tenant, policy),
                    ..old(self).desired()
                },
            ),
        ensures
            old(self).change_to(
                final(self),
                persist,
                DesiredState {
                    base_policies: old(self).desired().base_policies.insert(tenant, policy),
                    ..old(self).desired()
                },
                r,
            ),
            r matches Ok(previous) ==> previous == lookup(
                old(self).desired().base_policies,
                tenant,
            ),
    {
        let mut candidate = self.state.clone();
        let previous = candidate.base_policies.insert(tenant, policy);
        match self.commit(candidate, persist) {
            Ok(_) => Ok(previous),
            Err(error) => Err(error),
        }
    }

    /// Removes a base policy and returns it.
    pub fn delete_base_policy<P: FnOnce(&PersistedStateV1) -> Result<(), StateStoreError>>(
        &mut self,
        tenant: TenantKey,
        persist: P,
    ) -> (r: Result<Option<Policy>, StateStoreError>)
        requires
            may_persist(
                persist,
                DesiredState {
                    base_policies: old(self).desired().base_policies.remove(tenant),
                    ..old(self).desired()
                },
            ),
        ensures
            old(self).change_to(
                final(self),
                persist,
                DesiredState {
                    base_policies: old(self).desired().base_policies.remove(tenant),
                    ..old(self).desired()
                },
                r,
            ),
            r matches Ok(previous) ==> previous == lookup(
                old(self).desired().base_policies,
                tenant,
            ),
    {
        let mut candidate = self.state.clone();
        let previous = candidate.base_policies.remove(&tenant);
        match self.commit(candidate, persist) {
            Ok(_) => Ok(previous),
            Err(error) => Err(error),
        }
    }

    /// Sets a runtime override that is owned manually, whoever owned it before,
    /// and returns the record it replaces.
    pub fn upsert_manual_runtime_override<
        P: FnOnce(&PersistedStateV1) -> Result<(), StateStoreError>,
    >(&mut self, tenant: TenantKey, policy: Policy, persist: P) -> (r: Result<
        Option<RuntimeOverrideRecord>,
        StateStoreError,
    >)
        requires
            may_persist(
                persist,
                with_manual_override(old(self).desired(), tenant, policy),
            ),
        ensures
            old(self).change_to(
                final(self),
                persist,
                with_manual_override(old(self).desired(), tenant, policy),
                r,
            ),
            r matches Ok(previous) ==> previous == lookup(
                old(self).desired().runtime_overrides,
                tenant,
            ),
    {
        let mut candidate = self.state.clone();
        let previous = candidate.runtime_overrides.insert(
            tenant,
            RuntimeOverrideRecord { policy, owner: RuntimeOwner::Manual },
        );
        match self.commit(candidate, persist) {
            Ok(_) => Ok(previous),
            Err(error) => Err(error),
        }
    }

    /// Removes a runtime override if `mode` allows it, and returns the record
    /// that was removed.
    pub fn delete_runtime_override_with_mode<
        P: FnOnce(&PersistedStateV1) -> Result<(), StateStoreError>,
    >(&mut self, tenant: TenantKey, mode: RuntimeDeleteMode, persist: P) -> (r: Result<
        Option<RuntimeOverrideRecord>,
        StateStoreError,
    >)
        requires
            may_persist(
                persist,
                if may_delete(old(self).desired(), tenant, mode) {
                    without_override(old(self).desired(), tenant)
                } else {
                    old(self).desired()
                },
            ),
        ensures
            old(self).change_to(
                final(self),
                persist,
                if may_delete(old(self).desired(), tenant, mode) {
                    without_override(old(self).desired(), tenant)
                } else {
                    old(self).desired()
                },
                r,
            ),
            r matches Ok(removed) ==> removed == (if may_delete(
                old(self).desired(),
                tenant,
                mode,
            ) {
                lookup(old(self).desired().runtime_overrides, tenant)
            } else {
                None
            }),
    {
        let mut candidate = self.state.clone();
        let allowed: bool = match mode {
            RuntimeDeleteMode::AnyOwner => true,
            RuntimeDeleteMode::ManualOnly => match candidate.runtime_overrides.get(&tenant) {
                Some(entry) => entry.owner == RuntimeOwner::Manual,
                None => false,
            },
        };
        let removed: Option<RuntimeOverrideRecord> = if allowed {
            candidate.runtime_overrides.remove(&tenant)
        } else {
            None
        };
        match self.commit(candidate, persist) {
            Ok(_) => Ok(removed),
            Err(error) => Err(error),
        }
    }

    /// Removes a runtime override if `owner` owns it; `true` when it did.
    pub fn delete_runtime_override_if_owner<
        P: FnOnce(&PersistedStateV1) -> Result<(), StateStoreError>,
    >(&mut self, tenant: TenantKey, owner: RuntimeOwner, persist: P) -> (r: Result<
        bool,
        StateStoreError,
    >)
        requires
            may_persist(
                persist,
                if owned_by(old(self).desired(), tenant, owner) {
                    without_override(old(self).desired(), tenant)
                } else {
                    old(self).desired()
                },
            ),
        ensures
            old(self).change_to(
                final(self),
                persist,
                if owned_by(old(self).desired(), tenant, owner) {
                    without_override(old(self).desired(), tenant)
                } else {
                    old(self).desired()
                },
                r,
            ),
            r matches Ok(removed) ==> removed == owned_by(old(self).desired(), tenant, owner),
    {
        let mut candidate = self.state.clone();
        let owned: bool = match candidate.runtime_overrides.get(&tenant) {
            Some(entry) => entry.owner == owner,
            None => false,
        };
        if owned {
            candidate.runtime_overrides.remove(&tenant);
        }
        match self.commit(candidate, persist) {
            Ok(_) => Ok(owned),
            Err(error) => Err(error),
        }
    }

    /// Sets a runtime override that is owned by the adaptive controller, unless
    /// the one in place is owned manually.
    pub fn upsert_adaptive_runtime_override<
        P: FnOnce(&PersistedStateV1) -> Result<(), StateStoreError>,
    >(&mut self, tenant: TenantKey, policy: Policy, persist: P) -> (r: Result<
        AdaptiveUpsertOutcome,
        StateStoreError,
    >)
        requires
            may_persist(
                persist,
                with_adaptive_override(old(self).desired(), tenant, policy),
            ),
        ensures
            old(self).change_to(
                final(self),
                persist,
                with_adaptive_override(old(self).desired(), tenant, policy),
                r,
            ),
            r matches Ok(outcome) ==> outcome == (if owned_by(
                old(self).desired(),
                tenant,
                RuntimeOwner::Manual,
            ) {
                AdaptiveUpsertOutcome::SkippedManualOwner
            } else {
                AdaptiveUpsertOutcome::Applied
            }),
    {
        let mut candidate = self.state.clone();
        let manual: bool = match candidate.runtime_overrides.get(&tenant) {
            Some(entry) => entry.owner == RuntimeOwner::Manual,
            None => false,
        };
        let outcome = if manual {
            AdaptiveUpsertOutcome::SkippedManualOwner
        } else {
            candidate.runtime_overrides.insert(
                tenant,
                RuntimeOverrideRecord { policy, owner: RuntimeOwner::Adaptive },
            );
            AdaptiveUpsertOutcome::Applied
        };
        match self.commit(candidate, persist) {
            Ok(_) => Ok(outcome),
            Err(error) => Err(error),
        }
    }
}

/// Whether `before` became `after` by `n` changes that left the state at
/// `desired`.
pub open spec fn moved(
    before: &StateStore,
    after: &StateStore,
    n: int,
    desired: DesiredState,
) -> bool {
    &&& after.desired() == desired
    &&& after.changes() == (before.changes() + n) % 0x1_0000_0000_0000_0000
}

/// A change that is persisted is in force and moves the revision by one; one that is not
/// changes neither the state nor the revision, and its error is the one that
/// persisting gave.
pub proof fn a_change_moves_the_revision_by_one<
    T,
    P: FnOnce(&PersistedStateV1) -> Result<(), StateStoreError>,
>(
    before: &StateStore,
    after: &StateStore,
    persist: P,
    desired: DesiredState,
    r: Result<T, StateStoreError>,
)
    requires
        before.change_to(after, persist, desired, r),
    ensures
        r is Ok ==> after.desired() == desired && after.changes() == (before.changes() + 1)
            % 0x1_0000_0000_0000_0000 && persisted(persist, desired, Ok::<(), StateStoreError>(())),
        r matches Err(error) ==> after.desired() == before.desired() && after.changes()
            == before.changes() && persisted(persist, desired, Err::<(), StateStoreError>(error)),
        moved(
            before,
            after,
            if r is Ok {
                1
            } else {
                0
            },
            if r is Ok {
                desired
            } else {
                before.desired()
            },
        ),
{
}

/// Moves are counted: after some changes the revision is that many further, modulo the
/// range, and the state is the one that they left.
pub proof fn moves_are_counted(
    before: &StateStore,
    after: &StateStore,
    n: int,
    desired: DesiredState,
)
    requires
        n >= 0,
        moved(before, after, n, desired),
    ensures
        after.desired() == desired,
        n == 0 ==> after.changes() == before.changes(),
        before.changes() + n <= 0xffff_ffff_ffff_ffff ==> after.changes() == before.changes() + n,
{
}

/// Whether `r` is how loading can have come out.
pub open spec fn load_outcome<
    F: FnOnce() -> Result<Option<PersistedStateV1>, StateStoreError>,
    P: FnOnce(&PersistedStateV1) -> Result<(), StateStoreError>,
>(
    read: F,
    persist: P,
    defaults: StateStoreDefaults,
    r: Result<StateStore, StateStoreError>,
) -> bool {
    let initial = default_state(defaults);
    let found_none = call_ensures(
        read,
        (),
        Ok::<Option<PersistedStateV1>, StateStoreError>(None),
    );
    match r {
        Ok(store) => {
            &&& store.changes() == 0
            &&& {
                ||| exists|found: PersistedStateV1|
                    store.desired() == found@ && #[trigger] call_ensures(
                        read,
                        (),
                        Ok::<Option<PersistedStateV1>, StateStoreError>(Some(found)),
                    )
                ||| found_none && store.desired() == initial && persisted(
                    persist,
                    initial,
                    Ok::<(), StateStoreError>(()),
                )
            }
        },
        Err(error) => {
            ||| call_ensures(read, (), Err::<Option<PersistedStateV1>, StateStoreError>(error))
            ||| found_none && persisted(persist, initial, Err::<(), StateStoreError>(error))
        },
    }
}

/// Loading takes what is there: a state that is found is in force as it is, whatever the
/// defaults; where none is found the defaults are, once they were persisted; and a
/// failure to read is reported.
pub proof fn loading_takes_what_is_there<
    F: FnOnce() -> Result<Option<PersistedStateV1>, StateStoreError>,
    P: FnOnce(&PersistedStateV1) -> Result<(), StateStoreError>,
>(
    read: F,
    persist: P,
    defaults: StateStoreDefaults,
    r: Result<StateStore, StateStoreError>,
    answer: Result<Option<PersistedStateV1>, StateStoreError>,
)
    requires
        load_outcome(read, persist, defaults, r),
        forall|given: Result<Option<PersistedStateV1>, StateStoreError>| #[trigger]
            call_ensures(read, (), given) ==> given == answer,
    ensures
        r matches Ok(store) ==> store.changes() == 0,
        answer matches Ok(Some(found)) ==> (r matches Ok(store) && store.desired() == found@),
        answer matches Ok(None) ==> match r {
            Ok(store) => {
                &&& store.desired().version == 1
                &&& store.desired().global_enabled == defaults.global_enabled
                &&& store.desired().flow_keys_live == defaults.flow_keys_live
                &&& store.desired().essential_tenants == defaults.essential_tenants@
                &&& store.desired().base_policies == Map::<TenantKey, Policy>::empty()
                &&& store.desired().runtime_overrides == Map::<
                    TenantKey,
                    RuntimeOverrideRecord,
                >::empty()
                &&& persisted(persist, store.desired(), Ok::<(), StateStoreError>(()))
            },
            Err(error) => exists|state: DesiredState| #[trigger]
                persisted(persist, state, Err::<(), StateStoreError>(error)),
        },
        answer matches Err(error) ==> (r matches Err(reported) && reported == error),
{
}

/// What was changed is there after a reload: where a change was stored, and what it
/// persisted is what is read, loading gives the state that is in force.
pub proof fn stored_changes_are_reloaded<
    T,
    C: FnOnce(&PersistedStateV1) -> Result<(), StateStoreError>,
    F: FnOnce() -> Result<Option<PersistedStateV1>, StateStoreError>,
    P: FnOnce(&PersistedStateV1) -> Result<(), StateStoreError>,
>(
    before: &StateStore,
    after: &StateStore,
    change: C,
    changed: DesiredState,
    outcome: T,
    read: F,
    persist: P,
    defaults: StateStoreDefaults,
    r: Result<StateStore, StateStoreError>,
)
    requires
        before.change_to(after, change, changed, Ok::<T, StateStoreError>(outcome)),
        forall|answer: Result<Option<PersistedStateV1>, StateStoreError>| #[trigger]
            call_ensures(read, (), answer) ==> (answer matches Ok(Some(found)) && found@
                == changed),
        load_outcome(read, persist, defaults, r),
    ensures
        r matches Ok(store) && store.desired() == after.desired() && store.changes() == 0,
{
}

/// The value of `key` in `table`, if it has one.
pub open spec fn lookup<K, V>(table: Map<K, V>, key: K) -> Option<V> {
    if table.dom().contains(key) {
        Some(table[key])
    } else {
        None
    }
}

/// A lookup gives the value of the key where there is one, and nothing else.
pub proof fn a_lookup_gives_what_is_there<K, V>(table: Map<K, V>, key: K, value: V)
    ensures
        lookup(table.insert(key, value), key) == Some(value),
        lookup(table.remove(key), key) is None,
        lookup(table, key) is Some <==> table.dom().contains(key),
        table.dom().contains(key) ==> lookup(table, key) == Some(table[key]),
{
}

/// Whether `owner` owns the runtime override of `tenant`.
pub open spec fn owned_by(state: DesiredState, tenant: TenantKey, owner: RuntimeOwner) -> bool {
    lookup(state.runtime_overrides, tenant) matches Some(entry) && entry.owner == owner
}

/// Whether a deletion in `mode` may remove the runtime override of `tenant`.
pub open spec fn may_delete(
    state: DesiredState,
    tenant: TenantKey,
    mode: RuntimeDeleteMode,
) -> bool {
    mode == RuntimeDeleteMode::AnyOwner || owned_by(state, tenant, RuntimeOwner::Manual)
}

/// The state with a manually owned runtime override.
pub open spec fn with_manual_override(
    state: DesiredState,
    tenant: TenantKey,
    policy: Policy,
) -> DesiredState {
    DesiredState {
        runtime_overrides: state.runtime_overrides.insert(
            tenant,
            RuntimeOverrideRecord { policy, owner: RuntimeOwner::Manual },
        ),
        ..state
    }
}

/// The state with an adaptive runtime override, unless a manual one is in place.
pub open spec fn with_adaptive_override(
    state: DesiredState,
    tenant: TenantKey,
    policy: Policy,
) -> DesiredState {
    if owned_by(state, tenant, RuntimeOwner::Manual) {
        state
    } else {
        DesiredState {
            runtime_overrides: state.runtime_overrides.insert(
                tenant,
                RuntimeOverrideRecord { policy, owner: RuntimeOwner::Adaptive },
            ),
            ..state
        }
    }
}

/// The state without a runtime override for `tenant`.
pub open spec fn without_override(state: DesiredState, tenant: TenantKey) -> DesiredState {
    DesiredState { runtime_overrides: state.runtime_overrides.remove(tenant), ..state }
}

/// A runtime override is set for its key alone and belongs to who set it: a manual one
/// replaces whatever was there, an adaptive one whatever is not manual, and nothing
/// else of the desired state changes.
pub proof fn overrides_belong_to_who_sets_them(
    state: DesiredState,
    tenant: TenantKey,
    policy: Policy,
    other: TenantKey,
)
    ensures
        ({
            let manual = with_manual_override(state, tenant, policy);
            let adaptive = with_adaptive_override(state, tenant, policy);
            let was_manual = state.runtime_overrides.dom().contains(tenant)
                && state.runtime_overrides[tenant].owner == RuntimeOwner::Manual;
            &&& manual.runtime_overrides.dom().contains(tenant)
            &&& manual.runtime_overrides[tenant].policy == policy
            &&& manual.runtime_overrides[tenant].owner == RuntimeOwner::Manual
            &&& adaptive.runtime_overrides.dom().contains(tenant)
            &&& was_manual ==> adaptive.runtime_overrides[tenant] == state.runtime_overrides[tenant]
            &&& !was_manual ==> adaptive.runtime_overrides[tenant].policy == policy
                && adaptive.runtime_overrides[tenant].owner == RuntimeOwner::Adaptive
            &&& other != tenant ==> lookup(manual.runtime_overrides, other) == lookup(
                state.runtime_overrides,
                other,
            ) && lookup(adaptive.runtime_overrides, other) == lookup(
                state.runtime_overrides,
                other,
            )
            &&& only_overrides_differ(state, manual)
            &&& only_overrides_differ(state, adaptive)
        }),
{
}

/// Whether nothing but runtime overrides differs between two states.
pub open spec fn only_overrides_differ(a: DesiredState, b: DesiredState) -> bool {
    &&& a.version == b.version
    &&& a.global_enabled == b.global_enabled
    &&& a.flow_keys_live == b.flow_keys_live
    &&& a.essential_tenants == b.essential_tenants
    &&& a.base_policies == b.base_policies
}

/// Deleting a runtime override takes away the one of its key and nothing else. A deletion
/// of manual ones may take a manual one only, any other deletion whatever is there; and
/// an owner has what it set and nothing else.
pub proof fn deletions_respect_the_owner(
    state: DesiredState,
    tenant: TenantKey,
    owner: RuntimeOwner,
    other: TenantKey,
)
    ensures
        !without_override(state, tenant).runtime_overrides.dom().contains(tenant),
        other != tenant ==> lookup(without_override(state, tenant).runtime_overrides, other)
            == lookup(state.runtime_overrides, other),
        only_overrides_differ(state, without_override(state, tenant)),
        owned_by(state, tenant, owner) <==> state.runtime_overrides.dom().contains(tenant)
            && state.runtime_overrides[tenant].owner == owner,
        may_delete(state, tenant, RuntimeDeleteMode::AnyOwner),
        may_delete(state, tenant, RuntimeDeleteMode::ManualOnly)
            <==> state.runtime_overrides.dom().contains(tenant)
            && state.runtime_overrides[tenant].owner == RuntimeOwner::Manual,
{
}

/// Manual overrides belong to their owner: no adaptive upsert, no deletion for
/// the adaptive owner changes one.
pub proof fn adaptive_changes_keep_manual_overrides(
    state: DesiredState,
    tenant: TenantKey,
    policy: Policy,
    other: TenantKey,
)
    requires
        owned_by(state, other, RuntimeOwner::Manual),
    ensures
        lookup(with_adaptive_override(state, tenant, policy).runtime_overrides, other) == lookup(
            state.runtime_overrides,
            other,
        ),
        owned_by(state, tenant, RuntimeOwner::Adaptive) ==> lookup(
            without_override(state, tenant).runtime_overrides,
            other,
        ) == lookup(state.runtime_overrides, other),
{
}

/// Whether no key occurs twice in `entries`.
pub open spec fn distinct_keys<V>(entries: Seq<(TenantKey, V)>) -> bool {
    forall|i: int, j: int|
        0 <= i < j < entries.len() ==> (#[trigger] entries[i]).0 != (#[trigger] entries[j]).0
}

/// A key that occurs twice is found, however far apart its two entries stand.
pub proof fn a_repeated_key_is_found<V>(entries: Seq<(TenantKey, V)>, i: int, j: int)
    requires
        0 <= i < entries.len(),
        0 <= j < entries.len(),
        i != j,
        entries[i].0 == entries[j].0,
    ensures
        !distinct_keys(entries),
{
    if i < j {
        assert(entries[i].0 == entries[j].0);
    } else {
        assert(entries[j].0 == entries[i].0);
    }
}

/// The table of `entries`, or nothing when a key occurs twice.
fn table_from_entries<V: Copy>(entries: &[(TenantKey, V)]) -> (r: Option<KeyedTable<TenantKey, V>>)
    ensures
        r is Some <==> distinct_keys(entries@),
        r matches Some(table) ==> table@ == map_of(entries@),
{
    let mut table: KeyedTable<TenantKey, V> = KeyedTable::new();
    let mut i: usize = 0;
    assert(table@ =~= map_of(entries@.take(0)));
    while i < entries.len()
        invariant
            i <= entries@.len(),
            distinct_keys(entries@.take(i as int)),
            table@ == map_of(entries@.take(i as int)),
        decreases entries@.len() - i,
    {
        let ghost head = entries@.take(i as int);
        let ghost next = entries@.take(i + 1);
        let (key, value): (TenantKey, V) = entries[i];
        assert(next =~= head.push((key, value)));
        let previous = table.insert(key, value);
        if previous.is_some() {
            proof {
                assert(has_key(head, key));
                let j = choose|j: int| 0 <= j < head.len() && (#[trigger] head[j]).0 == key;
                assert(entries@[j].0 == entries@[i as int].0);
            }
            return None;
        }
        proof {
            assert(!has_key(head, key));
            assert forall|a: int, b: int| 0 <= a < b < next.len() implies (#[trigger] next[a]).0
                != (#[trigger] next[b]).0 by {
                assert(next[a] == head[a]);
                if b < i {
                    assert(next[b] == head[b]);
                }
            }
            push_extends_map(head, key, value);
        }
        i += 1;
    }
    assert(entries@.take(i as int) =~= entries@);
    Some(table)
}

proof fn push_extends_map<V>(rows: Seq<(TenantKey, V)>, key: TenantKey, value: V)
    requires
        distinct_keys(rows),
        !has_key(rows, key),
    ensures
        map_of(rows.push((key, value))) == map_of(rows).insert(key, value),
{
    let all = rows.push((key, value));
    assert(all[rows.len() as int] == (key, value));
    push_adds_key(rows, (key, value));
    assert forall|k: TenantKey| has_key(all, k) implies map_of(all)[k] == map_of(rows).insert(
        key,
        value,
    )[k] by {
        let i = choose|i: int| 0 <= i < all.len() && (#[trigger] all[i]).0 == k;
        if k == key {
            if i < rows.len() {
                assert(rows[i].0 == key);
            }
        } else {
            assert(rows[i] == all[i]);
            assert(has_key(rows, k));
            let j = choose|j: int| 0 <= j < rows.len() && (#[trigger] rows[j]).0 == k;
            if i != j {
                assert(rows[i].0 != rows[j].0);
            }
        }
    }
    assert(map_of(all) =~= map_of(rows).insert(key, value));
}

/// The base policies that a state file lists.
pub fn base_policies_from_entries(entries: &[(TenantKey, Policy)]) -> (r: Result<
    KeyedTable<TenantKey, Policy>,
    &'static str,
>)
    ensures
        match r {
            Ok(table) => distinct_keys(entries@) && table@ == map_of(entries@),
            Err(reason) => !distinct_keys(entries@) && reason@
                == "duplicate base policy tenant key"@,
        },
{
    match table_from_entries(entries) {
        Some(table) => Ok(table),
        None => Err("duplicate base policy tenant key"),
    }
}

/// The runtime overrides that a state file lists.
pub fn runtime_overrides_from_entries(entries: &[(TenantKey, RuntimeOverrideRecord)]) -> (r: Result<
    KeyedTable<TenantKey, RuntimeOverrideRecord>,
    &'static str,
>)
    ensures
        match r {
            Ok(table) => distinct_keys(entries@) && table@ == map_of(entries@),
            Err(reason) => !distinct_keys(entries@) && reason@
                == "duplicate runtime override tenant key"@,
        },
{
    match table_from_entries(entries) {
        Some(table) => Ok(table),
        None => Err("duplicate runtime override tenant key"),
    }
}

/// Listing a table and reading the list back gives the same table: the list has
/// no key twice, and the table made from it has the same rows.
pub proof fn entries_read_back<V: Copy>(
    table: KeyedTable<TenantKey, V>,
    back: KeyedTable<TenantKey, V>,
)
    requires
        ascending(table.entries()),
        ascending(back.entries()),
        back@ == map_of(table.entries()),
    ensures
        distinct_keys(table.entries()),
        back.entries() == table.entries(),
        back@ == table@,
{
    let rows = table.entries();
    assert forall|i: int, j: int| 0 <= i < j < rows.len() implies (#[trigger] rows[i]).0 != (
    #[trigger] rows[j]).0 by {
        assert(rows[i].0.rank() < rows[j].0.rank());
    }
    crate::table::rows_are_canonical(back.entries(), rows);
}

/// Whether `r` is how reading a state file with the contents `data` can have come
/// out.
pub open spec fn read_outcome<
    F: FnOnce(&[u8]) -> Result<u16, String>,
    G: FnOnce(&[u8]) -> Result<PersistedStateV1, String>,
>(
    path: Seq<char>,
    data: Result<Option<Vec<u8>>, String>,
    probe: F,
    parse: G,
    r: Result<Option<PersistedStateV1>, StateStoreError>,
) -> bool {
    match data {
        Err(failure) => r matches Err(StateStoreError::ReadFile { path: place, source }) && place@
            == path && source == failure,
        Ok(None) => r matches Ok(None),
        Ok(Some(bytes)) => {
            ||| exists|failure: String|
                {
                    &&& #[trigger] probed(probe, bytes@, Err::<u16, String>(failure))
                    &&& r matches Err(StateStoreError::Parse { path: place, source }) && place@
                        == path && source == failure
                }
            ||| exists|version: u16|
                {
                    &&& #[trigger] probed(probe, bytes@, Ok::<u16, String>(version))
                    &&& version != STATE_VERSION_V1
                    &&& r matches Err(
                        StateStoreError::UnsupportedVersion { path: place, version: found },
                    ) && place@ == path && found == version
                }
            ||| {
                &&& probed(probe, bytes@, Ok::<u16, String>(STATE_VERSION_V1))
                &&& match r {
                    Ok(Some(state)) => parsed(
                        parse,
                        bytes@,
                        Ok::<PersistedStateV1, String>(state),
                    ),
                    Err(StateStoreError::Parse { path: place, source }) => place@ == path
                        && parsed(parse, bytes@, Err::<PersistedStateV1, String>(source)),
                    _ => false,
                }
            }
        },
    }
}

/// What a state file gives: nothing where there is none; its own failure where it cannot
/// be read; and else, by the version that probing finds, the state that parsing finds
/// for the first version and a refusal that names the version for any other. Failures
/// name the file.
pub proof fn only_the_first_version_is_read<
    F: FnOnce(&[u8]) -> Result<u16, String>,
    G: FnOnce(&[u8]) -> Result<PersistedStateV1, String>,
>(
    path: Seq<char>,
    data: Result<Option<Vec<u8>>, String>,
    probe: F,
    parse: G,
    r: Result<Option<PersistedStateV1>, StateStoreError>,
    answer: Result<u16, String>,
)
    requires
        read_outcome(path, data, probe, parse, r),
        forall|bytes: Vec<u8>, given: Result<u16, String>|
            data == Ok::<Option<Vec<u8>>, String>(Some(bytes)) && #[trigger] probed(
                probe,
                bytes@,
                given,
            ) ==> given == answer,
    ensures
        data matches Err(failure) ==> (r matches Err(
            StateStoreError::ReadFile { path: place, source },
        ) && place@ == path && source == failure),
        data matches Ok(None) ==> r matches Ok(None),
        data matches Ok(Some(bytes)) ==> match answer {
            Err(failure) => r matches Err(StateStoreError::Parse { path: place, source }) && place@
                == path && source == failure,
            Ok(version) => if version != 1 {
                r matches Err(
                    StateStoreError::UnsupportedVersion { path: place, version: found },
                ) && place@ == path && found == version
            } else {
                match r {
                    Ok(Some(state)) => parsed(
                        parse,
                        bytes@,
                        Ok::<PersistedStateV1, String>(state),
                    ),
                    Err(StateStoreError::Parse { path: place, source }) => place@ == path
                        && parsed(parse, bytes@, Err::<PersistedStateV1, String>(source)),
                    _ => false,
                }
            },
        },
{
}

/// Decides what the contents of a state file are: `probe` reads the version
/// alone, `parse` the whole. Nothing is parsed of a file of another version.
pub fn read_state_file<
    F: FnOnce(&[u8]) -> Result<u16, String>,
    G: FnOnce(&[u8]) -> Result<PersistedStateV1, String>,
>(path: &str, data: Result<Option<Vec<u8>>, String>, probe: F, parse: G) -> (r: Result<
    Option<PersistedStateV1>,
    StateStoreError,
>)
    requires
        forall|bytes: &[u8]|
            data matches Ok(Some(found)) && bytes@ == found@ ==> #[trigger] call_requires(
                probe,
                (bytes,),
            ),
        forall|bytes: &[u8]|
            data matches Ok(Some(found)) && bytes@ == found@ && probed(
                probe,
                found@,
                Ok::<u16, String>(STATE_VERSION_V1),
            ) ==> #[trigger] call_requires(parse, (bytes,)),
    ensures
        read_outcome(path@, data, probe, parse, r),
{
    let bytes = match data {
        Err(source) => return Err(StateStoreError::ReadFile { path: path.to_owned(), source }),
        Ok(None) => return Ok(None),
        Ok(Some(bytes)) => bytes,
    };
    match probe(bytes.as_slice()) {
        Err(source) => {
            assert(probed(probe, bytes@, Err::<u16, String>(source)));
            return Err(StateStoreError::Parse { path: path.to_owned(), source });
        },
        Ok(version) => {
            assert(probed(probe, bytes@, Ok::<u16, String>(version)));
            if version != STATE_VERSION_V1 {
                return Err(
                    StateStoreError::UnsupportedVersion { path: path.to_owned(), version },
                );
            }
        },
    }
    match parse(bytes.as_slice()) {
        Err(source) => {
            assert(parsed(parse, bytes@, Err::<PersistedStateV1, String>(source)));
            Err(StateStoreError::Parse { path: path.to_owned(), source })
        },
        Ok(state) => {
            assert(parsed(parse, bytes@, Ok::<PersistedStateV1, String>(state)));
            Ok(Some(state))
        },
    }
}

/// Whether `probe` can answer `r` for `bytes`.
pub open spec fn probed<F: FnOnce(&[u8]) -> Result<u16, String>>(
    probe: F,
    bytes: Seq<u8>,
    r: Result<u16, String>,
) -> bool {
    exists|slice: &[u8]| slice@ == bytes && #[trigger] call_ensures(probe, (slice,), r)
}

/// Whether `parse` can answer `r` for `bytes`.
pub open spec fn parsed<G: FnOnce(&[u8]) -> Result<PersistedStateV1, String>>(
    parse: G,
    bytes: Seq<u8>,
    r: Result<PersistedStateV1, String>,
) -> bool {
    exists|slice: &[u8]| slice@ == bytes && #[trigger] call_ensures(parse, (slice,), r)
}

/// One step of replacing the state file.
#[derive(Clone, Copy, Debug, PartialEq, Eq, Structural)]
pub enum PersistStep {
    /// Create the directory of the file.
    CreateParent,
    /// Remove a temporary file that an earlier attempt left behind.
    RemoveStaleTemp,
    /// Encode the state.
    Encode,
    /// Create the temporary file; it must not exist.
    CreateTemp,
    /// Write the encoded state to the temporary file and flush it to disk.
    WriteTemp,
    /// Rename the temporary file to the state file.
    Rename,
    /// Flush the directory to disk.
    SyncParent,
}

/// The steps of replacing the state file, in order. A file without a directory
/// part needs neither of the directory steps.
pub open spec fn persist_plan(has_parent: bool) -> Seq<PersistStep> {
    let replace = seq![
        PersistStep::RemoveStaleTemp,
        PersistStep::Encode,
        PersistStep::CreateTemp,
        PersistStep::WriteTemp,
        PersistStep::Rename,
    ];
    if has_parent {
        seq![PersistStep::CreateParent] + replace + seq![PersistStep::SyncParent]
    } else {
        replace
    }
}

/// The operations that replace the state file. Each can be called once.
pub struct StateFileOps<C, R, E, T, W, N, Y> {
    pub create_parent: C,
    pub remove_stale_temp: R,
    pub encode: E,
    pub create_temp: T,
    pub write_temp: W,
    pub rename: N,
    pub sync_parent: Y,
}

/// Whether a state file with the directory part `parent` has one.
pub open spec fn has_directory(parent: Seq<char>) -> bool {
    parent.len() > 0
}

/// Whether the directory was created, where there is one.
pub open spec fn parent_created<C: FnOnce() -> Result<(), String>, R, E, T, W, N, Y>(
    ops: StateFileOps<C, R, E, T, W, N, Y>,
    has_parent: bool,
) -> bool {
    has_parent ==> call_ensures(ops.create_parent, (), Ok::<(), String>(()))
}

/// Whether the steps up to removing a stale temporary file were performed.
pub open spec fn stale_temp_removed<
    C: FnOnce() -> Result<(), String>,
    R: FnOnce() -> Result<(), String>,
    E,
    T,
    W,
    N,
    Y,
>(ops: StateFileOps<C, R, E, T, W, N, Y>, has_parent: bool) -> bool {
    parent_created(ops, has_parent) && call_ensures(
        ops.remove_stale_temp,
        (),
        Ok::<(), String>(()),
    )
}

/// Whether the steps up to encoding were performed, and gave `encoded`.
pub open spec fn state_encoded<
    C: FnOnce() -> Result<(), String>,
    R: FnOnce() -> Result<(), String>,
    E: FnOnce(&PersistedStateV1) -> Result<Vec<u8>, String>,
    T,
    W,
    N,
    Y,
>(
    ops: StateFileOps<C, R, E, T, W, N, Y>,
    has_parent: bool,
    state: &PersistedStateV1,
    encoded: Vec<u8>,
) -> bool {
    stale_temp_removed(ops, has_parent) && call_ensures(
        ops.encode,
        (state,),
        Ok::<Vec<u8>, String>(encoded),
    )
}

/// Whether the steps up to creating the temporary file were performed, and gave
/// `encoded` and `handle`.
pub open spec fn temp_created<
    H,
    C: FnOnce() -> Result<(), String>,
    R: FnOnce() -> Result<(), String>,
    E: FnOnce(&PersistedStateV1) -> Result<Vec<u8>, String>,
    T: FnOnce() -> Result<H, String>,
    W,
    N,
    Y,
>(
    ops: StateFileOps<C, R, E, T, W, N, Y>,
    has_parent: bool,
    state: &PersistedStateV1,
    encoded: Vec<u8>,
    handle: H,
) -> bool {
    state_encoded(ops, has_parent, state, encoded) && call_ensures(
        ops.create_temp,
        (),
        Ok::<H, String>(handle),
    )
}

/// The contents of the state file for an encoded state: with a line feed at the
/// end.
pub open spec fn framed(encoded: Seq<u8>) -> Seq<u8> {
    encoded.push(0x0a)
}

/// Whether writing the whole of `contents` to `handle` can have come out as `r`.
pub open spec fn wrote_temp<H, W: FnOnce(H, &[u8]) -> Result<(), String>>(
    write: W,
    handle: H,
    contents: Seq<u8>,
    r: Result<(), String>,
) -> bool {
    exists|bytes: &[u8]| bytes@ == contents && #[trigger] call_ensures(write, (handle, bytes), r)
}

/// Whether the steps up to writing the temporary file were performed.
pub open spec fn temp_written<
    H,
    C: FnOnce() -> Result<(), String>,
    R: FnOnce() -> Result<(), String>,
    E: FnOnce(&PersistedStateV1) -> Result<Vec<u8>, String>,
    T: FnOnce() -> Result<H, String>,
    W: FnOnce(H, &[u8]) -> Result<(), String>,
    N,
    Y,
>(
    ops: StateFileOps<C, R, E, T, W, N, Y>,
    has_parent: bool,
    state: &PersistedStateV1,
    encoded: Vec<u8>,
    handle: H,
) -> bool {
    temp_created(ops, has_parent, state, encoded, handle) && wrote_temp(
        ops.write_temp,
        handle,
        framed(encoded@),
        Ok::<(), String>(()),
    )
}

/// Whether the steps up to the rename were performed.
pub open spec fn state_renamed<
    H,
    C: FnOnce() -> Result<(), String>,
    R: FnOnce() -> Result<(), String>,
    E: FnOnce(&PersistedStateV1) -> Result<Vec<u8>, String>,
    T: FnOnce() -> Result<H, String>,
    W: FnOnce(H, &[u8]) -> Result<(), String>,
    N: FnOnce() -> Result<(), String>,
    Y,
>(
    ops: StateFileOps<C, R, E, T, W, N, Y>,
    has_parent: bool,
    state: &PersistedStateV1,
    encoded: Vec<u8>,
    handle: H,
) -> bool {
    temp_written(ops, has_parent, state, encoded, handle) && call_ensures(
        ops.rename,
        (),
        Ok::<(), String>(()),
    )
}

/// Whether every step before `step` was performed, and `step` failed for `reason`.
pub open spec fn stopped_at<
    H,
    C: FnOnce() -> Result<(), String>,
    R: FnOnce() -> Result<(), String>,
    E: FnOnce(&PersistedStateV1) -> Result<Vec<u8>, String>,
    T: FnOnce() -> Result<H, String>,
    W: FnOnce(H, &[u8]) -> Result<(), String>,
    N: FnOnce() -> Result<(), String>,
    Y: FnOnce() -> Result<(), String>,
>(
    ops: StateFileOps<C, R, E, T, W, N, Y>,
    has_parent: bool,
    state: &PersistedStateV1,
    step: PersistStep,
    reason: String,
) -> bool {
    let failed = Err::<(), String>(reason);
    match step {
        PersistStep::CreateParent => has_parent && call_ensures(ops.create_parent, (), failed),
        PersistStep::RemoveStaleTemp => parent_created(ops, has_parent) && call_ensures(
            ops.remove_stale_temp,
            (),
            failed,
        ),
        PersistStep::Encode => stale_temp_removed(ops, has_parent) && call_ensures(
            ops.encode,
            (state,),
            Err::<Vec<u8>, String>(reason),
        ),
        PersistStep::CreateTemp => {
            &&& exists|encoded: Vec<u8>| #[trigger] state_encoded(ops, has_parent, state, encoded)
            &&& call_ensures(ops.create_temp, (), Err::<H, String>(reason))
        },
        PersistStep::WriteTemp => exists|encoded: Vec<u8>, handle: H| #[trigger]
            temp_created(ops, has_parent, state, encoded, handle) && wrote_temp(
                ops.write_temp,
                handle,
                framed(encoded@),
                failed,
            ),
        PersistStep::Rename => {
            &&& exists|encoded: Vec<u8>, handle: H| #[trigger]
                temp_written(ops, has_parent, state, encoded, handle)
            &&& call_ensures(ops.rename, (), failed)
        },
        PersistStep::SyncParent => {
            &&& has_parent
            &&& exists|encoded: Vec<u8>, handle: H| #[trigger]
                state_renamed(ops, has_parent, state, encoded, handle)
            &&& call_ensures(ops.sync_parent, (), failed)
        },
    }
}

/// A replacement stops at the step that failed, for the reason that the step gave, and
/// only once every step before it was performed.
pub proof fn a_replacement_stops_where_it_failed<
    H,
    C: FnOnce() -> Result<(), String>,
    R: FnOnce() -> Result<(), String>,
    E: FnOnce(&PersistedStateV1) -> Result<Vec<u8>, String>,
    T: FnOnce() -> Result<H, String>,
    W: FnOnce(H, &[u8]) -> Result<(), String>,
    N: FnOnce() -> Result<(), String>,
    Y: FnOnce() -> Result<(), String>,
>(
    ops: StateFileOps<C, R, E, T, W, N, Y>,
    has_parent: bool,
    state: &PersistedStateV1,
    step: PersistStep,
    reason: String,
)
    requires
        stopped_at(ops, has_parent, state, step, reason),
    ensures
        step is CreateParent || step is SyncParent ==> has_parent,
        step is CreateParent ==> call_ensures(ops.create_parent, (), Err::<(), String>(reason)),
        !(step is CreateParent) && has_parent ==> call_ensures(
            ops.create_parent,
            (),
            Ok::<(), String>(()),
        ),
        step is RemoveStaleTemp ==> call_ensures(
            ops.remove_stale_temp,
            (),
            Err::<(), String>(reason),
        ),
        step is Encode || step is CreateTemp || step is WriteTemp || step is Rename
            || step is SyncParent ==> call_ensures(ops.remove_stale_temp, (), Ok::<(), String>(())),
        step is Encode ==> call_ensures(ops.encode, (state,), Err::<Vec<u8>, String>(reason)),
        step is CreateTemp || step is WriteTemp || step is Rename || step is SyncParent
            ==> exists|encoded: Vec<u8>| #[trigger]
            call_ensures(ops.encode, (state,), Ok::<Vec<u8>, String>(encoded)),
        step is CreateTemp ==> call_ensures(ops.create_temp, (), Err::<H, String>(reason)),
        step is WriteTemp ==> exists|encoded: Vec<u8>, handle: H, bytes: &[u8]|
            {
                &&& #[trigger] call_ensures(ops.encode, (state,), Ok::<Vec<u8>, String>(encoded))
                &&& call_ensures(ops.create_temp, (), Ok::<H, String>(handle))
                &&& #[trigger] call_ensures(
                    ops.write_temp,
                    (handle, bytes),
                    Err::<(), String>(reason),
                )
                &&& bytes@ == encoded@ + seq![0x0au8]
            },
        step is Rename || step is SyncParent ==> exists|
            encoded: Vec<u8>,
            handle: H,
            bytes: &[u8],
        |
            {
                &&& #[trigger] call_ensures(ops.encode, (state,), Ok::<Vec<u8>, String>(encoded))
                &&& call_ensures(ops.create_temp, (), Ok::<H, String>(handle))
                &&& #[trigger] call_ensures(ops.write_temp, (handle, bytes), Ok::<(), String>(()))
                &&& bytes@ == encoded@ + seq![0x0au8]
            },
        step is Rename ==> call_ensures(ops.rename, (), Err::<(), String>(reason)),
        step is SyncParent ==> call_ensures(ops.rename, (), Ok::<(), String>(())) && call_ensures(
            ops.sync_parent,
            (),
            Err::<(), String>(reason),
        ),
{
    match step {
        PersistStep::CreateTemp => {
            let encoded = choose|encoded: Vec<u8>| #[trigger]
                state_encoded(ops, has_parent, state, encoded);
            assert(call_ensures(ops.encode, (state,), Ok::<Vec<u8>, String>(encoded)));
        },
        PersistStep::WriteTemp => {
            let (encoded, handle) = choose|encoded: Vec<u8>, handle: H| #[trigger]
                temp_created(ops, has_parent, state, encoded, handle) && wrote_temp(
                    ops.write_temp,
                    handle,
                    framed(encoded@),
                    Err::<(), String>(reason),
                );
            assert(call_ensures(ops.encode, (state,), Ok::<Vec<u8>, String>(encoded)));
            let bytes = choose|bytes: &[u8]|
                bytes@ == framed(encoded@) && #[trigger] call_ensures(
                    ops.write_temp,
                    (handle, bytes),
                    Err::<(), String>(reason),
                );
            assert(call_ensures(ops.write_temp, (handle, bytes), Err::<(), String>(reason)));
            assert(bytes@ =~= encoded@ + seq![0x0au8]);
        },
        PersistStep::Rename => {
            let (encoded, handle) = choose|encoded: Vec<u8>, handle: H| #[trigger]
                temp_written(ops, has_parent, state, encoded, handle);
            what_was_written(ops, has_parent, state, encoded, handle);
        },
        PersistStep::SyncParent => {
            let (encoded, handle) = choose|encoded: Vec<u8>, handle: H| #[trigger]
                state_renamed(ops, has_parent, state, encoded, handle);
            what_was_written(ops, has_parent, state, encoded, handle);
        },
        _ => {},
    }
}

proof fn what_was_written<
    H,
    C: FnOnce() -> Result<(), String>,
    R: FnOnce() -> Result<(), String>,
    E: FnOnce(&PersistedStateV1) -> Result<Vec<u8>, String>,
    T: FnOnce() -> Result<H, String>,
    W: FnOnce(H, &[u8]) -> Result<(), String>,
    N,
    Y,
>(
    ops: StateFileOps<C, R, E, T, W, N, Y>,
    has_parent: bool,
    state: &PersistedStateV1,
    encoded: Vec<u8>,
    handle: H,
)
    requires
        temp_written(ops, has_parent, state, encoded, handle),
    ensures
        call_ensures(ops.encode, (state,), Ok::<Vec<u8>, String>(encoded)),
        call_ensures(ops.create_temp, (), Ok::<H, String>(handle)),
        exists|bytes: &[u8]|
            bytes@ == encoded@ + seq![0x0au8] && #[trigger] call_ensures(
                ops.write_temp,
                (handle, bytes),
                Ok::<(), String>(()),
            ),
{
    let bytes = choose|bytes: &[u8]|
        bytes@ == framed(encoded@) && #[trigger] call_ensures(
            ops.write_temp,
            (handle, bytes),
            Ok::<(), String>(()),
        );
    assert(call_ensures(ops.write_temp, (handle, bytes), Ok::<(), String>(())));
    assert(bytes@ =~= encoded@ + seq![0x0au8]);
}

/// Which file a failed step is reported under.
pub open spec fn blamed_path(
    step: PersistStep,
    path: Seq<char>,
    parent: Seq<char>,
    tmp: Seq<char>,
) -> Seq<char> {
    match step {
        PersistStep::CreateParent | PersistStep::SyncParent => parent,
        PersistStep::RemoveStaleTemp | PersistStep::CreateTemp | PersistStep::WriteTemp => tmp,
        PersistStep::Encode | PersistStep::Rename => path,
    }
}

/// Whether `error` reports that `step` failed for `reason`.
pub open spec fn reports_step(
    error: StateStoreError,
    step: PersistStep,
    path: Seq<char>,
    parent: Seq<char>,
    tmp: Seq<char>,
    reason: String,
) -> bool {
    match error {
        StateStoreError::Parse { path: place, source } => step == PersistStep::Encode && place@
            == path && source == reason,
        StateStoreError::WriteFile { path: place, source } => step != PersistStep::Encode && place@
            == blamed_path(step, path, parent, tmp) && source == reason,
        _ => false,
    }
}

fn step_error(step: PersistStep, path: &str, parent: &str, tmp: &str, reason: String) -> (error:
    StateStoreError)
    ensures
        reports_step(error, step, path@, parent@, tmp@, reason),
{
    match step {
        PersistStep::Encode => StateStoreError::Parse { path: path.to_owned(), source: reason },
        PersistStep::Rename => StateStoreError::WriteFile { path: path.to_owned(), source: reason },
        PersistStep::CreateParent
        | PersistStep::SyncParent => StateStoreError::WriteFile {
            path: parent.to_owned(),
            source: reason,
        },
        PersistStep::RemoveStaleTemp
        | PersistStep::CreateTemp
        | PersistStep::WriteTemp => StateStoreError::WriteFile {
            path: tmp.to_owned(),
            source: reason,
        },
    }
}

/// Whether `r` is how replacing the state file can have come out: every step was
/// performed, or one failed after all before it were.
pub open spec fn persist_outcome<
    H,
    C: FnOnce() -> Result<(), String>,
    R: FnOnce() -> Result<(), String>,
    E: FnOnce(&PersistedStateV1) -> Result<Vec<u8>, String>,
    T: FnOnce() -> Result<H, String>,
    W: FnOnce(H, &[u8]) -> Result<(), String>,
    N: FnOnce() -> Result<(), String>,
    Y: FnOnce() -> Result<(), String>,
>(
    path: Seq<char>,
    parent: Seq<char>,
    tmp: Seq<char>,
    state: &PersistedStateV1,
    ops: StateFileOps<C, R, E, T, W, N, Y>,
    r: Result<(), StateStoreError>,
) -> bool {
    let has_parent = has_directory(parent);
    match r {
        Ok(_) => {
            &&& exists|encoded: Vec<u8>, handle: H| #[trigger]
                state_renamed(ops, has_parent, state, encoded, handle)
            &&& has_parent ==> call_ensures(ops.sync_parent, (), Ok::<(), String>(()))
        },
        Err(error) => exists|step: PersistStep, reason: String|
            {
                &&& #[trigger] stopped_at(ops, has_parent, state, step, reason)
                &&& reports_step(error, step, path, parent, tmp, reason)
            },
    }
}

/// Replaces the state file step by step, up to the first step that fails. An empty
/// `parent` means that the file has no directory part. No step may be performed
/// before all before it were, nor after one failed; what is written is the whole
/// encoded state with a line feed.
pub fn persist_state_file<
    H,
    C: FnOnce() -> Result<(), String>,
    R: FnOnce() -> Result<(), String>,
    E: FnOnce(&PersistedStateV1) -> Result<Vec<u8>, String>,
    T: FnOnce() -> Result<H, String>,
    W: FnOnce(H, &[u8]) -> Result<(), String>,
    N: FnOnce() -> Result<(), String>,
    Y: FnOnce() -> Result<(), String>,
>(
    path: &str,
    parent: &str,
    tmp: &str,
    state: &PersistedStateV1,
    ops: StateFileOps<C, R, E, T, W, N, Y>,
) -> (r: Result<(), StateStoreError>)
    requires
        has_directory(parent@) ==> call_requires(ops.create_parent, ()),
        parent_created(ops, has_directory(parent@)) ==> call_requires(ops.remove_stale_temp, ()),
        stale_temp_removed(ops, has_directory(parent@)) ==> call_requires(ops.encode, (state,)),
        forall|encoded: Vec<u8>| #[trigger]
            state_encoded(ops, has_directory(parent@), state, encoded) ==> call_requires(
                ops.create_temp,
                (),
            ),
        forall|encoded: Vec<u8>, handle: H, bytes: &[u8]|
            #![trigger temp_created(ops, has_directory(parent@), state, encoded, handle), call_requires(ops.write_temp, (handle, bytes))]
            temp_created(ops, has_directory(parent@), state, encoded, handle) && bytes@ == framed(
                encoded@,
            ) ==> call_requires(ops.write_temp, (handle, bytes)),
        forall|encoded: Vec<u8>, handle: H| #[trigger]
            temp_written(ops, has_directory(parent@), state, encoded, handle) ==> call_requires(
                ops.rename,
                (),
            ),
        forall|encoded: Vec<u8>, handle: H| #[trigger]
            state_renamed(ops, has_directory(parent@), state, encoded, handle) && has_directory(parent@)
                ==> call_requires(ops.sync_parent, ()),
    ensures
        persist_outcome(path@, parent@, tmp@, state, ops, r),
{
    let has_parent: bool = !parent.is_empty();
    let ghost whole = ops;
    let StateFileOps {
        create_parent,
        remove_stale_temp,
        encode,
        create_temp,
        write_temp,
        rename,
        sync_parent,
    } = ops;
    if has_parent {
        match create_parent() {
            Ok(unit) => {
                assert(unit == ());
            },
            Err(reason) => {
                assert(stopped_at(whole, has_parent, state, PersistStep::CreateParent, reason));
                return Err(step_error(PersistStep::CreateParent, path, parent, tmp, reason));
            },
        }
    }
    match remove_stale_temp() {
        Ok(unit) => {
            assert(unit == ());
        },
        Err(reason) => {
            assert(stopped_at(whole, has_parent, state, PersistStep::RemoveStaleTemp, reason));
            return Err(step_error(PersistStep::RemoveStaleTemp, path, parent, tmp, reason));
        },
    }
    let encoded = match encode(state) {
        Ok(encoded) => encoded,
        Err(reason) => {
            assert(stopped_at(whole, has_parent, state, PersistStep::Encode, reason));
            return Err(step_error(PersistStep::Encode, path, parent, tmp, reason));
        },
    };
    let ghost json = encoded;
    assert(state_encoded(whole, has_parent, state, json));
    let handle = match create_temp() {
        Ok(handle) => handle,
        Err(reason) => {
            assert(stopped_at(whole, has_parent, state, PersistStep::CreateTemp, reason));
            return Err(step_error(PersistStep::CreateTemp, path, parent, tmp, reason));
        },
    };
    let ghost file = handle;
    assert(temp_created(whole, has_parent, state, json, file));
    let contents = frame_state(encoded);
    let bytes: &[u8] = contents.as_slice();
    match write_temp(handle, bytes) {
        Ok(unit) => {
            assert(unit == ());
        },
        Err(reason) => {
            assert(stopped_at(whole, has_parent, state, PersistStep::WriteTemp, reason));
            return Err(step_error(PersistStep::WriteTemp, path, parent, tmp, reason));
        },
    }
    assert(wrote_temp(write_temp, file, framed(json@), Ok::<(), String>(())));
    assert(temp_written(whole, has_parent, state, json, file));
    match rename() {
        Ok(unit) => {
            assert(unit == ());
        },
        Err(reason) => {
            assert(stopped_at(whole, has_parent, state, PersistStep::Rename, reason));
            return Err(step_error(PersistStep::Rename, path, parent, tmp, reason));
        },
    }
    assert(state_renamed(whole, has_parent, state, json, file));
    if has_parent {
        match sync_parent() {
            Ok(unit) => {
                assert(unit == ());
            },
            Err(reason) => {
                assert(stopped_at(whole, has_parent, state, PersistStep::SyncParent, reason));
                return Err(step_error(PersistStep::SyncParent, path, parent, tmp, reason));
            },
        }
    }
    Ok(())
}

/// What a successful replacement did: a stale temporary file was removed, the state was
/// encoded, the encoded bytes and a line feed were written to a new temporary file, and
/// that was renamed; a file with a directory part had its directory created before and
/// flushed after.
pub proof fn a_replaced_file_was_written_whole<
    H,
    C: FnOnce() -> Result<(), String>,
    R: FnOnce() -> Result<(), String>,
    E: FnOnce(&PersistedStateV1) -> Result<Vec<u8>, String>,
    T: FnOnce() -> Result<H, String>,
    W: FnOnce(H, &[u8]) -> Result<(), String>,
    N: FnOnce() -> Result<(), String>,
    Y: FnOnce() -> Result<(), String>,
>(
    path: Seq<char>,
    parent: Seq<char>,
    tmp: Seq<char>,
    state: &PersistedStateV1,
    ops: StateFileOps<C, R, E, T, W, N, Y>,
)
    requires
        persist_outcome(path, parent, tmp, state, ops, Ok::<(), StateStoreError>(())),
    ensures
        call_ensures(ops.remove_stale_temp, (), Ok::<(), String>(())),
        call_ensures(ops.rename, (), Ok::<(), String>(())),
        parent.len() > 0 ==> call_ensures(ops.create_parent, (), Ok::<(), String>(()))
            && call_ensures(ops.sync_parent, (), Ok::<(), String>(())),
        exists|encoded: Vec<u8>, handle: H, bytes: &[u8]|
            {
                &&& #[trigger] call_ensures(ops.encode, (state,), Ok::<Vec<u8>, String>(encoded))
                &&& call_ensures(ops.create_temp, (), Ok::<H, String>(handle))
                &&& #[trigger] call_ensures(ops.write_temp, (handle, bytes), Ok::<(), String>(()))
                &&& bytes@ == encoded@ + seq![0x0au8]
            },
{
    let (encoded, handle) = choose|encoded: Vec<u8>, handle: H| #[trigger]
        state_renamed(ops, has_directory(parent), state, encoded, handle);
    what_was_written(ops, has_directory(parent), state, encoded, handle);
}

/// A failed step is reported with its reason, and under the file that it was about: the
/// directory for the directory steps, the temporary file for those on it, and the state
/// file for encoding, which is a parse failure, and for the rename.
pub proof fn failed_steps_name_their_file(
    error: StateStoreError,
    step: PersistStep,
    path: Seq<char>,
    parent: Seq<char>,
    tmp: Seq<char>,
    reason: String,
)
    requires
        reports_step(error, step, path, parent, tmp, reason),
    ensures
        step is Encode ==> (error matches StateStoreError::Parse { path: place, source } && place@
            == path && source == reason),
        step is Rename ==> (error matches StateStoreError::WriteFile { path: place, source }
            && place@ == path && source == reason),
        step is CreateParent || step is SyncParent ==> (error matches StateStoreError::WriteFile {
            path: place,
            source,
        } && place@ == parent && source == reason),
        step is RemoveStaleTemp || step is CreateTemp || step is WriteTemp ==> (
        error matches StateStoreError::WriteFile { path: place, source } && place@ == tmp && source
            == reason),
{
}

/// The contents of the state file and of the temporary file beside it.
#[verifier::ext_equal]
pub struct Disk {
    pub file: Option<Seq<u8>>,
    pub temp: Option<Seq<u8>>,
}

/// What a step that is performed does to the files.
pub open spec fn after_step(disk: Disk, step: PersistStep, contents: Seq<u8>) -> Disk {
    match step {
        PersistStep::RemoveStaleTemp => Disk { temp: None, ..disk },
        PersistStep::CreateTemp => Disk { temp: Some(seq![]), ..disk },
        PersistStep::WriteTemp => Disk { temp: Some(contents), ..disk },
        PersistStep::Rename => Disk { file: disk.temp, temp: None },
        PersistStep::CreateParent | PersistStep::Encode | PersistStep::SyncParent => disk,
    }
}

/// What the steps do to the files, one after the other.
pub open spec fn after_steps(disk: Disk, steps: Seq<PersistStep>, contents: Seq<u8>) -> Disk
    decreases steps.len(),
{
    if steps.len() == 0 {
        disk
    } else {
        after_step(after_steps(disk, steps.drop_last(), contents), steps.last(), contents)
    }
}

/// A step that fails leaves the state file alone; of the temporary file it may
/// leave anything.
pub open spec fn after_failure(disk: Disk, left: Option<Seq<u8>>) -> Disk {
    Disk { temp: left, ..disk }
}

/// However far the plan is carried out, the state file holds what it held before or
/// the whole of the new contents, and the new contents exactly where the rename was
/// performed.
proof fn plan_leaves_the_file_whole(
    has_parent: bool,
    n: int,
    disk: Disk,
    contents: Seq<u8>,
)
    requires
        0 <= n <= persist_plan(has_parent).len(),
    ensures
        ({
            let plan = persist_plan(has_parent);
            let reached = after_steps(disk, plan.take(n), contents);
            &&& reached.file == (if plan.take(n).contains(PersistStep::Rename) {
                Some(contents)
            } else {
                disk.file
            })
            &&& plan.take(n).contains(PersistStep::Rename) ==> plan.take(n).contains(
                PersistStep::Encode,
            )
            &&& n == plan.len() ==> reached == (Disk { file: Some(contents), temp: None })
        }),
{
    let plan = persist_plan(has_parent);
    reveal_with_fuel(after_steps, 8);
    if has_parent {
        assert(plan =~= seq![
            PersistStep::CreateParent,
            PersistStep::RemoveStaleTemp,
            PersistStep::Encode,
            PersistStep::CreateTemp,
            PersistStep::WriteTemp,
            PersistStep::Rename,
            PersistStep::SyncParent,
        ]);
    }
    assert forall|k: int| 0 < k <= n implies #[trigger] plan.take(k).drop_last() == plan.take(k - 1)
        && plan.take(k).last() == plan[k - 1] by {}
    plan_is_carried_out_stepwise(disk, plan, contents, n);
}

proof fn plan_is_carried_out_stepwise(
    disk: Disk,
    plan: Seq<PersistStep>,
    contents: Seq<u8>,
    n: int,
)
    requires
        0 <= n <= plan.len(),
    ensures
        n > 0 ==> after_steps(disk, plan.take(n), contents) == after_step(
            after_steps(disk, plan.take(n - 1), contents),
            plan[n - 1],
            contents,
        ),
    decreases n,
{
    if n > 0 {
        assert(plan.take(n).drop_last() =~= plan.take(n - 1));
        plan_is_carried_out_stepwise(disk, plan, contents, n - 1);
    }
}

/// Whether replacing the state file on `before`, which came out as `r`, can have left
/// `after`: each step that was performed did to the files what it is for, and one
/// that failed left the state file alone.
pub open spec fn left_on_disk<
    H,
    C: FnOnce() -> Result<(), String>,
    R: FnOnce() -> Result<(), String>,
    E: FnOnce(&PersistedStateV1) -> Result<Vec<u8>, String>,
    T: FnOnce() -> Result<H, String>,
    W: FnOnce(H, &[u8]) -> Result<(), String>,
    N: FnOnce() -> Result<(), String>,
    Y: FnOnce() -> Result<(), String>,
>(
    path: Seq<char>,
    parent: Seq<char>,
    tmp: Seq<char>,
    state: &PersistedStateV1,
    ops: StateFileOps<C, R, E, T, W, N, Y>,
    r: Result<(), StateStoreError>,
    before: Disk,
    after: Disk,
) -> bool {
    let has_parent = has_directory(parent);
    let plan = persist_plan(has_parent);
    match r {
        Ok(_) => exists|encoded: Vec<u8>, handle: H| #[trigger]
            state_renamed(ops, has_parent, state, encoded, handle) && after == after_steps(
                before,
                plan,
                framed(encoded@),
            ),
        Err(error) => exists|
            step: PersistStep,
            reason: String,
            n: int,
            encoded: Vec<u8>,
            left: Option<Seq<u8>>,
        |
            {
                &&& #[trigger] stopped_at(ops, has_parent, state, step, reason)
                &&& reports_step(error, step, path, parent, tmp, reason)
                &&& 0 <= n < plan.len()
                &&& plan[n] == step
                &&& plan.take(n).contains(PersistStep::Encode) ==> call_ensures(
                    ops.encode,
                    (state,),
                    Ok::<Vec<u8>, String>(encoded),
                )
                &&& after == #[trigger] after_failure(
                    #[trigger] after_steps(before, plan.take(n), framed(encoded@)),
                    left,
                )
            },
    }
}

/// The state file is never partial: however replacing it comes out, it holds what it
/// held before or the whole of the encoded state and a line feed. On success it holds
/// the latter, and no temporary file is left.
pub proof fn state_file_is_whole<
    H,
    C: FnOnce() -> Result<(), String>,
    R: FnOnce() -> Result<(), String>,
    E: FnOnce(&PersistedStateV1) -> Result<Vec<u8>, String>,
    T: FnOnce() -> Result<H, String>,
    W: FnOnce(H, &[u8]) -> Result<(), String>,
    N: FnOnce() -> Result<(), String>,
    Y: FnOnce() -> Result<(), String>,
>(
    path: Seq<char>,
    parent: Seq<char>,
    tmp: Seq<char>,
    state: &PersistedStateV1,
    ops: StateFileOps<C, R, E, T, W, N, Y>,
    r: Result<(), StateStoreError>,
    before: Disk,
    after: Disk,
)
    requires
        left_on_disk(path, parent, tmp, state, ops, r, before, after),
    ensures
        after.file == before.file || exists|encoded: Vec<u8>| #[trigger]
            call_ensures(ops.encode, (state,), Ok::<Vec<u8>, String>(encoded)) && after.file
                == Some(framed(encoded@)),
        r is Ok ==> after.temp is None && exists|encoded: Vec<u8>| #[trigger]
            call_ensures(ops.encode, (state,), Ok::<Vec<u8>, String>(encoded)) && after.file
                == Some(framed(encoded@)),
{
    let has_parent = has_directory(parent);
    let plan = persist_plan(has_parent);
    match r {
        Ok(_) => {
            let (encoded, handle) = choose|encoded: Vec<u8>, handle: H| #[trigger]
                state_renamed(ops, has_parent, state, encoded, handle) && after == after_steps(
                    before,
                    plan,
                    framed(encoded@),
                );
            plan_leaves_the_file_whole(has_parent, plan.len() as int, before, framed(encoded@));
            assert(plan.take(plan.len() as int) =~= plan);
        },
        Err(error) => {
            let (step, reason, n, encoded, left) = choose|
                step: PersistStep,
                reason: String,
                n: int,
                encoded: Vec<u8>,
                left: Option<Seq<u8>>,
            |
                {
                    &&& #[trigger] stopped_at(ops, has_parent, state, step, reason)
                    &&& reports_step(error, step, path, parent, tmp, reason)
                    &&& 0 <= n < plan.len()
                    &&& plan[n] == step
                    &&& plan.take(n).contains(PersistStep::Encode) ==> call_ensures(
                        ops.encode,
                        (state,),
                        Ok::<Vec<u8>, String>(encoded),
                    )
                    &&& after == #[trigger] after_failure(
                        #[trigger] after_steps(before, plan.take(n), framed(encoded@)),
                        left,
                    )
                };
            plan_leaves_the_file_whole(has_parent, n, before, framed(encoded@));
        },
    }
}

/// What was persisted is read back: where a state of this version was persisted and
/// the file holds what that left, and probing and parsing invert the encoding,
/// reading gives that state.
pub proof fn persisted_state_reads_back<
    H,
    C: FnOnce() -> Result<(), String>,
    R: FnOnce() -> Result<(), String>,
    E: FnOnce(&PersistedStateV1) -> Result<Vec<u8>, String>,
    T: FnOnce() -> Result<H, String>,
    W: FnOnce(H, &[u8]) -> Result<(), String>,
    N: FnOnce() -> Result<(), String>,
    Y: FnOnce() -> Result<(), String>,
    F: FnOnce(&[u8]) -> Result<u16, String>,
    G: FnOnce(&[u8]) -> Result<PersistedStateV1, String>,
>(
    path: Seq<char>,
    parent: Seq<char>,
    tmp: Seq<char>,
    state: &PersistedStateV1,
    ops: StateFileOps<C, R, E, T, W, N, Y>,
    before: Disk,
    after: Disk,
    data: Vec<u8>,
    probe: F,
    parse: G,
    r: Result<Option<PersistedStateV1>, StateStoreError>,
)
    requires
        state@.version == STATE_VERSION_V1,
        left_on_disk(
            path,
            parent,
            tmp,
            state,
            ops,
            Ok::<(), StateStoreError>(()),
            before,
            after,
        ),
        after.file == Some(data@),
        forall|encoded: Vec<u8>, answer: Result<u16, String>|
            #[trigger] call_ensures(ops.encode, (state,), Ok::<Vec<u8>, String>(encoded))
                && #[trigger] probed(probe, framed(encoded@), answer) ==> answer == Ok::<
                u16,
                String,
            >(state@.version),
        forall|encoded: Vec<u8>, answer: Result<PersistedStateV1, String>|
            #[trigger] call_ensures(ops.encode, (state,), Ok::<Vec<u8>, String>(encoded))
                && #[trigger] parsed(parse, framed(encoded@), answer) ==> (answer matches Ok(back)
                && back@ == state@),
        read_outcome(path, Ok(Some(data)), probe, parse, r),
    ensures
        r matches Ok(Some(back)) && back@ == state@,
{
    state_file_is_whole(
        path,
        parent,
        tmp,
        state,
        ops,
        Ok::<(), StateStoreError>(()),
        before,
        after,
    );
}

/// The encoded state as it stands in the file: with a line feed at its end.
pub fn frame_state(encoded: Vec<u8>) -> (contents: Vec<u8>)
    ensures
        contents@ == framed(encoded@),
        contents@ == encoded@.push(0x0a),
{
    let mut contents = encoded;
    contents.push(0x0a);
    contents
}

/// The extension of the temporary file for a state file with the given one.
pub fn tmp_extension(extension: Option<&str>) -> (r: String)
    ensures
        r@ == (match extension {
            Some(ext) => if ext@.len() > 0 {
                ext@ + ".tmp"@
            } else {
                "tmp"@
            },
            None => "tmp"@,
        }),
{
    let mut r = String::new();
    if let Some(ext) = extension {
        if !ext.is_empty() {
            r.append(ext);
            r.append(".tmp");
            assert(r@ =~= ext@ + ".tmp"@);
            return r;
        }
    }
    r.append("tmp");
    assert(r@ =~= "tmp"@);
    r
}

} // verus!
