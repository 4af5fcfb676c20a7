//! Throttling tenants while the host is under load.
//!
//! Above the high watermark every tenant that is not essential gets a runtime
//! override; below the low watermark the overrides go away again. Overrides that
//! were set by hand are left alone.

use std::collections::{BTreeSet, VecDeque};
use vstd::prelude::*;

use crate::common::{plain_policy, Counters, Policy, TenantKey};
use crate::config::AdaptiveConfig;
use crate::map_client::{cgroup_set, cgroups_of, cgroups_of_one_more, MapError};
use crate::order::u64_keys_are_ordered;
use crate::reconcile::override_policies;
use crate::state_store::{
    lookup, may_persist, moved, owned_by, persisted, with_adaptive_override, without_override,
    AdaptiveUpsertOutcome, DesiredState, PersistedStateV1, RuntimeOverrideRecord, RuntimeOwner,
    StateStore, StateStoreError,
};
use crate::table::{take_one_more, KeySet, Ranked};
use crate::tenancy::TenancyState;

verus! {

/// Why a controller step failed.
#[derive(Debug)]
pub enum AdaptiveError {
    MapOperation(MapError),
    StateStore(StateStoreError),
}

/// Whether tenants are being throttled.
#[derive(Clone, Copy, Debug, PartialEq, Eq, Structural)]
pub enum AdaptiveState {
    Inactive,
    Throttling,
}

impl Default for AdaptiveState {
    fn default() -> (state: Self)
        ensures
            state == AdaptiveState::Inactive,
    {
        AdaptiveState::Inactive
    }
}

/// What the controller reports of itself.
#[derive(Clone, Copy, Debug, PartialEq, Eq, Structural)]
pub struct AdaptiveRuntimeSnapshot {
    pub state: AdaptiveState,
    pub active_override_count: u64,
}

/// The controller's latest report.
#[derive(Clone, Copy, Debug, PartialEq, Eq, Structural)]
pub struct AdaptiveRuntimeState {
    pub latest: AdaptiveRuntimeSnapshot,
}

impl Default for AdaptiveRuntimeState {
    fn default() -> (state: Self)
        ensures
            state.latest == (AdaptiveRuntimeSnapshot {
                state: AdaptiveState::Inactive,
                active_override_count: 0,
            }),
    {
        AdaptiveRuntimeState {
            latest: AdaptiveRuntimeSnapshot {
                state: AdaptiveState::Inactive,
                active_override_count: 0,
            },
        }
    }
}

impl AdaptiveRuntimeState {
    /// Replaces the report.
    pub fn update(&mut self, state: AdaptiveState, active_override_count: usize)
        ensures
            final(self).latest == (AdaptiveRuntimeSnapshot {
                state,
                active_override_count: active_override_count as u64,
            }),
    {
        self.latest = AdaptiveRuntimeSnapshot {
            state,
            active_override_count: active_override_count as u64,
        };
    }

    /// The latest report.
    pub fn snapshot(&self) -> (snapshot: AdaptiveRuntimeSnapshot)
        ensures
            snapshot == self.latest,
    {
        self.latest
    }
}

/// What a tick of the controller does.
#[derive(Clone, Copy, Debug, PartialEq, Eq, Structural)]
pub enum AdaptiveAction {
    /// Nothing.
    Stay,
    /// Put overrides in place and start throttling.
    Enter,
    /// Keep the overrides in line with the tenants that are there.
    Refresh,
    /// Remove the overrides and stop throttling.
    Leave,
}

/// Whether CPU or memory has reached the high watermark; loads are in hundredths
/// of a percent.
pub open spec fn high_reached(cpu: u32, memory: u32, high_percent: u8) -> bool {
    cpu >= high_percent * 100 || memory >= high_percent * 100
}

/// Whether both CPU and memory are down at the low watermark.
pub open spec fn recovered(cpu: u32, memory: u32, low_percent: u8) -> bool {
    cpu <= low_percent * 100 && memory <= low_percent * 100
}

/// What a tick does in a state under a load.
pub open spec fn tick_action(
    mode: AdaptiveState,
    cpu: u32,
    memory: u32,
    config: AdaptiveConfig,
) -> AdaptiveAction {
    match mode {
        AdaptiveState::Inactive => if high_reached(cpu, memory, config.high_watermark_percent) {
            AdaptiveAction::Enter
        } else {
            AdaptiveAction::Stay
        },
        AdaptiveState::Throttling => if recovered(cpu, memory, config.low_watermark_percent) {
            AdaptiveAction::Leave
        } else {
            AdaptiveAction::Refresh
        },
    }
}

/// Decides what a tick does.
pub fn decide_tick(mode: AdaptiveState, cpu: u32, memory: u32, config: &AdaptiveConfig) -> (action:
    AdaptiveAction)
    ensures
        action == tick_action(mode, cpu, memory, *config),
        mode == AdaptiveState::Inactive ==> action == (if cpu >= 100
            * config.high_watermark_percent || memory >= 100 * config.high_watermark_percent {
            AdaptiveAction::Enter
        } else {
            AdaptiveAction::Stay
        }),
        mode == AdaptiveState::Throttling ==> action == (if cpu <= 100
            * config.low_watermark_percent && memory <= 100 * config.low_watermark_percent {
            AdaptiveAction::Leave
        } else {
            AdaptiveAction::Refresh
        }),
{
    let high: u32 = config.high_watermark_percent as u32 * 100;
    let low: u32 = config.low_watermark_percent as u32 * 100;
    match mode {
        AdaptiveState::Inactive => if cpu >= high || memory >= high {
            AdaptiveAction::Enter
        } else {
            AdaptiveAction::Stay
        },
        AdaptiveState::Throttling => if cpu <= low && memory <= low {
            AdaptiveAction::Leave
        } else {
            AdaptiveAction::Refresh
        },
    }
}

/// A tick goes by the watermarks of the configuration, in percent, against loads in
/// hundredths of a percent: an inactive controller enters exactly if one of the loads
/// is at the high watermark or above, and a throttling one leaves exactly if both are
/// at the low watermark or below.
pub proof fn a_tick_goes_by_the_watermarks(cpu: u32, memory: u32, config: AdaptiveConfig)
    ensures
        tick_action(AdaptiveState::Inactive, cpu, memory, config) == AdaptiveAction::Enter <==> cpu
            >= 100 * config.high_watermark_percent || memory >= 100 * config.high_watermark_percent,
        tick_action(AdaptiveState::Inactive, cpu, memory, config) == AdaptiveAction::Stay <==> cpu
            < 100 * config.high_watermark_percent && memory < 100 * config.high_watermark_percent,
        tick_action(AdaptiveState::Throttling, cpu, memory, config) == AdaptiveAction::Leave
            <==> cpu <= 100 * config.low_watermark_percent && memory <= 100
            * config.low_watermark_percent,
        tick_action(AdaptiveState::Throttling, cpu, memory, config) == AdaptiveAction::Refresh
            <==> cpu > 100 * config.low_watermark_percent || memory > 100
            * config.low_watermark_percent,
{
}

/// More load never calms the controller: where a load makes it enter, a higher one
/// does, and where one keeps it throttling, a higher one does.
pub proof fn more_load_never_calms(
    cpu: u32,
    memory: u32,
    more_cpu: u32,
    more_memory: u32,
    config: AdaptiveConfig,
)
    requires
        cpu <= more_cpu,
        memory <= more_memory,
    ensures
        tick_action(AdaptiveState::Inactive, cpu, memory, config) == AdaptiveAction::Enter
            ==> tick_action(AdaptiveState::Inactive, more_cpu, more_memory, config)
            == AdaptiveAction::Enter,
        tick_action(AdaptiveState::Throttling, cpu, memory, config) == AdaptiveAction::Refresh
            ==> tick_action(AdaptiveState::Throttling, more_cpu, more_memory, config)
            == AdaptiveAction::Refresh,
{
}

/// The controller does not flap: with the low watermark below the high one, no
/// load makes it enter throttling and leave it again, nor the other way round.
pub proof fn no_load_both_enters_and_leaves(cpu: u32, memory: u32, config: AdaptiveConfig)
    requires
        config.low_watermark_percent < config.high_watermark_percent,
    ensures
        tick_action(AdaptiveState::Inactive, cpu, memory, config) == AdaptiveAction::Enter
            ==> tick_action(AdaptiveState::Throttling, cpu, memory, config)
            == AdaptiveAction::Refresh,
        tick_action(AdaptiveState::Throttling, cpu, memory, config) == AdaptiveAction::Leave
            ==> tick_action(AdaptiveState::Inactive, cpu, memory, config) == AdaptiveAction::Stay,
{
}

/// The key that covers every flow of a tenant.
pub open spec fn wildcard_key(cgroup_id: u64) -> TenantKey {
    TenantKey { cgroup_id, http_path_hash: 0, dst_port: 0, proto: 0, http_method: 0 }
}

/// The key that covers every flow of a tenant.
pub fn tenant_wildcard_key(cgroup_id: u64) -> (key: TenantKey)
    ensures
        key == wildcard_key(cgroup_id),
        key.cgroup_id == cgroup_id,
        key.http_path_hash == 0,
        key.dst_port == 0,
        key.proto == 0,
        key.http_method == 0,
{
    TenantKey { cgroup_id, dst_port: 0, proto: 0, http_method: 0, http_path_hash: 0 }
}

/// The policy that throttled tenants get.
pub open spec fn throttle(config: AdaptiveConfig) -> Policy {
    plain_policy(config.throttle_rate_tokens_per_sec, config.throttle_burst_tokens, true)
}

/// The policy that throttled tenants get.
pub fn throttle_policy(config: &AdaptiveConfig) -> (policy: Policy)
    ensures
        policy == throttle(*config),
{
    Policy::plain(config.throttle_rate_tokens_per_sec, config.throttle_burst_tokens, true)
}

/// The keys of the tenants to throttle: those that have a base policy or were
/// seen, without the essential ones.
pub open spec fn target_keys(
    base_tenants: Set<u64>,
    counters: Seq<(TenantKey, Counters)>,
    essential: Set<u64>,
) -> Set<TenantKey> {
    Set::new(
        |key: TenantKey|
            key == wildcard_key(key.cgroup_id) && !essential.contains(key.cgroup_id) && (base_tenants.contains(
                key.cgroup_id,
            ) || cgroups_of(
                counters.map_values(|row: (TenantKey, Counters)| row.0),
            ).contains(key.cgroup_id)),
    )
}

/// The throttle is the configured rate and burst, switched on.
pub proof fn throttle_is_as_configured(config: AdaptiveConfig)
    ensures
        throttle(config).rate_tokens_per_sec == config.throttle_rate_tokens_per_sec,
        throttle(config).burst_tokens == config.throttle_burst_tokens,
        throttle(config).enabled == 1,
{
}

/// A key is throttled exactly if it covers every flow of its tenant, the tenant is not
/// essential, and it has a base policy under some key or was counted.
pub proof fn targets_are_the_known_tenants(
    keys: Seq<TenantKey>,
    counters: Seq<(TenantKey, Counters)>,
    essential: Set<u64>,
    key: TenantKey,
)
    ensures
        target_keys(cgroups_of(keys), counters, essential).contains(key) == (key.http_path_hash == 0
            && key.dst_port == 0 && key.proto == 0 && key.http_method == 0 && !essential.contains(
            key.cgroup_id,
        ) && ((exists|i: int|
            0 <= i < keys.len() && (#[trigger] keys[i]).cgroup_id == key.cgroup_id) || (exists|
            i: int,
        |
            0 <= i < counters.len() && (#[trigger] counters[i]).0.cgroup_id == key.cgroup_id))),
{
    let seen = counters.map_values(|row: (TenantKey, Counters)| row.0);
    if exists|i: int| 0 <= i < counters.len() && (#[trigger] counters[i]).0.cgroup_id
        == key.cgroup_id {
        let i = choose|i: int|
            0 <= i < counters.len() && (#[trigger] counters[i]).0.cgroup_id == key.cgroup_id;
        assert(seen[i].cgroup_id == key.cgroup_id);
    }
    if cgroups_of(seen).contains(key.cgroup_id) {
        let i = choose|i: int|
            0 <= i < seen.len() && (#[trigger] seen[i]).cgroup_id == key.cgroup_id;
        assert(counters[i].0.cgroup_id == key.cgroup_id);
    }
}

/// The numbers of a set.
fn ids_of(set: &BTreeSet<u64>) -> (ids: Vec<u64>)
    ensures
        ids@.to_set() == set@,
{
    broadcast use vstd::std_specs::btree::group_btree_axioms;

    proof {
        u64_keys_are_ordered();
    }
    let mut ids: Vec<u64> = Vec::new();
    for id in it: set.iter()
        invariant
            it.seq().unref().to_set() == set@,
            ids@ == it.seq().unref().take(it.index()),
            it.index() == it.seq().len() ==> ids@ == it.seq().unref(),
    {
        ids.push(*id);
    }
    ids
}

/// Finds the keys of the tenants to throttle, given what the maps hold.
pub fn select_targets(
    base_tenants: &BTreeSet<u64>,
    counters: &[(TenantKey, Counters)],
    tenancy: &TenancyState,
) -> (targets: KeySet<TenantKey>)
    ensures
        targets@ == target_keys(base_tenants@, counters@, tenancy@),
{
    broadcast use vstd::std_specs::btree::group_btree_axioms;

    proof {
        u64_keys_are_ordered();
    }
    let mut cgroups = base_tenants.clone();
    let ghost seen = counters@.map_values(|row: (TenantKey, Counters)| row.0);
    let mut i: usize = 0;
    assert forall|id: u64| cgroups@.contains(id) == (base_tenants@.contains(id)
        || cgroups_of(seen.take(0)).contains(id)) by {}
    while i < counters.len()
        invariant
            i <= counters@.len(),
            seen == counters@.map_values(|row: (TenantKey, Counters)| row.0),
            seen.len() == counters@.len(),
            forall|id: u64| #[trigger]
                cgroups@.contains(id) == (base_tenants@.contains(id) || cgroups_of(
                    seen.take(i as int),
                ).contains(id)),
        decreases counters@.len() - i,
    {
        let id: u64 = counters[i].0.cgroup_id;
        let ghost before = cgroups@;
        cgroups.insert(id);
        proof {
            cgroups_of_one_more(seen, i as int);
            assert forall|k: u64| #[trigger] cgroups@.contains(k) == (base_tenants@.contains(
                k,
            ) || cgroups_of(seen.take(i + 1)).contains(k)) by {
                assert(before.contains(k) == (base_tenants@.contains(k) || cgroups_of(
                    seen.take(i as int),
                ).contains(k)));
            }
        }
        i += 1;
    }
    assert(seen.take(i as int) =~= seen);
    let ids = ids_of(&cgroups);
    let mut targets: KeySet<TenantKey> = KeySet::new();
    let mut j: usize = 0;
    while j < ids.len()
        invariant
            j <= ids@.len(),
            forall|key: TenantKey| #[trigger]
                targets@.contains(key) == (key == wildcard_key(key.cgroup_id)
                    && !tenancy@.contains(key.cgroup_id) && ids@.take(j as int).contains(
                    key.cgroup_id,
                )),
        decreases ids@.len() - j,
    {
        let id: u64 = ids[j];
        let ghost before = targets@;
        if !tenancy.is_essential(id) {
            targets.insert(tenant_wildcard_key(id));
        }
        proof {
            take_one_more(ids@, j as int);
            assert forall|key: TenantKey| #[trigger] targets@.contains(key) == (key
                == wildcard_key(key.cgroup_id) && !tenancy@.contains(key.cgroup_id) && ids@.take(
                j + 1,
            ).contains(key.cgroup_id)) by {
                assert(before.contains(key) == (key == wildcard_key(key.cgroup_id)
                    && !tenancy@.contains(key.cgroup_id) && ids@.take(j as int).contains(
                    key.cgroup_id,
                )));
            }
        }
        j += 1;
    }
    assert(ids@.take(j as int) =~= ids@);
    assert(targets@ =~= target_keys(base_tenants@, counters@, tenancy@)) by {
        assert forall|key: TenantKey| targets@.contains(key) == target_keys(
            base_tenants@,
            counters@,
            tenancy@,
        ).contains(key) by {
            assert(ids@.contains(key.cgroup_id) == cgroups@.contains(key.cgroup_id));
        }
    }
    targets
}

/// Finds the keys of the tenants to throttle; counters are listed only once the
/// keys with a base policy were.
pub fn target_override_keys<
    K: FnOnce() -> Result<Vec<TenantKey>, MapError>,
    C: FnOnce() -> Result<Vec<(TenantKey, Counters)>, MapError>,
>(list_policy_keys: K, list_counters: C, tenancy: &TenancyState) -> (r: Result<
    KeySet<TenantKey>,
    MapError,
>)
    requires
        may_list(list_policy_keys, list_counters),
    ensures
        match r {
            Ok(targets) => targets_found(list_policy_keys, list_counters, tenancy@, targets@),
            Err(error) => listing_failed(list_policy_keys, list_counters, error),
        },
{
    let keys = match list_policy_keys() {
        Ok(keys) => keys,
        Err(error) => return Err(error),
    };
    let base_tenants = cgroup_set(keys.as_slice());
    match list_counters() {
        Ok(counters) => {
            let targets = select_targets(&base_tenants, counters.as_slice(), tenancy);
            Ok(targets)
        },
        Err(error) => Err(error),
    }
}

/// Whether what is there may be listed: first the keys with a base policy, then the
/// counters.
pub open spec fn may_list<
    K: FnOnce() -> Result<Vec<TenantKey>, MapError>,
    C: FnOnce() -> Result<Vec<(TenantKey, Counters)>, MapError>,
>(list_policy_keys: K, list_counters: C) -> bool {
    &&& call_requires(list_policy_keys, ())
    &&& (exists|keys: Vec<TenantKey>| #[trigger]
        call_ensures(list_policy_keys, (), Ok::<Vec<TenantKey>, MapError>(keys)))
        ==> call_requires(list_counters, ())
}

/// Whether `targets` are the keys to throttle by what is listed.
pub open spec fn targets_found<
    K: FnOnce() -> Result<Vec<TenantKey>, MapError>,
    C: FnOnce() -> Result<Vec<(TenantKey, Counters)>, MapError>,
>(
    list_policy_keys: K,
    list_counters: C,
    essential: Set<u64>,
    targets: Set<TenantKey>,
) -> bool {
    exists|keys: Vec<TenantKey>, counters: Vec<(TenantKey, Counters)>|
        {
            &&& #[trigger] call_ensures(
                list_policy_keys,
                (),
                Ok::<Vec<TenantKey>, MapError>(keys),
            )
            &&& #[trigger] call_ensures(
                list_counters,
                (),
                Ok::<Vec<(TenantKey, Counters)>, MapError>(counters),
            )
            &&& targets == target_keys(cgroups_of(keys@), counters@, essential)
        }
}

/// What was found to be throttled goes by what was listed: a key is a target exactly if it
/// covers every flow of its tenant, the tenant is not essential, and it has a base
/// policy among the listed keys or was counted.
pub proof fn found_targets_are_the_listed_tenants<
    K: FnOnce() -> Result<Vec<TenantKey>, MapError>,
    C: FnOnce() -> Result<Vec<(TenantKey, Counters)>, MapError>,
>(
    list_policy_keys: K,
    list_counters: C,
    essential: Set<u64>,
    targets: Set<TenantKey>,
    key: TenantKey,
)
    requires
        targets_found(list_policy_keys, list_counters, essential, targets),
    ensures
        exists|keys: Vec<TenantKey>, counters: Vec<(TenantKey, Counters)>|
            {
                &&& #[trigger] call_ensures(
                    list_policy_keys,
                    (),
                    Ok::<Vec<TenantKey>, MapError>(keys),
                )
                &&& #[trigger] call_ensures(
                    list_counters,
                    (),
                    Ok::<Vec<(TenantKey, Counters)>, MapError>(counters),
                )
                &&& targets.contains(key) == (key.http_path_hash == 0 && key.dst_port == 0
                    && key.proto == 0 && key.http_method == 0 && !essential.contains(key.cgroup_id)
                    && ((exists|i: int|
                    0 <= i < keys@.len() && (#[trigger] keys@[i]).cgroup_id == key.cgroup_id) || (
                exists|i: int|
                    0 <= i < counters@.len() && (#[trigger] counters@[i]).0.cgroup_id
                        == key.cgroup_id)))
            },
{
    let (keys, counters) = choose|
        keys: Vec<TenantKey>,
        counters: Vec<(TenantKey, Counters)>,
    |
        {
            &&& #[trigger] call_ensures(
                list_policy_keys,
                (),
                Ok::<Vec<TenantKey>, MapError>(keys),
            )
            &&& #[trigger] call_ensures(
                list_counters,
                (),
                Ok::<Vec<(TenantKey, Counters)>, MapError>(counters),
            )
            &&& targets == target_keys(cgroups_of(keys@), counters@, essential)
        };
    targets_are_the_known_tenants(keys@, counters@, essential, key);
    assert(call_ensures(list_policy_keys, (), Ok::<Vec<TenantKey>, MapError>(keys)));
    assert(call_ensures(
        list_counters,
        (),
        Ok::<Vec<(TenantKey, Counters)>, MapError>(counters),
    ));
}

/// Whether keys or counters could not be listed, for `error`.
pub open spec fn listing_failed<
    K: FnOnce() -> Result<Vec<TenantKey>, MapError>,
    C: FnOnce() -> Result<Vec<(TenantKey, Counters)>, MapError>,
>(list_policy_keys: K, list_counters: C, error: MapError) -> bool {
    ||| call_ensures(list_policy_keys, (), Err::<Vec<TenantKey>, MapError>(error))
    ||| (exists|keys: Vec<TenantKey>| #[trigger]
        call_ensures(list_policy_keys, (), Ok::<Vec<TenantKey>, MapError>(keys)))
        && call_ensures(
        list_counters,
        (),
        Err::<Vec<(TenantKey, Counters)>, MapError>(error),
    )
}

/// Essential tenants are never throttled: none is a target, and one that became
/// essential while it was throttled is managed no longer after the next time the
/// overrides were brought in line.
pub proof fn essential_tenants_are_no_targets<
    K: FnOnce() -> Result<Vec<TenantKey>, MapError>,
    C: FnOnce() -> Result<Vec<(TenantKey, Counters)>, MapError>,
>(
    list_policy_keys: K,
    list_counters: C,
    essential: Set<u64>,
    targets: Set<TenantKey>,
    state: DesiredState,
    managed: Set<TenantKey>,
    key: TenantKey,
)
    requires
        targets_found(list_policy_keys, list_counters, essential, targets),
        essential.contains(key.cgroup_id),
    ensures
        !targets.contains(key),
        !keys_to_claim(managed, targets).contains(key),
        managed.contains(key) ==> keys_to_release(managed, targets).contains(key),
        !managed_after(state, managed, targets).contains(key),
{
}

/// Whether releasing `key` removes its override: only an adaptive one goes.
pub open spec fn is_released(state: DesiredState, gone: Set<TenantKey>, key: TenantKey) -> bool {
    gone.contains(key) && owned_by(state, key, RuntimeOwner::Adaptive)
}

/// Whether claiming `key` puts an override in place: a manual one stays.
pub open spec fn is_claimed(state: DesiredState, wanted: Set<TenantKey>, key: TenantKey) -> bool {
    wanted.contains(key) && !owned_by(state, key, RuntimeOwner::Manual)
}

/// The state after the adaptive overrides of `gone` were removed and adaptive
/// overrides for `wanted` were put in place, manual ones excepted.
pub open spec fn managed_state(
    state: DesiredState,
    gone: Set<TenantKey>,
    wanted: Set<TenantKey>,
    policy: Policy,
) -> DesiredState {
    DesiredState {
        runtime_overrides: Map::new(
            |key: TenantKey|
                is_claimed(state, wanted, key) || state.runtime_overrides.dom().contains(key)
                    && !is_released(state, gone, key),
            |key: TenantKey|
                if is_claimed(state, wanted, key) {
                    RuntimeOverrideRecord { policy, owner: RuntimeOwner::Adaptive }
                } else {
                    state.runtime_overrides[key]
                },
        ),
        ..state
    }
}

/// However the adaptive controller changes the state, manual overrides stay as
/// they are and nothing but runtime overrides changes.
pub proof fn managed_state_keeps_manual_overrides(
    state: DesiredState,
    gone: Set<TenantKey>,
    wanted: Set<TenantKey>,
    policy: Policy,
    key: TenantKey,
)
    requires
        owned_by(state, key, RuntimeOwner::Manual),
    ensures
        lookup(managed_state(state, gone, wanted, policy).runtime_overrides, key) == lookup(
            state.runtime_overrides,
            key,
        ),
        managed_state(state, gone, wanted, policy).base_policies == state.base_policies,
        managed_state(state, gone, wanted, policy).essential_tenants == state.essential_tenants,
        managed_state(state, gone, wanted, policy).global_enabled == state.global_enabled,
        managed_state(state, gone, wanted, policy).flow_keys_live == state.flow_keys_live,
{
}

/// What the controller does to the override of one key: a manual one stays, one that
/// is wanted becomes adaptive with the policy, an adaptive one that is to go goes, and
/// any other stays as it was.
pub proof fn managing_goes_key_by_key(
    state: DesiredState,
    gone: Set<TenantKey>,
    wanted: Set<TenantKey>,
    policy: Policy,
    key: TenantKey,
)
    ensures
        ({
            let before = state.runtime_overrides;
            let after = managed_state(state, gone, wanted, policy).runtime_overrides;
            let had = before.dom().contains(key);
            let manual = had && before[key].owner == RuntimeOwner::Manual;
            let adaptive = had && before[key].owner == RuntimeOwner::Adaptive;
            &&& manual ==> after.dom().contains(key) && after[key] == before[key]
            &&& !manual && wanted.contains(key) ==> after.dom().contains(key) && after[key].policy
                == policy && after[key].owner == RuntimeOwner::Adaptive
            &&& adaptive && gone.contains(key) && !wanted.contains(key) ==> !after.dom().contains(
                key,
            )
            &&& had && !gone.contains(key) && !wanted.contains(key) ==> after.dom().contains(key)
                && after[key] == before[key]
            &&& !had && !wanted.contains(key) ==> !after.dom().contains(key)
        }),
        managed_state(state, gone, wanted, policy).version == state.version,
{
}

/// After the overrides were brought in line, a key is managed exactly if it is a target
/// and was managed already or has no manual override; what left the targets is
/// released and what joined them is claimed.
pub proof fn managed_keys_are_targets(
    state: DesiredState,
    managed: Set<TenantKey>,
    targets: Set<TenantKey>,
    key: TenantKey,
)
    ensures
        managed_after(state, managed, targets).contains(key) == (targets.contains(key) && (
        managed.contains(key) || !(state.runtime_overrides.dom().contains(key)
            && state.runtime_overrides[key].owner == RuntimeOwner::Manual))),
        keys_to_release(managed, targets).contains(key) == (managed.contains(key)
            && !targets.contains(key)),
        keys_to_claim(managed, targets).contains(key) == (targets.contains(key)
            && !managed.contains(key)),
{
}

/// What releasing one key works with: persisting the desired state, and deleting
/// from the runtime map. Each can be called once.
pub struct ReleaseAccess<P, D> {
    pub persist: P,
    pub delete: D,
}

/// What claiming one key works with: persisting the desired state, and writing to
/// the runtime map. Each can be called once.
pub struct ClaimAccess<Q, U> {
    pub persist: Q,
    pub upsert: U,
}

/// Whether `key` may be released in `state`: the state without its adaptive override
/// may be persisted, and, where it had one, it may be deleted from the map once that
/// was done.
pub open spec fn may_release<
    P: FnOnce(&PersistedStateV1) -> Result<(), StateStoreError>,
    D: FnOnce(TenantKey) -> Result<(), MapError>,
>(access: ReleaseAccess<P, D>, state: DesiredState, key: TenantKey, policy: Policy) -> bool {
    let released = managed_state(state, set![key], set![], policy);
    &&& may_persist(access.persist, released)
    &&& is_released(state, set![key], key) && persisted(
        access.persist,
        released,
        Ok::<(), StateStoreError>(()),
    ) ==> call_requires(access.delete, (key,))
}

/// Whether `key` was released in `state`: the change was persisted, and what was
/// adaptive was deleted from the map.
pub open spec fn was_released<
    P: FnOnce(&PersistedStateV1) -> Result<(), StateStoreError>,
    D: FnOnce(TenantKey) -> Result<(), MapError>,
>(access: ReleaseAccess<P, D>, state: DesiredState, key: TenantKey, policy: Policy) -> bool {
    &&& persisted(
        access.persist,
        managed_state(state, set![key], set![], policy),
        Ok::<(), StateStoreError>(()),
    )
    &&& is_released(state, set![key], key) ==> call_ensures(
        access.delete,
        (key,),
        Ok::<(), MapError>(()),
    )
}

/// Whether releasing `key` in `state`, which `before` reached by `n` changes, can
/// have failed with `error` and left the store at `after`: the change was not
/// persisted, or it was and the map refused it.
pub open spec fn release_failed<
    P: FnOnce(&PersistedStateV1) -> Result<(), StateStoreError>,
    D: FnOnce(TenantKey) -> Result<(), MapError>,
>(
    access: ReleaseAccess<P, D>,
    before: &StateStore,
    n: int,
    state: DesiredState,
    key: TenantKey,
    policy: Policy,
    after: &StateStore,
    error: AdaptiveError,
) -> bool {
    let released = managed_state(state, set![key], set![], policy);
    match error {
        AdaptiveError::StateStore(failure) => moved(before, after, n, state) && persisted(
            access.persist,
            released,
            Err::<(), StateStoreError>(failure),
        ),
        AdaptiveError::MapOperation(failure) => {
            &&& moved(before, after, n + 1, released)
            &&& is_released(state, set![key], key)
            &&& persisted(access.persist, released, Ok::<(), StateStoreError>(()))
            &&& call_ensures(access.delete, (key,), Err::<(), MapError>(failure))
        },
    }
}

/// Whether `key` may be claimed in `state`: the state with an adaptive override for
/// it may be persisted, and, where no manual one is in place, `policy` may be written
/// to the map once that was done.
pub open spec fn may_claim<
    Q: FnOnce(&PersistedStateV1) -> Result<(), StateStoreError>,
    U: FnOnce(TenantKey, Policy) -> Result<(), MapError>,
>(access: ClaimAccess<Q, U>, state: DesiredState, key: TenantKey, policy: Policy) -> bool {
    let claimed = managed_state(state, set![], set![key], policy);
    &&& may_persist(access.persist, claimed)
    &&& is_claimed(state, set![key], key) && persisted(
        access.persist,
        claimed,
        Ok::<(), StateStoreError>(()),
    ) ==> call_requires(access.upsert, (key, policy))
}

/// Whether `key` was claimed in `state`: the change was persisted, and the policy was
/// written to the map unless a manual override is in place.
pub open spec fn was_claimed<
    Q: FnOnce(&PersistedStateV1) -> Result<(), StateStoreError>,
    U: FnOnce(TenantKey, Policy) -> Result<(), MapError>,
>(access: ClaimAccess<Q, U>, state: DesiredState, key: TenantKey, policy: Policy) -> bool {
    &&& persisted(
        access.persist,
        managed_state(state, set![], set![key], policy),
        Ok::<(), StateStoreError>(()),
    )
    &&& is_claimed(state, set![key], key) ==> call_ensures(
        access.upsert,
        (key, policy),
        Ok::<(), MapError>(()),
    )
}

/// Whether claiming `key` in `state`, which `before` reached by `n` changes, can have
/// failed with `error` and left the store at `after`: the change was not persisted,
/// or it was and the map refused it.
pub open spec fn claim_failed<
    Q: FnOnce(&PersistedStateV1) -> Result<(), StateStoreError>,
    U: FnOnce(TenantKey, Policy) -> Result<(), MapError>,
>(
    access: ClaimAccess<Q, U>,
    before: &StateStore,
    n: int,
    state: DesiredState,
    key: TenantKey,
    policy: Policy,
    after: &StateStore,
    error: AdaptiveError,
) -> bool {
    let claimed = managed_state(state, set![], set![key], policy);
    match error {
        AdaptiveError::StateStore(failure) => moved(before, after, n, state) && persisted(
            access.persist,
            claimed,
            Err::<(), StateStoreError>(failure),
        ),
        AdaptiveError::MapOperation(failure) => {
            &&& moved(before, after, n + 1, claimed)
            &&& is_claimed(state, set![key], key)
            &&& persisted(access.persist, claimed, Ok::<(), StateStoreError>(()))
            &&& call_ensures(access.upsert, (key, policy), Err::<(), MapError>(failure))
        },
    }
}

/// Removes the adaptive override of `key`, from the state first and then from the
/// runtime map.
fn release_key<
    P: FnOnce(&PersistedStateV1) -> Result<(), StateStoreError>,
    D: FnOnce(TenantKey) -> Result<(), MapError>,
>(
    store: &mut StateStore,
    access: ReleaseAccess<P, D>,
    key: TenantKey,
    policy: Policy,
) -> (r: Result<(), AdaptiveError>)
    requires
        may_release(access, old(store).desired(), key, policy),
    ensures
        match r {
            Ok(_) => {
                &&& moved(
                    old(store),
                    final(store),
                    1,
                    managed_state(old(store).desired(), set![key], set![], policy),
                )
                &&& was_released(access, old(store).desired(), key, policy)
            },
            Err(error) => release_failed(
                access,
                old(store),
                0,
                old(store).desired(),
                key,
                policy,
                final(store),
                error,
            ),
        },
{
    let ghost before = store.desired();
    let ghost goal = managed_state(before, set![key], set![], policy);
    proof {
        if owned_by(before, key, RuntimeOwner::Adaptive) {
            assert(goal.runtime_overrides =~= without_override(before, key).runtime_overrides);
        } else {
            assert(goal.runtime_overrides =~= before.runtime_overrides);
        }
    }
    let ReleaseAccess { persist, delete } = access;
    match store.delete_runtime_override_if_owner(key, RuntimeOwner::Adaptive, persist) {
        Err(error) => Err(AdaptiveError::StateStore(error)),
        Ok(removed) => {
            if removed {
                match delete(key) {
                    Err(error) => return Err(AdaptiveError::MapOperation(error)),
                    Ok(unit) => {
                        assert(unit == ());
                    },
                }
            }
            Ok(())
        },
    }
}

/// Puts an adaptive override for `key` in place unless it has a manual one, in
/// the state first and then in the runtime map; `true` when it did.
fn claim_key<
    Q: FnOnce(&PersistedStateV1) -> Result<(), StateStoreError>,
    U: FnOnce(TenantKey, Policy) -> Result<(), MapError>,
>(
    store: &mut StateStore,
    access: ClaimAccess<Q, U>,
    key: TenantKey,
    policy: Policy,
) -> (r: Result<bool, AdaptiveError>)
    requires
        may_claim(access, old(store).desired(), key, policy),
    ensures
        match r {
            Ok(claimed) => {
                &&& moved(
                    old(store),
                    final(store),
                    1,
                    managed_state(old(store).desired(), set![], set![key], policy),
                )
                &&& was_claimed(access, old(store).desired(), key, policy)
                &&& claimed == !owned_by(old(store).desired(), key, RuntimeOwner::Manual)
            },
            Err(error) => claim_failed(
                access,
                old(store),
                0,
                old(store).desired(),
                key,
                policy,
                final(store),
                error,
            ),
        },
{
    let ghost before = store.desired();
    let ghost goal = managed_state(before, set![], set![key], policy);
    proof {
        assert(goal.runtime_overrides =~= with_adaptive_override(
            before,
            key,
            policy,
        ).runtime_overrides);
    }
    let ClaimAccess { persist, upsert } = access;
    match store.upsert_adaptive_runtime_override(key, policy, persist) {
        Err(error) => Err(AdaptiveError::StateStore(error)),
        Ok(outcome) => {
            let claimed: bool = outcome == AdaptiveUpsertOutcome::Applied;
            if claimed {
                match upsert(key, policy) {
                    Err(error) => return Err(AdaptiveError::MapOperation(error)),
                    Ok(unit) => {
                        assert(unit == ());
                    },
                }
            }
            Ok(claimed)
        },
    }
}

/// Keys that are managed but no target any more.
pub open spec fn keys_to_release(
    managed: Set<TenantKey>,
    targets: Set<TenantKey>,
) -> Set<TenantKey> {
    managed.difference(targets)
}

/// Targets that are not managed yet.
pub open spec fn keys_to_claim(managed: Set<TenantKey>, targets: Set<TenantKey>) -> Set<TenantKey> {
    targets.difference(managed)
}

/// The keys of `kept`, and those of `wanted` without a manual override.
pub open spec fn managed_with(
    state: DesiredState,
    kept: Set<TenantKey>,
    wanted: Set<TenantKey>,
) -> Set<TenantKey> {
    kept.union(Set::new(|key: TenantKey| is_claimed(state, wanted, key)))
}

/// The managed keys once the targets were claimed: those that are still targets,
/// and the new ones without a manual override.
pub open spec fn managed_after(
    state: DesiredState,
    managed: Set<TenantKey>,
    targets: Set<TenantKey>,
) -> Set<TenantKey> {
    managed_with(state, managed.intersect(targets), keys_to_claim(managed, targets))
}

/// Whether `keys` lists the set `all` in ascending order, each key once.
pub open spec fn lists(keys: Seq<TenantKey>, all: Set<TenantKey>) -> bool {
    &&& keys.to_set() == all
    &&& forall|i: int, j: int|
        0 <= i < j < keys.len() ==> (#[trigger] keys[i]).rank() < (#[trigger] keys[j]).rank()
}

/// Whether the first `n` of `keys` were released one after the other, from the state
/// `start` on.
pub open spec fn released_up_to<
    P: FnOnce(&PersistedStateV1) -> Result<(), StateStoreError>,
    D: FnOnce(TenantKey) -> Result<(), MapError>,
>(
    accesses: Seq<ReleaseAccess<P, D>>,
    start: DesiredState,
    keys: Seq<TenantKey>,
    n: int,
    policy: Policy,
) -> bool {
    forall|m: int|
        0 <= m < n ==> was_released(
            #[trigger] accesses[m],
            managed_state(start, keys.take(m).to_set(), set![], policy),
            keys[m],
            policy,
        )
}

/// Whether `keys` may be released one after the other, each with its own access and
/// once those before it were.
pub open spec fn may_release_keys<
    P: FnOnce(&PersistedStateV1) -> Result<(), StateStoreError>,
    D: FnOnce(TenantKey) -> Result<(), MapError>,
>(
    accesses: Seq<ReleaseAccess<P, D>>,
    start: DesiredState,
    keys: Seq<TenantKey>,
    policy: Policy,
) -> bool {
    &&& accesses.len() == keys.len()
    &&& forall|n: int|
        0 <= n < keys.len() && #[trigger] released_up_to(accesses, start, keys, n, policy)
            ==> may_release(
            accesses[n],
            managed_state(start, keys.take(n).to_set(), set![], policy),
            keys[n],
            policy,
        )
}

/// Whether releasing `keys` one after the other can have stopped at the one at `n`
/// with `error`, all before it done, and left the store at `after`.
pub open spec fn release_stopped_at<
    P: FnOnce(&PersistedStateV1) -> Result<(), StateStoreError>,
    D: FnOnce(TenantKey) -> Result<(), MapError>,
>(
    accesses: Seq<ReleaseAccess<P, D>>,
    before: &StateStore,
    keys: Seq<TenantKey>,
    n: int,
    policy: Policy,
    after: &StateStore,
    error: AdaptiveError,
) -> bool {
    &&& 0 <= n < keys.len()
    &&& released_up_to(accesses, before.desired(), keys, n, policy)
    &&& release_failed(
        accesses[n],
        before,
        n,
        managed_state(before.desired(), keys.take(n).to_set(), set![], policy),
        keys[n],
        policy,
        after,
        error,
    )
}

/// Whether the first `n` of `keys` were claimed one after the other, from the state
/// `start` with `gone` released on.
pub open spec fn claimed_up_to<
    Q: FnOnce(&PersistedStateV1) -> Result<(), StateStoreError>,
    U: FnOnce(TenantKey, Policy) -> Result<(), MapError>,
>(
    accesses: Seq<ClaimAccess<Q, U>>,
    start: DesiredState,
    gone: Set<TenantKey>,
    keys: Seq<TenantKey>,
    n: int,
    policy: Policy,
) -> bool {
    forall|m: int|
        0 <= m < n ==> was_claimed(
            #[trigger] accesses[m],
            managed_state(start, gone, keys.take(m).to_set(), policy),
            keys[m],
            policy,
        )
}

/// Whether `keys` may be claimed one after the other once `gone` was released, each
/// with its own access and once those before it were.
pub open spec fn may_claim_keys<
    Q: FnOnce(&PersistedStateV1) -> Result<(), StateStoreError>,
    U: FnOnce(TenantKey, Policy) -> Result<(), MapError>,
>(
    accesses: Seq<ClaimAccess<Q, U>>,
    start: DesiredState,
    gone: Set<TenantKey>,
    keys: Seq<TenantKey>,
    policy: Policy,
) -> bool {
    &&& accesses.len() == keys.len()
    &&& forall|n: int|
        0 <= n < keys.len() && #[trigger] claimed_up_to(accesses, start, gone, keys, n, policy)
            ==> may_claim(
            accesses[n],
            managed_state(start, gone, keys.take(n).to_set(), policy),
            keys[n],
            policy,
        )
}

/// Whether claiming `keys` one after the other, once `gone` was released by `count`
/// changes, can have stopped at the one at `n` with `error`, all before it done, and
/// left the store at `after`.
pub open spec fn claim_stopped_at<
    Q: FnOnce(&PersistedStateV1) -> Result<(), StateStoreError>,
    U: FnOnce(TenantKey, Policy) -> Result<(), MapError>,
>(
    accesses: Seq<ClaimAccess<Q, U>>,
    before: &StateStore,
    gone: Set<TenantKey>,
    count: int,
    keys: Seq<TenantKey>,
    n: int,
    policy: Policy,
    after: &StateStore,
    error: AdaptiveError,
) -> bool {
    &&& 0 <= n < keys.len()
    &&& claimed_up_to(accesses, before.desired(), gone, keys, n, policy)
    &&& claim_failed(
        accesses[n],
        before,
        count + n,
        managed_state(before.desired(), gone, keys.take(n).to_set(), policy),
        keys[n],
        policy,
        after,
        error,
    )
}

/// Whether `releases` gave `accesses` for the keys in `keys`.
pub open spec fn release_supplied<
    R: FnOnce(usize) -> VecDeque<ReleaseAccess<P, D>>,
    P: FnOnce(&PersistedStateV1) -> Result<(), StateStoreError>,
    D: FnOnce(TenantKey) -> Result<(), MapError>,
>(releases: R, keys: Seq<TenantKey>, accesses: VecDeque<ReleaseAccess<P, D>>) -> bool {
    call_ensures(releases, (keys.len() as usize,), accesses)
}

/// Whether `claims` gave `accesses` for the keys in `keys`.
pub open spec fn claim_supplied<
    L: FnOnce(usize) -> VecDeque<ClaimAccess<Q, U>>,
    Q: FnOnce(&PersistedStateV1) -> Result<(), StateStoreError>,
    U: FnOnce(TenantKey, Policy) -> Result<(), MapError>,
>(claims: L, keys: Seq<TenantKey>, accesses: VecDeque<ClaimAccess<Q, U>>) -> bool {
    call_ensures(claims, (keys.len() as usize,), accesses)
}

/// Whether the keys of `gone` may be released, in ascending order and with what
/// `releases` gives for them.
pub open spec fn may_release_all<
    R: FnOnce(usize) -> VecDeque<ReleaseAccess<P, D>>,
    P: FnOnce(&PersistedStateV1) -> Result<(), StateStoreError>,
    D: FnOnce(TenantKey) -> Result<(), MapError>,
>(releases: R, start: DesiredState, gone: Set<TenantKey>, policy: Policy) -> bool {
    forall|keys: Seq<TenantKey>| #[trigger]
        lists(keys, gone) ==> {
            &&& call_requires(releases, (keys.len() as usize,))
            &&& forall|accesses: VecDeque<ReleaseAccess<P, D>>| #[trigger]
                release_supplied(releases, keys, accesses) ==> may_release_keys(
                    accesses@,
                    start,
                    keys,
                    policy,
                )
        }
}

/// Whether the keys of `gone` were all released, in ascending order.
pub open spec fn all_released<
    R: FnOnce(usize) -> VecDeque<ReleaseAccess<P, D>>,
    P: FnOnce(&PersistedStateV1) -> Result<(), StateStoreError>,
    D: FnOnce(TenantKey) -> Result<(), MapError>,
>(releases: R, start: DesiredState, gone: Set<TenantKey>, policy: Policy) -> bool {
    exists|keys: Seq<TenantKey>, accesses: VecDeque<ReleaseAccess<P, D>>|
        {
            &&& lists(keys, gone)
            &&& #[trigger] release_supplied(releases, keys, accesses)
            &&& released_up_to(accesses@, start, keys, keys.len() as int, policy)
        }
}

/// Whether the keys of `wanted` may be claimed once `gone` was released, in ascending
/// order and with what `claims` gives for them.
pub open spec fn may_claim_all<
    L: FnOnce(usize) -> VecDeque<ClaimAccess<Q, U>>,
    Q: FnOnce(&PersistedStateV1) -> Result<(), StateStoreError>,
    U: FnOnce(TenantKey, Policy) -> Result<(), MapError>,
>(
    claims: L,
    start: DesiredState,
    gone: Set<TenantKey>,
    wanted: Set<TenantKey>,
    policy: Policy,
) -> bool {
    forall|keys: Seq<TenantKey>| #[trigger]
        lists(keys, wanted) ==> {
            &&& call_requires(claims, (keys.len() as usize,))
            &&& forall|accesses: VecDeque<ClaimAccess<Q, U>>| #[trigger]
                claim_supplied(claims, keys, accesses) ==> may_claim_keys(
                    accesses@,
                    start,
                    gone,
                    keys,
                    policy,
                )
        }
}

/// Whether the keys of `wanted` were all claimed once `gone` was released, in
/// ascending order.
pub open spec fn all_claimed<
    L: FnOnce(usize) -> VecDeque<ClaimAccess<Q, U>>,
    Q: FnOnce(&PersistedStateV1) -> Result<(), StateStoreError>,
    U: FnOnce(TenantKey, Policy) -> Result<(), MapError>,
>(
    claims: L,
    start: DesiredState,
    gone: Set<TenantKey>,
    wanted: Set<TenantKey>,
    policy: Policy,
) -> bool {
    exists|keys: Seq<TenantKey>, accesses: VecDeque<ClaimAccess<Q, U>>|
        {
            &&& lists(keys, wanted)
            &&& #[trigger] claim_supplied(claims, keys, accesses)
            &&& claimed_up_to(accesses@, start, gone, keys, keys.len() as int, policy)
        }
}

/// Whether the managed overrides may be brought in line with `targets`: those that
/// are no target any more may be released, and once all of them were, the new targets
/// may be claimed. Nothing else is in order.
pub open spec fn may_manage<
    R: FnOnce(usize) -> VecDeque<ReleaseAccess<P, D>>,
    P: FnOnce(&PersistedStateV1) -> Result<(), StateStoreError>,
    D: FnOnce(TenantKey) -> Result<(), MapError>,
    L: FnOnce(usize) -> VecDeque<ClaimAccess<Q, U>>,
    Q: FnOnce(&PersistedStateV1) -> Result<(), StateStoreError>,
    U: FnOnce(TenantKey, Policy) -> Result<(), MapError>,
>(
    releases: R,
    claims: L,
    start: DesiredState,
    managed: Set<TenantKey>,
    targets: Set<TenantKey>,
    policy: Policy,
) -> bool {
    let gone = keys_to_release(managed, targets);
    &&& may_release_all(releases, start, gone, policy)
    &&& all_released(releases, start, gone, policy) ==> may_claim_all(
        claims,
        start,
        gone,
        keys_to_claim(managed, targets),
        policy,
    )
}

/// Whether the managed overrides were brought in line with `targets`.
pub open spec fn was_managed<
    R: FnOnce(usize) -> VecDeque<ReleaseAccess<P, D>>,
    P: FnOnce(&PersistedStateV1) -> Result<(), StateStoreError>,
    D: FnOnce(TenantKey) -> Result<(), MapError>,
    L: FnOnce(usize) -> VecDeque<ClaimAccess<Q, U>>,
    Q: FnOnce(&PersistedStateV1) -> Result<(), StateStoreError>,
    U: FnOnce(TenantKey, Policy) -> Result<(), MapError>,
>(
    releases: R,
    claims: L,
    before: &StateStore,
    managed: Set<TenantKey>,
    targets: Set<TenantKey>,
    policy: Policy,
    after: &StateStore,
) -> bool {
    let gone = keys_to_release(managed, targets);
    let wanted = keys_to_claim(managed, targets);
    &&& all_released(releases, before.desired(), gone, policy)
    &&& all_claimed(claims, before.desired(), gone, wanted, policy)
    &&& moved(
        before,
        after,
        (gone.len() + wanted.len()) as int,
        managed_state(before.desired(), gone, wanted, policy),
    )
}

proof fn listed_once(keys: Seq<TenantKey>, all: Set<TenantKey>)
    requires
        lists(keys, all),
    ensures
        keys.len() == all.len(),
{
    keys.unique_seq_to_set();
}

proof fn releasing_one_more(
    state: DesiredState,
    gone: Set<TenantKey>,
    key: TenantKey,
    policy: Policy,
)
    ensures
        managed_state(managed_state(state, gone, set![], policy), set![key], set![], policy)
            == managed_state(state, gone.insert(key), set![], policy),
        is_released(state, gone.insert(key), key) ==> gone.contains(key) || is_released(
            managed_state(state, gone, set![], policy),
            set![key],
            key,
        ),
{
    let mid = managed_state(state, gone, set![], policy);
    assert(managed_state(mid, set![key], set![], policy).runtime_overrides =~= managed_state(
        state,
        gone.insert(key),
        set![],
        policy,
    ).runtime_overrides);
}

proof fn claiming_one_more(
    state: DesiredState,
    gone: Set<TenantKey>,
    wanted: Set<TenantKey>,
    key: TenantKey,
    policy: Policy,
)
    requires
        !gone.contains(key),
    ensures
        managed_state(managed_state(state, gone, wanted, policy), set![], set![key], policy)
            == managed_state(state, gone, wanted.insert(key), policy),
        owned_by(managed_state(state, gone, wanted, policy), key, RuntimeOwner::Manual)
            == owned_by(state, key, RuntimeOwner::Manual),
{
    let mid = managed_state(state, gone, wanted, policy);
    assert(managed_state(mid, set![], set![key], policy).runtime_overrides =~= managed_state(
        state,
        gone,
        wanted.insert(key),
        policy,
    ).runtime_overrides);
}

proof fn nothing_released_nothing_changed(state: DesiredState, policy: Policy)
    ensures
        managed_state(state, set![], set![], policy) == state,
{
    assert(managed_state(state, set![], set![], policy).runtime_overrides
        =~= state.runtime_overrides);
}

/// Removes the adaptive overrides of `keys` one after the other, up to the first
/// failure.
fn release_keys<
    P: FnOnce(&PersistedStateV1) -> Result<(), StateStoreError>,
    D: FnOnce(TenantKey) -> Result<(), MapError>,
>(
    store: &mut StateStore,
    accesses: VecDeque<ReleaseAccess<P, D>>,
    keys: &[TenantKey],
    policy: Policy,
) -> (r: (usize, Result<(), AdaptiveError>))
    requires
        may_release_keys(accesses@, old(store).desired(), keys@, policy),
    ensures
        match r.1 {
            Ok(_) => {
                &&& r.0 == keys@.len()
                &&& released_up_to(
                    accesses@,
                    old(store).desired(),
                    keys@,
                    keys@.len() as int,
                    policy,
                )
                &&& moved(
                    old(store),
                    final(store),
                    keys@.len() as int,
                    managed_state(old(store).desired(), keys@.to_set(), set![], policy),
                )
            },
            Err(error) => release_stopped_at(
                accesses@,
                old(store),
                keys@,
                r.0 as int,
                policy,
                final(store),
                error,
            ),
        },
{
    let ghost start = store.desired();
    let ghost all = accesses@;
    let mut rest = accesses;
    let mut i: usize = 0;
    proof {
        assert(keys@.take(0).to_set() =~= set![]);
        nothing_released_nothing_changed(start, policy);
    }
    while i < keys.len()
        invariant
            i <= keys@.len(),
            start == old(store).desired(),
            may_release_keys(all, start, keys@, policy),
            all == accesses@,
            rest@ == all.skip(i as int),
            released_up_to(all, start, keys@, i as int, policy),
            moved(
                old(store),
                store,
                i as int,
                managed_state(start, keys@.take(i as int).to_set(), set![], policy),
            ),
        decreases keys@.len() - i,
    {
        let key: TenantKey = keys[i];
        proof {
            take_one_more(keys@, i as int);
            releasing_one_more(start, keys@.take(i as int).to_set(), key, policy);
        }
        let access = match rest.pop_front() {
            Some(access) => access,
            None => return (i, Ok(())),
        };
        match release_key(store, access, key, policy) {
            Err(error) => return (i, Err(error)),
            Ok(_) => {},
        }
        i += 1;
    }
    assert(keys@.take(i as int) =~= keys@);
    (i, Ok(()))
}

/// Puts adaptive overrides for `keys` in place one after the other, up to the
/// first failure, and adds those that it could to `managed`.
fn claim_keys<
    Q: FnOnce(&PersistedStateV1) -> Result<(), StateStoreError>,
    U: FnOnce(TenantKey, Policy) -> Result<(), MapError>,
>(
    store: &mut StateStore,
    accesses: VecDeque<ClaimAccess<Q, U>>,
    managed: &mut KeySet<TenantKey>,
    keys: &[TenantKey],
    policy: Policy,
) -> (r: (usize, Result<(), AdaptiveError>))
    requires
        may_claim_keys(accesses@, old(store).desired(), set![], keys@, policy),
    ensures
        r.0 <= keys@.len(),
        final(managed)@ == managed_with(
            old(store).desired(),
            old(managed)@,
            keys@.take(r.0 as int).to_set(),
        ),
        match r.1 {
            Ok(_) => {
                &&& r.0 == keys@.len()
                &&& claimed_up_to(
                    accesses@,
                    old(store).desired(),
                    set![],
                    keys@,
                    keys@.len() as int,
                    policy,
                )
                &&& moved(
                    old(store),
                    final(store),
                    keys@.len() as int,
                    managed_state(old(store).desired(), set![], keys@.to_set(), policy),
                )
            },
            Err(error) => claim_stopped_at(
                accesses@,
                old(store),
                set![],
                0,
                keys@,
                r.0 as int,
                policy,
                final(store),
                error,
            ),
        },
{
    let ghost start = store.desired();
    let ghost had = managed@;
    let ghost all = accesses@;
    let mut rest = accesses;
    let mut i: usize = 0;
    proof {
        assert(keys@.take(0).to_set() =~= set![]);
        nothing_released_nothing_changed(start, policy);
        assert(managed@ =~= managed_with(start, had, keys@.take(0).to_set()));
    }
    while i < keys.len()
        invariant
            i <= keys@.len(),
            start == old(store).desired(),
            had == old(managed)@,
            may_claim_keys(all, start, set![], keys@, policy),
            all == accesses@,
            rest@ == all.skip(i as int),
            claimed_up_to(all, start, set![], keys@, i as int, policy),
            managed@ == managed_with(start, had, keys@.take(i as int).to_set()),
            moved(
                old(store),
                store,
                i as int,
                managed_state(start, set![], keys@.take(i as int).to_set(), policy),
            ),
        decreases keys@.len() - i,
    {
        let key: TenantKey = keys[i];
        proof {
            take_one_more(keys@, i as int);
            claiming_one_more(start, set![], keys@.take(i as int).to_set(), key, policy);
        }
        let access = match rest.pop_front() {
            Some(access) => access,
            None => return (i, Ok(())),
        };
        match claim_key(store, access, key, policy) {
            Err(error) => return (i, Err(error)),
            Ok(claimed) => {
                if claimed {
                    managed.insert(key);
                }
            },
        }
        i += 1;
    }
    assert(keys@.take(i as int) =~= keys@);
    (i, Ok(()))
}

/// Lists the keys of `all` that are not in `except`.
fn keys_without(all: &KeySet<TenantKey>, except: &KeySet<TenantKey>) -> (keys: Vec<TenantKey>)
    ensures
        lists(keys@, all@.difference(except@)),
{
    let every = all.keys();
    let mut keys: Vec<TenantKey> = Vec::new();
    let mut i: usize = 0;
    while i < every.len()
        invariant
            i <= every@.len(),
            forall|a: int, b: int|
                0 <= a < b < every@.len() ==> (#[trigger] every@[a]).rank() < (
                #[trigger] every@[b]).rank(),
            forall|a: int, b: int|
                0 <= a < b < keys@.len() ==> (#[trigger] keys@[a]).rank() < (
                #[trigger] keys@[b]).rank(),
            forall|k: TenantKey| #[trigger]
                keys@.contains(k) == (every@.take(i as int).contains(k) && !except@.contains(k)),
        decreases every@.len() - i,
    {
        let key: TenantKey = every[i];
        let ghost before = keys@;
        let listed: bool = except.contains(&key);
        if !listed {
            keys.push(key);
        }
        proof {
            assert forall|a: int, b: int| 0 <= a < b < keys@.len() implies (#[trigger]
            keys@[a]).rank() < (#[trigger] keys@[b]).rank() by {
                if b == before.len() {
                    assert(before.contains(keys@[a])) by {
                        assert(before[a] == keys@[a]);
                    }
                    let head = every@.take(i as int);
                    let j = choose|j: int| 0 <= j < head.len() && head[j] == keys@[a];
                    assert(every@[j].rank() < every@[i as int].rank());
                } else {
                    assert(before[a] == keys@[a]);
                    assert(before[b] == keys@[b]);
                }
            }
            assert forall|k: TenantKey| #[trigger] keys@.contains(k) == (every@.take(
                i + 1,
            ).contains(k) && !except@.contains(k)) by {
                take_one_more(every@, i as int);
                if before.contains(k) {
                    let j = choose|j: int| 0 <= j < before.len() && before[j] == k;
                    assert(keys@[j] == k);
                }
                if !listed {
                    assert(keys@[before.len() as int] == key);
                }
                if keys@.contains(k) && k != key {
                    let j = choose|j: int| 0 <= j < keys@.len() && keys@[j] == k;
                    assert(before[j] == k);
                    assert(before.contains(k));
                }
            }
        }
        i += 1;
    }
    assert(every@.take(i as int) =~= every@);
    assert forall|k: TenantKey| keys@.to_set().contains(k) == all@.difference(except@).contains(
        k,
    ) by {
        assert(every@.contains(k) == all@.contains(k));
    }
    assert(keys@.to_set() =~= all@.difference(except@));
    keys
}

/// Removes the first `n` of `keys` from `set`.
fn remove_first(set: &mut KeySet<TenantKey>, keys: &[TenantKey], n: usize)
    requires
        n <= keys@.len(),
    ensures
        final(set)@ == old(set)@.difference(keys@.take(n as int).to_set()),
{
    let mut i: usize = 0;
    assert(set@ =~= old(set)@.difference(keys@.take(0).to_set()));
    while i < n
        invariant
            i <= n <= keys@.len(),
            set@ == old(set)@.difference(keys@.take(i as int).to_set()),
        decreases n - i,
    {
        set.remove(&keys[i]);
        proof {
            take_one_more(keys@, i as int);
            assert(set@ =~= old(set)@.difference(keys@.take(i + 1).to_set()));
        }
        i += 1;
    }
}

/// Whether bringing the managed overrides in line with the targets can have failed
/// with `error`, and left the store at `after` and the managed keys at
/// `managed_now`: what is there could not be listed; or releasing stopped, and all
/// keys are managed still; or claiming stopped, and the keys claimed until then
/// are managed.
pub open spec fn reconcile_failed<
    K: FnOnce() -> Result<Vec<TenantKey>, MapError>,
    C: FnOnce() -> Result<Vec<(TenantKey, Counters)>, MapError>,
    R: FnOnce(usize) -> VecDeque<ReleaseAccess<P, D>>,
    P: FnOnce(&PersistedStateV1) -> Result<(), StateStoreError>,
    D: FnOnce(TenantKey) -> Result<(), MapError>,
    L: FnOnce(usize) -> VecDeque<ClaimAccess<Q, U>>,
    Q: FnOnce(&PersistedStateV1) -> Result<(), StateStoreError>,
    U: FnOnce(TenantKey, Policy) -> Result<(), MapError>,
>(
    list_policy_keys: K,
    list_counters: C,
    releases: R,
    claims: L,
    essential: Set<u64>,
    before: &StateStore,
    managed: Set<TenantKey>,
    policy: Policy,
    after: &StateStore,
    managed_now: Set<TenantKey>,
    error: AdaptiveError,
) -> bool {
    ||| error matches AdaptiveError::MapOperation(failure) && listing_failed(
        list_policy_keys,
        list_counters,
        failure,
    ) && moved(before, after, 0, before.desired()) && managed_now == managed
    ||| exists|
        targets: Set<TenantKey>,
        keys: Seq<TenantKey>,
        accesses: VecDeque<ReleaseAccess<P, D>>,
        n: int,
    |
        {
            &&& #[trigger] targets_found(list_policy_keys, list_counters, essential, targets)
            &&& lists(keys, keys_to_release(managed, targets))
            &&& #[trigger] release_supplied(releases, keys, accesses)
            &&& #[trigger] release_stopped_at(
                accesses@,
                before,
                keys,
                n,
                policy,
                after,
                error,
            )
            &&& managed_now == managed
        }
    ||| exists|
        targets: Set<TenantKey>,
        keys: Seq<TenantKey>,
        accesses: VecDeque<ClaimAccess<Q, U>>,
        n: int,
    |
        {
            &&& #[trigger] targets_found(list_policy_keys, list_counters, essential, targets)
            &&& all_released(
                releases,
                before.desired(),
                keys_to_release(managed, targets),
                policy,
            )
            &&& lists(keys, keys_to_claim(managed, targets))
            &&& #[trigger] claim_supplied(claims, keys, accesses)
            &&& #[trigger] claim_stopped_at(
                accesses@,
                before,
                keys_to_release(managed, targets),
                keys_to_release(managed, targets).len() as int,
                keys,
                n,
                policy,
                after,
                error,
            )
            &&& managed_now == managed_with(
                before.desired(),
                managed.intersect(targets),
                keys.take(n).to_set(),
            )
        }
}

proof fn release_then_claim(
    state: DesiredState,
    gone: Set<TenantKey>,
    wanted: Set<TenantKey>,
    policy: Policy,
)
    requires
        gone.disjoint(wanted),
    ensures
        managed_state(managed_state(state, gone, set![], policy), set![], wanted, policy)
            == managed_state(state, gone, wanted, policy),
        forall|key: TenantKey| #[trigger]
            is_claimed(managed_state(state, gone, set![], policy), wanted, key) == is_claimed(
                state,
                wanted,
                key,
            ),
{
    let mid = managed_state(state, gone, set![], policy);
    assert forall|key: TenantKey| owned_by(mid, key, RuntimeOwner::Manual) == owned_by(
        state,
        key,
        RuntimeOwner::Manual,
    ) by {}
    assert(managed_state(mid, set![], wanted, policy).runtime_overrides =~= managed_state(
        state,
        gone,
        wanted,
        policy,
    ).runtime_overrides);
}

proof fn part_of_listed(keys: Seq<TenantKey>, all: Set<TenantKey>, n: int)
    requires
        keys.to_set() == all,
        0 <= n <= keys.len(),
    ensures
        keys.take(n).to_set().subset_of(all),
{
    assert forall|k: TenantKey| keys.take(n).to_set().contains(k) implies all.contains(k) by {
        let j = choose|j: int| 0 <= j < keys.take(n).len() && keys.take(n)[j] == k;
    }
}

/// Claiming goes through the same states whether it starts where `gone` was released
/// or before that.
proof fn claims_after_release(
    start: DesiredState,
    gone: Set<TenantKey>,
    wanted: Set<TenantKey>,
    keys: Seq<TenantKey>,
    policy: Policy,
)
    requires
        gone.disjoint(wanted),
        keys.to_set() == wanted,
    ensures
        forall|n: int|
            0 <= n <= keys.len() ==> #[trigger] managed_state(
                managed_state(start, gone, set![], policy),
                set![],
                keys.take(n).to_set(),
                policy,
            ) == managed_state(start, gone, keys.take(n).to_set(), policy),
{
    let mid = managed_state(start, gone, set![], policy);
    assert forall|n: int| 0 <= n <= keys.len() implies #[trigger] managed_state(
        mid,
        set![],
        keys.take(n).to_set(),
        policy,
    ) == managed_state(start, gone, keys.take(n).to_set(), policy) by {
        part_of_listed(keys, wanted, n);
        release_then_claim(start, gone, keys.take(n).to_set(), policy);
    }
}

/// Brings the managed overrides in line with the tenants to throttle: those of
/// tenants that are no target any more go, and after that new targets get one. Keys
/// that have a manual override are neither changed nor managed.
pub fn reconcile_managed_overrides<
    K: FnOnce() -> Result<Vec<TenantKey>, MapError>,
    C: FnOnce() -> Result<Vec<(TenantKey, Counters)>, MapError>,
    R: FnOnce(usize) -> VecDeque<ReleaseAccess<P, D>>,
    P: FnOnce(&PersistedStateV1) -> Result<(), StateStoreError>,
    D: FnOnce(TenantKey) -> Result<(), MapError>,
    L: FnOnce(usize) -> VecDeque<ClaimAccess<Q, U>>,
    Q: FnOnce(&PersistedStateV1) -> Result<(), StateStoreError>,
    U: FnOnce(TenantKey, Policy) -> Result<(), MapError>,
>(
    store: &mut StateStore,
    list_policy_keys: K,
    list_counters: C,
    tenancy: &TenancyState,
    config: &AdaptiveConfig,
    managed: &mut KeySet<TenantKey>,
    releases: R,
    claims: L,
) -> (r: Result<(), AdaptiveError>)
    requires
        may_list(list_policy_keys, list_counters),
        forall|targets: Set<TenantKey>| #[trigger]
            targets_found(list_policy_keys, list_counters, tenancy@, targets) ==> may_manage(
                releases,
                claims,
                old(store).desired(),
                old(managed)@,
                targets,
                throttle(*config),
            ),
    ensures
        match r {
            Ok(_) => exists|targets: Set<TenantKey>|
                {
                    &&& #[trigger] targets_found(
                        list_policy_keys,
                        list_counters,
                        tenancy@,
                        targets,
                    )
                    &&& was_managed(
                        releases,
                        claims,
                        old(store),
                        old(managed)@,
                        targets,
                        throttle(*config),
                        final(store),
                    )
                    &&& final(managed)@ == managed_after(
                        old(store).desired(),
                        old(managed)@,
                        targets,
                    )
                },
            Err(error) => reconcile_failed(
                list_policy_keys,
                list_counters,
                releases,
                claims,
                tenancy@,
                old(store),
                old(managed)@,
                throttle(*config),
                final(store),
                final(managed)@,
                error,
            ),
        },
{
    let ghost start = store.desired();
    let ghost had = managed@;
    let targets = match target_override_keys(list_policy_keys, list_counters, tenancy) {
        Ok(targets) => targets,
        Err(error) => return Err(AdaptiveError::MapOperation(error)),
    };
    let policy = throttle_policy(config);
    let stale = keys_without(managed, &targets);
    let ghost gone = keys_to_release(had, targets@);
    let release_accesses = releases(stale.len());
    assert(release_supplied(releases, stale@, release_accesses));
    let (count, released) = release_keys(store, release_accesses, stale.as_slice(), policy);
    if let Err(error) = released {
        return Err(error);
    }
    proof {
        assert(stale@.take(count as int) =~= stale@);
        listed_once(stale@, gone);
    }
    remove_first(managed, stale.as_slice(), count);
    assert(managed@ =~= had.intersect(targets@));
    let fresh = keys_without(&targets, managed);
    let ghost wanted = keys_to_claim(had, targets@);
    let ghost mid = store.desired();
    assert(targets@.difference(managed@) =~= wanted);
    let claim_accesses = claims(fresh.len());
    proof {
        assert(claim_supplied(claims, fresh@, claim_accesses));
        claims_after_release(start, gone, wanted, fresh@, policy);
        assert forall|n: int|
            0 <= n < fresh@.len() && #[trigger] claimed_up_to(
                claim_accesses@,
                mid,
                set![],
                fresh@,
                n,
                policy,
            ) implies claimed_up_to(claim_accesses@, start, gone, fresh@, n, policy) by {}
    }
    let (n, claimed) = claim_keys(store, claim_accesses, managed, fresh.as_slice(), policy);
    proof {
        let part = fresh@.take(n as int).to_set();
        part_of_listed(fresh@, wanted, n as int);
        release_then_claim(start, gone, part, policy);
        release_then_claim(start, gone, wanted, policy);
        assert(managed@ =~= managed_with(start, had.intersect(targets@), part));
    }
    match claimed {
        Err(error) => {
            assert(claim_stopped_at(
                claim_accesses@,
                old(store),
                gone,
                gone.len() as int,
                fresh@,
                n as int,
                policy,
                store,
                error,
            ));
            Err(error)
        },
        Ok(_) => {
            proof {
                assert(fresh@.take(n as int) =~= fresh@);
                listed_once(fresh@, wanted);
            }
            Ok(())
        },
    }
}

/// Whether clearing the managed overrides can have failed with `error`, and left
/// the store at `after` and the managed keys at `managed_now`: releasing them
/// stopped, and those from there on are managed still.
pub open spec fn clear_failed<
    R: FnOnce(usize) -> VecDeque<ReleaseAccess<P, D>>,
    P: FnOnce(&PersistedStateV1) -> Result<(), StateStoreError>,
    D: FnOnce(TenantKey) -> Result<(), MapError>,
>(
    releases: R,
    before: &StateStore,
    managed: Set<TenantKey>,
    policy: Policy,
    after: &StateStore,
    managed_now: Set<TenantKey>,
    error: AdaptiveError,
) -> bool {
    exists|keys: Seq<TenantKey>, accesses: VecDeque<ReleaseAccess<P, D>>, n: int|
        {
            &&& lists(keys, managed)
            &&& #[trigger] release_supplied(releases, keys, accesses)
            &&& #[trigger] release_stopped_at(
                accesses@,
                before,
                keys,
                n,
                policy,
                after,
                error,
            )
            &&& managed_now == managed.difference(keys.take(n).to_set())
        }
}

/// Whether the managed overrides were all cleared.
pub open spec fn was_cleared<
    R: FnOnce(usize) -> VecDeque<ReleaseAccess<P, D>>,
    P: FnOnce(&PersistedStateV1) -> Result<(), StateStoreError>,
    D: FnOnce(TenantKey) -> Result<(), MapError>,
>(
    releases: R,
    before: &StateStore,
    managed: Set<TenantKey>,
    policy: Policy,
    after: &StateStore,
) -> bool {
    &&& all_released(releases, before.desired(), managed, policy)
    &&& moved(
        before,
        after,
        managed.len() as int,
        managed_state(before.desired(), managed, set![], policy),
    )
}

/// Removes every managed override that is still adaptive, and nothing else.
pub fn clear_managed_overrides<
    R: FnOnce(usize) -> VecDeque<ReleaseAccess<P, D>>,
    P: FnOnce(&PersistedStateV1) -> Result<(), StateStoreError>,
    D: FnOnce(TenantKey) -> Result<(), MapError>,
>(
    store: &mut StateStore,
    config: &AdaptiveConfig,
    managed: &mut KeySet<TenantKey>,
    releases: R,
) -> (r: Result<(), AdaptiveError>)
    requires
        may_release_all(releases, old(store).desired(), old(managed)@, throttle(*config)),
    ensures
        match r {
            Ok(_) => {
                &&& was_cleared(
                    releases,
                    old(store),
                    old(managed)@,
                    throttle(*config),
                    final(store),
                )
                &&& final(managed)@ == Set::<TenantKey>::empty()
            },
            Err(error) => clear_failed(
                releases,
                old(store),
                old(managed)@,
                throttle(*config),
                final(store),
                final(managed)@,
                error,
            ),
        },
{
    let ghost had = managed@;
    let policy = throttle_policy(config);
    let keys = managed.keys();
    proof {
        assert forall|k: TenantKey| keys@.to_set().contains(k) == had.contains(k) by {
            assert(keys@.contains(k) == had.contains(k));
        }
        assert(keys@.to_set() =~= had);
        assert(lists(keys@, had));
        listed_once(keys@, had);
    }
    let accesses = releases(keys.len());
    assert(release_supplied(releases, keys@, accesses));
    let (n, released) = release_keys(store, accesses, keys.as_slice(), policy);
    remove_first(managed, keys.as_slice(), n);
    match released {
        Err(error) => Err(error),
        Ok(_) => {
            assert(keys@.take(n as int) =~= keys@);
            Ok(())
        },
    }
}

/// One tick of the controller under a load given in hundredths of a percent. The
/// mode changes only once the overrides have, and the report follows the mode. A tick
/// that stays where it is lists, persists and writes nothing.
pub fn tick_controller<
    K: FnOnce() -> Result<Vec<TenantKey>, MapError>,
    C: FnOnce() -> Result<Vec<(TenantKey, Counters)>, MapError>,
    R: FnOnce(usize) -> VecDeque<ReleaseAccess<P, D>>,
    P: FnOnce(&PersistedStateV1) -> Result<(), StateStoreError>,
    D: FnOnce(TenantKey) -> Result<(), MapError>,
    L: FnOnce(usize) -> VecDeque<ClaimAccess<Q, U>>,
    Q: FnOnce(&PersistedStateV1) -> Result<(), StateStoreError>,
    U: FnOnce(TenantKey, Policy) -> Result<(), MapError>,
>(
    store: &mut StateStore,
    list_policy_keys: K,
    list_counters: C,
    tenancy: &TenancyState,
    config: &AdaptiveConfig,
    mode: &mut AdaptiveState,
    managed: &mut KeySet<TenantKey>,
    report: &mut AdaptiveRuntimeState,
    cpu: u32,
    memory: u32,
    releases: R,
    claims: L,
) -> (r: Result<(), AdaptiveError>)
    requires
        match tick_action(*old(mode), cpu, memory, *config) {
            AdaptiveAction::Stay => true,
            AdaptiveAction::Leave => may_release_all(
                releases,
                old(store).desired(),
                old(managed)@,
                throttle(*config),
            ),
            AdaptiveAction::Enter | AdaptiveAction::Refresh => {
                &&& may_list(list_policy_keys, list_counters)
                &&& forall|targets: Set<TenantKey>| #[trigger]
                    targets_found(list_policy_keys, list_counters, tenancy@, targets)
                        ==> may_manage(
                        releases,
                        claims,
                        old(store).desired(),
                        old(managed)@,
                        targets,
                        throttle(*config),
                    )
            },
        },
    ensures
        match r {
            Ok(_) => {
                let action = tick_action(*old(mode), cpu, memory, *config);
                &&& *final(mode) == (match action {
                    AdaptiveAction::Enter | AdaptiveAction::Refresh => AdaptiveState::Throttling,
                    AdaptiveAction::Leave | AdaptiveAction::Stay => AdaptiveState::Inactive,
                })
                &&& final(managed)@.finite()
                &&& final(report).latest == (AdaptiveRuntimeSnapshot {
                    state: *final(mode),
                    active_override_count: final(managed)@.len() as u64,
                })
                &&& match action {
                    AdaptiveAction::Stay => moved(
                        old(store),
                        final(store),
                        0,
                        old(store).desired(),
                    ) && final(managed)@ == old(managed)@,
                    AdaptiveAction::Leave => was_cleared(
                        releases,
                        old(store),
                        old(managed)@,
                        throttle(*config),
                        final(store),
                    ) && final(managed)@ == Set::<TenantKey>::empty(),
                    AdaptiveAction::Enter | AdaptiveAction::Refresh => exists|
                        targets: Set<TenantKey>,
                    |
                        {
                            &&& #[trigger] targets_found(
                                list_policy_keys,
                                list_counters,
                                tenancy@,
                                targets,
                            )
                            &&& was_managed(
                                releases,
                                claims,
                                old(store),
                                old(managed)@,
                                targets,
                                throttle(*config),
                                final(store),
                            )
                            &&& final(managed)@ == managed_after(
                                old(store).desired(),
                                old(managed)@,
                                targets,
                            )
                        },
                }
            },
            Err(error) => {
                &&& *final(mode) == *old(mode)
                &&& *final(report) == *old(report)
                &&& match tick_action(*old(mode), cpu, memory, *config) {
                    AdaptiveAction::Stay => false,
                    AdaptiveAction::Leave => clear_failed(
                        releases,
                        old(store),
                        old(managed)@,
                        throttle(*config),
                        final(store),
                        final(managed)@,
                        error,
                    ),
                    AdaptiveAction::Enter | AdaptiveAction::Refresh => reconcile_failed(
                        list_policy_keys,
                        list_counters,
                        releases,
                        claims,
                        tenancy@,
                        old(store),
                        old(managed)@,
                        throttle(*config),
                        final(store),
                        final(managed)@,
                        error,
                    ),
                }
            },
        },
{
    match decide_tick(*mode, cpu, memory, config) {
        AdaptiveAction::Stay => {},
        AdaptiveAction::Enter => {
            match reconcile_managed_overrides(
                store,
                list_policy_keys,
                list_counters,
                tenancy,
                config,
                managed,
                releases,
                claims,
            ) {
                Ok(_) => {},
                Err(error) => return Err(error),
            }
            *mode = AdaptiveState::Throttling;
        },
        AdaptiveAction::Refresh => {
            match reconcile_managed_overrides(
                store,
                list_policy_keys,
                list_counters,
                tenancy,
                config,
                managed,
                releases,
                claims,
            ) {
                Ok(_) => {},
                Err(error) => return Err(error),
            }
        },
        AdaptiveAction::Leave => {
            match clear_managed_overrides(store, config, managed, releases) {
                Ok(_) => {},
                Err(error) => return Err(error),
            }
            *mode = AdaptiveState::Inactive;
        },
    }
    let count: usize = managed.len();
    report.update(*mode, count);
    Ok(())
}

/// Releasing and claiming one key go to the desired state first and to the map second:
/// the map is touched only for an adaptive override that goes, or for a key without a
/// manual one that is claimed, and only once the change was persisted.
pub proof fn one_key_is_stored_then_applied<
    P: FnOnce(&PersistedStateV1) -> Result<(), StateStoreError>,
    D: FnOnce(TenantKey) -> Result<(), MapError>,
    Q: FnOnce(&PersistedStateV1) -> Result<(), StateStoreError>,
    U: FnOnce(TenantKey, Policy) -> Result<(), MapError>,
>(
    release: ReleaseAccess<P, D>,
    claim: ClaimAccess<Q, U>,
    state: DesiredState,
    key: TenantKey,
    policy: Policy,
)
    ensures
        ({
            let had = state.runtime_overrides;
            let adaptive = had.dom().contains(key) && had[key].owner == RuntimeOwner::Adaptive;
            let manual = had.dom().contains(key) && had[key].owner == RuntimeOwner::Manual;
            &&& was_released(release, state, key, policy) ==> {
                &&& persisted(
                    release.persist,
                    managed_state(state, set![key], set![], policy),
                    Ok::<(), StateStoreError>(()),
                )
                &&& adaptive ==> call_ensures(release.delete, (key,), Ok::<(), MapError>(()))
            }
            &&& was_claimed(claim, state, key, policy) ==> {
                &&& persisted(
                    claim.persist,
                    managed_state(state, set![], set![key], policy),
                    Ok::<(), StateStoreError>(()),
                )
                &&& !manual ==> call_ensures(claim.upsert, (key, policy), Ok::<(), MapError>(()))
            }
        }),
{
}

/// Where releasing or claiming one key fails, the error is the one that persisting or the
/// map gave: a change that could not be persisted is not made, and one that the map
/// refused stays in the desired state.
pub proof fn one_key_fails_for_a_cause<
    P: FnOnce(&PersistedStateV1) -> Result<(), StateStoreError>,
    D: FnOnce(TenantKey) -> Result<(), MapError>,
    Q: FnOnce(&PersistedStateV1) -> Result<(), StateStoreError>,
    U: FnOnce(TenantKey, Policy) -> Result<(), MapError>,
>(
    release: ReleaseAccess<P, D>,
    claim: ClaimAccess<Q, U>,
    before: &StateStore,
    n: int,
    state: DesiredState,
    key: TenantKey,
    policy: Policy,
    after: &StateStore,
    error: AdaptiveError,
)
    ensures
        release_failed(release, before, n, state, key, policy, after, error) ==> match error {
            AdaptiveError::StateStore(failure) => after.desired() == state && after.changes() == (
            before.changes() + n) % 0x1_0000_0000_0000_0000 && persisted(
                release.persist,
                managed_state(state, set![key], set![], policy),
                Err::<(), StateStoreError>(failure),
            ),
            AdaptiveError::MapOperation(failure) => {
                &&& after.desired() == managed_state(state, set![key], set![], policy)
                &&& after.changes() == (before.changes() + n + 1) % 0x1_0000_0000_0000_0000
                &&& state.runtime_overrides.dom().contains(key)
                &&& state.runtime_overrides[key].owner == RuntimeOwner::Adaptive
                &&& persisted(release.persist, after.desired(), Ok::<(), StateStoreError>(()))
                &&& call_ensures(release.delete, (key,), Err::<(), MapError>(failure))
            },
        },
        claim_failed(claim, before, n, state, key, policy, after, error) ==> match error {
            AdaptiveError::StateStore(failure) => after.desired() == state && after.changes() == (
            before.changes() + n) % 0x1_0000_0000_0000_0000 && persisted(
                claim.persist,
                managed_state(state, set![], set![key], policy),
                Err::<(), StateStoreError>(failure),
            ),
            AdaptiveError::MapOperation(failure) => {
                &&& after.desired() == managed_state(state, set![], set![key], policy)
                &&& after.changes() == (before.changes() + n + 1) % 0x1_0000_0000_0000_0000
                &&& !(state.runtime_overrides.dom().contains(key)
                    && state.runtime_overrides[key].owner == RuntimeOwner::Manual)
                &&& persisted(claim.persist, after.desired(), Ok::<(), StateStoreError>(()))
                &&& call_ensures(claim.upsert, (key, policy), Err::<(), MapError>(failure))
            },
        },
{
}

/// Keys are worked off in ascending order, each once, and none is left out.
pub proof fn a_list_has_each_key_once(
    keys: Seq<TenantKey>,
    all: Set<TenantKey>,
    key: TenantKey,
    i: int,
    j: int,
)
    requires
        lists(keys, all),
    ensures
        keys.contains(key) == all.contains(key),
        0 <= i < j < keys.len() ==> keys[i].rank() < keys[j].rank() && keys[i] != keys[j],
{
    assert(keys.to_set().contains(key) == keys.contains(key));
}

/// Where releasing or claiming several keys stops, the key that it stopped at failed, and
/// every key before it was done.
pub proof fn several_keys_stop_at_the_first_failure<
    P: FnOnce(&PersistedStateV1) -> Result<(), StateStoreError>,
    D: FnOnce(TenantKey) -> Result<(), MapError>,
    Q: FnOnce(&PersistedStateV1) -> Result<(), StateStoreError>,
    U: FnOnce(TenantKey, Policy) -> Result<(), MapError>,
>(
    releases: Seq<ReleaseAccess<P, D>>,
    claims: Seq<ClaimAccess<Q, U>>,
    before: &StateStore,
    gone: Set<TenantKey>,
    count: int,
    keys: Seq<TenantKey>,
    n: int,
    policy: Policy,
    after: &StateStore,
    error: AdaptiveError,
    m: int,
)
    ensures
        release_stopped_at(releases, before, keys, n, policy, after, error) ==> {
            &&& 0 <= n < keys.len()
            &&& 0 <= m < n ==> was_released(
                releases[m],
                managed_state(before.desired(), keys.take(m).to_set(), set![], policy),
                keys[m],
                policy,
            )
            &&& release_failed(
                releases[n],
                before,
                n,
                managed_state(before.desired(), keys.take(n).to_set(), set![], policy),
                keys[n],
                policy,
                after,
                error,
            )
        },
        claim_stopped_at(claims, before, gone, count, keys, n, policy, after, error) ==> {
            &&& 0 <= n < keys.len()
            &&& 0 <= m < n ==> was_claimed(
                claims[m],
                managed_state(before.desired(), gone, keys.take(m).to_set(), policy),
                keys[m],
                policy,
            )
            &&& claim_failed(
                claims[n],
                before,
                count + n,
                managed_state(before.desired(), gone, keys.take(n).to_set(), policy),
                keys[n],
                policy,
                after,
                error,
            )
        },
{
}

proof fn each_key_was_released<
    R: FnOnce(usize) -> VecDeque<ReleaseAccess<P, D>>,
    P: FnOnce(&PersistedStateV1) -> Result<(), StateStoreError>,
    D: FnOnce(TenantKey) -> Result<(), MapError>,
>(releases: R, start: DesiredState, gone: Set<TenantKey>, policy: Policy, key: TenantKey)
    requires
        all_released(releases, start, gone, policy),
        gone.contains(key),
        start.runtime_overrides.dom().contains(key),
        start.runtime_overrides[key].owner == RuntimeOwner::Adaptive,
    ensures
        exists|count: usize, accesses: VecDeque<ReleaseAccess<P, D>>, m: int|
            {
                &&& #[trigger] call_ensures(releases, (count,), accesses)
                &&& 0 <= m
                &&& call_ensures(
                    (#[trigger] accesses@[m]).delete,
                    (key,),
                    Ok::<(), MapError>(()),
                )
            },
{
    let (keys, accesses) = choose|
        keys: Seq<TenantKey>,
        accesses: VecDeque<ReleaseAccess<P, D>>,
    |
        {
            &&& lists(keys, gone)
            &&& #[trigger] release_supplied(releases, keys, accesses)
            &&& released_up_to(accesses@, start, keys, keys.len() as int, policy)
        };
    assert(keys.to_set().contains(key));
    let m = choose|m: int| 0 <= m < keys.len() && keys[m] == key;
    assert(!keys.take(m).to_set().contains(key)) by {
        if keys.take(m).contains(key) {
            let j = choose|j: int| 0 <= j < keys.take(m).len() && keys.take(m)[j] == key;
            assert(keys[j].rank() < keys[m].rank());
        }
    }
    assert(was_released(
        accesses@[m],
        managed_state(start, keys.take(m).to_set(), set![], policy),
        keys[m],
        policy,
    ));
    assert(call_ensures(releases, (keys.len() as usize,), accesses));
}

proof fn each_key_was_claimed<
    L: FnOnce(usize) -> VecDeque<ClaimAccess<Q, U>>,
    Q: FnOnce(&PersistedStateV1) -> Result<(), StateStoreError>,
    U: FnOnce(TenantKey, Policy) -> Result<(), MapError>,
>(
    claims: L,
    start: DesiredState,
    gone: Set<TenantKey>,
    wanted: Set<TenantKey>,
    policy: Policy,
    key: TenantKey,
)
    requires
        all_claimed(claims, start, gone, wanted, policy),
        wanted.contains(key),
        !(start.runtime_overrides.dom().contains(key) && start.runtime_overrides[key].owner
            == RuntimeOwner::Manual),
    ensures
        exists|count: usize, accesses: VecDeque<ClaimAccess<Q, U>>, m: int|
            {
                &&& #[trigger] call_ensures(claims, (count,), accesses)
                &&& 0 <= m
                &&& call_ensures(
                    (#[trigger] accesses@[m]).upsert,
                    (key, policy),
                    Ok::<(), MapError>(()),
                )
            },
{
    let (keys, accesses) = choose|keys: Seq<TenantKey>, accesses: VecDeque<ClaimAccess<Q, U>>|
        {
            &&& lists(keys, wanted)
            &&& #[trigger] claim_supplied(claims, keys, accesses)
            &&& claimed_up_to(accesses@, start, gone, keys, keys.len() as int, policy)
        };
    assert(keys.to_set().contains(key));
    let m = choose|m: int| 0 <= m < keys.len() && keys[m] == key;
    assert(was_claimed(
        accesses@[m],
        managed_state(start, gone, keys.take(m).to_set(), policy),
        keys[m],
        policy,
    ));
    assert(call_ensures(claims, (keys.len() as usize,), accesses));
}

/// Once the overrides were brought in line, every target that no manual override covers
/// has an adaptive one with the throttle, written to the map where it was new; every
/// managed tenant that is no target any more has none, deleted from the map where it
/// was adaptive; and all other overrides are as they were.
pub proof fn targets_are_throttled_and_others_are_not<
    R: FnOnce(usize) -> VecDeque<ReleaseAccess<P, D>>,
    P: FnOnce(&PersistedStateV1) -> Result<(), StateStoreError>,
    D: FnOnce(TenantKey) -> Result<(), MapError>,
    L: FnOnce(usize) -> VecDeque<ClaimAccess<Q, U>>,
    Q: FnOnce(&PersistedStateV1) -> Result<(), StateStoreError>,
    U: FnOnce(TenantKey, Policy) -> Result<(), MapError>,
>(
    releases: R,
    claims: L,
    before: &StateStore,
    managed: Set<TenantKey>,
    targets: Set<TenantKey>,
    policy: Policy,
    after: &StateStore,
    key: TenantKey,
)
    requires
        was_managed(releases, claims, before, managed, targets, policy, after),
    ensures
        ({
            let had = before.desired().runtime_overrides;
            let left = after.desired().runtime_overrides;
            let manual = had.dom().contains(key) && had[key].owner == RuntimeOwner::Manual;
            let adaptive = had.dom().contains(key) && had[key].owner == RuntimeOwner::Adaptive;
            &&& manual ==> left.dom().contains(key) && left[key] == had[key]
            &&& !manual && targets.contains(key) && !managed.contains(key) ==> {
                &&& left.dom().contains(key)
                &&& left[key].policy == policy
                &&& left[key].owner == RuntimeOwner::Adaptive
                &&& exists|count: usize, accesses: VecDeque<ClaimAccess<Q, U>>, m: int|
                    {
                        &&& #[trigger] call_ensures(claims, (count,), accesses)
                        &&& 0 <= m
                        &&& call_ensures(
                            (#[trigger] accesses@[m]).upsert,
                            (key, policy),
                            Ok::<(), MapError>(()),
                        )
                    }
            }
            &&& adaptive && managed.contains(key) && !targets.contains(key) ==> {
                &&& !left.dom().contains(key)
                &&& exists|count: usize, accesses: VecDeque<ReleaseAccess<P, D>>, m: int|
                    {
                        &&& #[trigger] call_ensures(releases, (count,), accesses)
                        &&& 0 <= m
                        &&& call_ensures(
                            (#[trigger] accesses@[m]).delete,
                            (key,),
                            Ok::<(), MapError>(()),
                        )
                    }
            }
            &&& managed.contains(key) == targets.contains(key) ==> lookup(left, key) == lookup(
                had,
                key,
            )
        }),
        after.desired().base_policies == before.desired().base_policies,
        after.desired().essential_tenants == before.desired().essential_tenants,
        after.desired().global_enabled == before.desired().global_enabled,
        after.desired().flow_keys_live == before.desired().flow_keys_live,
{
    let start = before.desired();
    let gone = keys_to_release(managed, targets);
    let wanted = keys_to_claim(managed, targets);
    let had = start.runtime_overrides;
    let manual = had.dom().contains(key) && had[key].owner == RuntimeOwner::Manual;
    if !manual && targets.contains(key) && !managed.contains(key) {
        each_key_was_claimed(claims, start, gone, wanted, policy, key);
    }
    if had.dom().contains(key) && had[key].owner == RuntimeOwner::Adaptive && managed.contains(key)
        && !targets.contains(key) {
        each_key_was_released(releases, start, gone, policy, key);
    }
}

/// Once the overrides were cleared, no managed tenant has an adaptive one, each was deleted
/// from the map, and every other override is as it was.
pub proof fn clearing_removes_every_managed_override<
    R: FnOnce(usize) -> VecDeque<ReleaseAccess<P, D>>,
    P: FnOnce(&PersistedStateV1) -> Result<(), StateStoreError>,
    D: FnOnce(TenantKey) -> Result<(), MapError>,
>(
    releases: R,
    before: &StateStore,
    managed: Set<TenantKey>,
    policy: Policy,
    after: &StateStore,
    key: TenantKey,
)
    requires
        was_cleared(releases, before, managed, policy, after),
    ensures
        ({
            let had = before.desired().runtime_overrides;
            let left = after.desired().runtime_overrides;
            let adaptive = had.dom().contains(key) && had[key].owner == RuntimeOwner::Adaptive;
            &&& adaptive && managed.contains(key) ==> {
                &&& !left.dom().contains(key)
                &&& exists|count: usize, accesses: VecDeque<ReleaseAccess<P, D>>, m: int|
                    {
                        &&& #[trigger] call_ensures(releases, (count,), accesses)
                        &&& 0 <= m
                        &&& call_ensures(
                            (#[trigger] accesses@[m]).delete,
                            (key,),
                            Ok::<(), MapError>(()),
                        )
                    }
            }
            &&& !(adaptive && managed.contains(key)) ==> lookup(left, key) == lookup(had, key)
        }),
        after.desired().base_policies == before.desired().base_policies,
        after.desired().essential_tenants == before.desired().essential_tenants,
        after.desired().global_enabled == before.desired().global_enabled,
        after.desired().flow_keys_live == before.desired().flow_keys_live,
{
    let had = before.desired().runtime_overrides;
    if had.dom().contains(key) && had[key].owner == RuntimeOwner::Adaptive && managed.contains(
        key,
    ) {
        each_key_was_released(releases, before.desired(), managed, policy, key);
    }
}

/// A clearing that fails forgets nothing: every managed tenant whose override is still
/// adaptive is managed still, so that the next attempt removes it, and nothing is
/// managed that was not. Nothing but adaptive overrides of managed tenants went, and the
/// error is the one that a deletion or persisting gave.
pub proof fn a_failed_clearing_forgets_nothing<
    R: FnOnce(usize) -> VecDeque<ReleaseAccess<P, D>>,
    P: FnOnce(&PersistedStateV1) -> Result<(), StateStoreError>,
    D: FnOnce(TenantKey) -> Result<(), MapError>,
>(
    releases: R,
    before: &StateStore,
    managed: Set<TenantKey>,
    policy: Policy,
    after: &StateStore,
    managed_now: Set<TenantKey>,
    error: AdaptiveError,
    key: TenantKey,
)
    requires
        clear_failed(releases, before, managed, policy, after, managed_now, error),
    ensures
        managed.contains(key) && after.desired().runtime_overrides.dom().contains(key)
            && after.desired().runtime_overrides[key].owner == RuntimeOwner::Adaptive
            ==> managed_now.contains(key),
        managed_now.contains(key) ==> managed.contains(key),
        lookup(after.desired().runtime_overrides, key) != lookup(
            before.desired().runtime_overrides,
            key,
        ) ==> managed.contains(key) && before.desired().runtime_overrides[key].owner
            == RuntimeOwner::Adaptive && !after.desired().runtime_overrides.dom().contains(key),
        error matches AdaptiveError::MapOperation(failure) ==> exists|
            count: usize,
            accesses: VecDeque<ReleaseAccess<P, D>>,
            n: int,
            at: TenantKey,
        |
            {
                &&& #[trigger] call_ensures(releases, (count,), accesses)
                &&& managed.contains(at)
                &&& #[trigger] call_ensures(
                    accesses@[n].delete,
                    (at,),
                    Err::<(), MapError>(failure),
                )
            },
        error matches AdaptiveError::StateStore(failure) ==> exists|
            count: usize,
            accesses: VecDeque<ReleaseAccess<P, D>>,
            n: int,
            state: DesiredState,
        |
            {
                &&& #[trigger] call_ensures(releases, (count,), accesses)
                &&& #[trigger] persisted(
                    accesses@[n].persist,
                    state,
                    Err::<(), StateStoreError>(failure),
                )
            },
{
    let (keys, accesses, n) = choose|
        keys: Seq<TenantKey>,
        accesses: VecDeque<ReleaseAccess<P, D>>,
        n: int,
    |
        {
            &&& lists(keys, managed)
            &&& #[trigger] release_supplied(releases, keys, accesses)
            &&& #[trigger] release_stopped_at(
                accesses@,
                before,
                keys,
                n,
                policy,
                after,
                error,
            )
            &&& managed_now == managed.difference(keys.take(n).to_set())
        };
    part_of_listed(keys, managed, n);
    assert(keys.to_set().contains(keys[n]));
    assert(call_ensures(releases, (keys.len() as usize,), accesses));
}

proof fn reconcile_failed_part_way<
    K: FnOnce() -> Result<Vec<TenantKey>, MapError>,
    C: FnOnce() -> Result<Vec<(TenantKey, Counters)>, MapError>,
    R: FnOnce(usize) -> VecDeque<ReleaseAccess<P, D>>,
    P: FnOnce(&PersistedStateV1) -> Result<(), StateStoreError>,
    D: FnOnce(TenantKey) -> Result<(), MapError>,
    L: FnOnce(usize) -> VecDeque<ClaimAccess<Q, U>>,
    Q: FnOnce(&PersistedStateV1) -> Result<(), StateStoreError>,
    U: FnOnce(TenantKey, Policy) -> Result<(), MapError>,
>(
    list_policy_keys: K,
    list_counters: C,
    releases: R,
    claims: L,
    essential: Set<u64>,
    before: &StateStore,
    managed: Set<TenantKey>,
    policy: Policy,
    after: &StateStore,
    managed_now: Set<TenantKey>,
    error: AdaptiveError,
    key: TenantKey,
)
    requires
        reconcile_failed(
            list_policy_keys,
            list_counters,
            releases,
            claims,
            essential,
            before,
            managed,
            policy,
            after,
            managed_now,
            error,
        ),
    ensures
        lookup(after.desired().runtime_overrides, key) != lookup(
            before.desired().runtime_overrides,
            key,
        ) ==> {
            ||| managed.contains(key) && before.desired().runtime_overrides[key].owner
                == RuntimeOwner::Adaptive && !after.desired().runtime_overrides.dom().contains(key)
            ||| !managed.contains(key) && after.desired().runtime_overrides[key].policy == policy
                && after.desired().runtime_overrides[key].owner == RuntimeOwner::Adaptive
        },
{
    assert forall|keys: Seq<TenantKey>, all: Set<TenantKey>, n: int|
        #[trigger] lists(keys, all) && 0 <= n < keys.len() implies all.contains(
        #[trigger] keys[n],
    ) && keys.take(n).to_set().subset_of(all) by {
        part_of_listed(keys, all, n);
        assert(keys.to_set().contains(keys[n]));
    }
}

/// Where bringing the overrides in line fails, nothing is forgotten: every managed tenant
/// whose override is still adaptive is managed still. Manual overrides, base policies
/// and essential tenants are as they were.
pub proof fn a_failed_reconcile_forgets_nothing<
    K: FnOnce() -> Result<Vec<TenantKey>, MapError>,
    C: FnOnce() -> Result<Vec<(TenantKey, Counters)>, MapError>,
    R: FnOnce(usize) -> VecDeque<ReleaseAccess<P, D>>,
    P: FnOnce(&PersistedStateV1) -> Result<(), StateStoreError>,
    D: FnOnce(TenantKey) -> Result<(), MapError>,
    L: FnOnce(usize) -> VecDeque<ClaimAccess<Q, U>>,
    Q: FnOnce(&PersistedStateV1) -> Result<(), StateStoreError>,
    U: FnOnce(TenantKey, Policy) -> Result<(), MapError>,
>(
    list_policy_keys: K,
    list_counters: C,
    releases: R,
    claims: L,
    essential: Set<u64>,
    before: &StateStore,
    managed: Set<TenantKey>,
    policy: Policy,
    after: &StateStore,
    managed_now: Set<TenantKey>,
    error: AdaptiveError,
    key: TenantKey,
)
    requires
        reconcile_failed(
            list_policy_keys,
            list_counters,
            releases,
            claims,
            essential,
            before,
            managed,
            policy,
            after,
            managed_now,
            error,
        ),
    ensures
        managed.contains(key) && after.desired().runtime_overrides.dom().contains(key)
            && after.desired().runtime_overrides[key].owner == RuntimeOwner::Adaptive
            ==> managed_now.contains(key),
        before.desired().runtime_overrides.dom().contains(key)
            && before.desired().runtime_overrides[key].owner == RuntimeOwner::Manual ==> lookup(
            after.desired().runtime_overrides,
            key,
        ) == lookup(before.desired().runtime_overrides, key),
        after.desired().base_policies == before.desired().base_policies,
        after.desired().essential_tenants == before.desired().essential_tenants,
        lookup(after.desired().runtime_overrides, key) != lookup(
            before.desired().runtime_overrides,
            key,
        ) ==> {
            ||| managed.contains(key) && before.desired().runtime_overrides[key].owner
                == RuntimeOwner::Adaptive && !after.desired().runtime_overrides.dom().contains(key)
            ||| !managed.contains(key) && after.desired().runtime_overrides[key].policy == policy
                && after.desired().runtime_overrides[key].owner == RuntimeOwner::Adaptive
        },
{
    reconcile_failed_part_way(
        list_policy_keys,
        list_counters,
        releases,
        claims,
        essential,
        before,
        managed,
        policy,
        after,
        managed_now,
        error,
        key,
    );
    if managed.contains(key) && !managed_now.contains(key) {
        let (targets, keys, accesses, n) = choose|
            targets: Set<TenantKey>,
            keys: Seq<TenantKey>,
            accesses: VecDeque<ClaimAccess<Q, U>>,
            n: int,
        |
            {
                &&& #[trigger] targets_found(list_policy_keys, list_counters, essential, targets)
                &&& lists(keys, keys_to_claim(managed, targets))
                &&& #[trigger] claim_supplied(claims, keys, accesses)
                &&& #[trigger] claim_stopped_at(
                    accesses@,
                    before,
                    keys_to_release(managed, targets),
                    keys_to_release(managed, targets).len() as int,
                    keys,
                    n,
                    policy,
                    after,
                    error,
                )
                &&& managed_now == managed_with(
                    before.desired(),
                    managed.intersect(targets),
                    keys.take(n).to_set(),
                )
            };
        assert forall|m: int| 0 <= m < keys.len() implies #[trigger] keys[m] != key by {
            assert(keys.contains(keys[m]));
            assert(keys.to_set().contains(keys[m]));
        }
        assert(!keys.take(n).to_set().contains(key));
        assert(keys[n] != key);
    }
}

/// Bringing the overrides in line fails only where something did, with the same error:
/// listing, a deletion for a managed tenant, a write of the throttle for one that was
/// not managed, or persisting.
pub proof fn a_failed_tick_has_a_cause<
    K: FnOnce() -> Result<Vec<TenantKey>, MapError>,
    C: FnOnce() -> Result<Vec<(TenantKey, Counters)>, MapError>,
    R: FnOnce(usize) -> VecDeque<ReleaseAccess<P, D>>,
    P: FnOnce(&PersistedStateV1) -> Result<(), StateStoreError>,
    D: FnOnce(TenantKey) -> Result<(), MapError>,
    L: FnOnce(usize) -> VecDeque<ClaimAccess<Q, U>>,
    Q: FnOnce(&PersistedStateV1) -> Result<(), StateStoreError>,
    U: FnOnce(TenantKey, Policy) -> Result<(), MapError>,
>(
    list_policy_keys: K,
    list_counters: C,
    releases: R,
    claims: L,
    essential: Set<u64>,
    before: &StateStore,
    managed: Set<TenantKey>,
    policy: Policy,
    after: &StateStore,
    managed_now: Set<TenantKey>,
    error: AdaptiveError,
)
    requires
        reconcile_failed(
            list_policy_keys,
            list_counters,
            releases,
            claims,
            essential,
            before,
            managed,
            policy,
            after,
            managed_now,
            error,
        ),
    ensures
        error matches AdaptiveError::MapOperation(failure) ==> {
            ||| call_ensures(list_policy_keys, (), Err::<Vec<TenantKey>, MapError>(failure))
            ||| call_ensures(
                list_counters,
                (),
                Err::<Vec<(TenantKey, Counters)>, MapError>(failure),
            )
            ||| exists|
                count: usize,
                accesses: VecDeque<ReleaseAccess<P, D>>,
                n: int,
                at: TenantKey,
            |
                {
                    &&& #[trigger] call_ensures(releases, (count,), accesses)
                    &&& managed.contains(at)
                    &&& #[trigger] call_ensures(
                        accesses@[n].delete,
                        (at,),
                        Err::<(), MapError>(failure),
                    )
                }
            ||| exists|
                count: usize,
                accesses: VecDeque<ClaimAccess<Q, U>>,
                n: int,
                at: TenantKey,
            |
                {
                    &&& #[trigger] call_ensures(claims, (count,), accesses)
                    &&& !managed.contains(at)
                    &&& #[trigger] call_ensures(
                        accesses@[n].upsert,
                        (at, policy),
                        Err::<(), MapError>(failure),
                    )
                }
        },
        error matches AdaptiveError::StateStore(failure) ==> {
            ||| exists|
                count: usize,
                accesses: VecDeque<ReleaseAccess<P, D>>,
                n: int,
                state: DesiredState,
            |
                {
                    &&& #[trigger] call_ensures(releases, (count,), accesses)
                    &&& #[trigger] persisted(
                        accesses@[n].persist,
                        state,
                        Err::<(), StateStoreError>(failure),
                    )
                }
            ||| exists|
                count: usize,
                accesses: VecDeque<ClaimAccess<Q, U>>,
                n: int,
                state: DesiredState,
            |
                {
                    &&& #[trigger] call_ensures(claims, (count,), accesses)
                    &&& #[trigger] persisted(
                        accesses@[n].persist,
                        state,
                        Err::<(), StateStoreError>(failure),
                    )
                }
        },
{
    let unlisted = error matches AdaptiveError::MapOperation(failure) && listing_failed(
        list_policy_keys,
        list_counters,
        failure,
    );
    if !unlisted {
        assert forall|keys: Seq<TenantKey>, all: Set<TenantKey>, n: int|
            #[trigger] lists(keys, all) && 0 <= n < keys.len() implies all.contains(
            #[trigger] keys[n],
        ) by {
            assert(keys.to_set().contains(keys[n]));
        }
        assert forall|keys: Seq<TenantKey>, accesses: VecDeque<ReleaseAccess<P, D>>| #[trigger]
            release_supplied(releases, keys, accesses) implies call_ensures(
            releases,
            (keys.len() as usize,),
            accesses,
        ) by {}
        assert forall|keys: Seq<TenantKey>, accesses: VecDeque<ClaimAccess<Q, U>>| #[trigger]
            claim_supplied(claims, keys, accesses) implies call_ensures(
            claims,
            (keys.len() as usize,),
            accesses,
        ) by {}
    }
}

/// The controller keeps the runtime map in line with the desired state: where the map
/// held the policies of the overrides, it does so again once the keys that were
/// released are gone from it and those that were claimed have the policy.
pub proof fn managing_keeps_the_map_in_line(
    state: DesiredState,
    gone: Set<TenantKey>,
    wanted: Set<TenantKey>,
    policy: Policy,
)
    ensures
        override_policies(managed_state(state, gone, wanted, policy).runtime_overrides)
            == Map::<TenantKey, Policy>::new(
            |key: TenantKey|
                is_claimed(state, wanted, key) || override_policies(
                    state.runtime_overrides,
                ).dom().contains(key) && !is_released(state, gone, key),
            |key: TenantKey|
                if is_claimed(state, wanted, key) {
                    policy
                } else {
                    override_policies(state.runtime_overrides)[key]
                },
        ),
{
    assert(override_policies(managed_state(state, gone, wanted, policy).runtime_overrides)
        =~= Map::<TenantKey, Policy>::new(
        |key: TenantKey|
            is_claimed(state, wanted, key) || override_policies(
                state.runtime_overrides,
            ).dom().contains(key) && !is_released(state, gone, key),
        |key: TenantKey|
            if is_claimed(state, wanted, key) {
                policy
            } else {
                override_policies(state.runtime_overrides)[key]
            },
    ));
}

/// Throttling leaves no trace: where no target had an adaptive override before,
/// entering and leaving gives back the state as it was.
pub proof fn leaving_undoes_entering(
    state: DesiredState,
    targets: Set<TenantKey>,
    policy: Policy,
)
    requires
        forall|key: TenantKey| #[trigger]
            targets.contains(key) ==> !owned_by(state, key, RuntimeOwner::Adaptive),
    ensures
        managed_state(
            managed_state(state, set![], keys_to_claim(set![], targets), policy),
            managed_after(state, set![], targets),
            set![],
            policy,
        ) == state,
{
    let entered = managed_state(state, set![], keys_to_claim(set![], targets), policy);
    let left = managed_state(entered, managed_after(state, set![], targets), set![], policy);
    assert forall|key: TenantKey| left.runtime_overrides.dom().contains(key)
        == state.runtime_overrides.dom().contains(key) by {
        assert(keys_to_claim(set![], targets).contains(key) == targets.contains(key));
    }
    assert(left.runtime_overrides =~= state.runtime_overrides);
}

} // verus!
