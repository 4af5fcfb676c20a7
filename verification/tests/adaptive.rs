//! Throttling tenants while the host is under load.

use std::collections::{BTreeMap, BTreeSet, VecDeque};
use std::sync::{Arc, Mutex};

use vantage::adaptive::{
    clear_managed_overrides, decide_tick, reconcile_managed_overrides, select_targets,
    target_override_keys, tenant_wildcard_key, throttle_policy, tick_controller, AdaptiveAction,
    AdaptiveError, AdaptiveRuntimeState, AdaptiveState, ClaimAccess, ReleaseAccess,
};
use vantage::common::{Counters, GlobalConfig, GlobalStats, Policy, TenantKey};
use vantage::config::{AdaptiveConfig, Cli, Config};
use vantage::map_client::{MapClient, MapError, MapOps};
use vantage::state_store::{
    PersistedStateV1, RuntimeOwner, StateStore, StateStoreDefaults, StateStoreError,
};
use vantage::table::KeySet;
use vantage::tenancy::TenancyState;

/// Kernel maps kept in memory; `broken` names the one operation that fails.
struct MemoryMaps {
    base: Mutex<BTreeMap<TenantKey, Policy>>,
    runtime: Mutex<BTreeMap<TenantKey, Policy>>,
    switches: Mutex<GlobalConfig>,
    broken: Mutex<&'static str>,
    counters: Mutex<Vec<(TenantKey, Counters)>>,
}

impl MemoryMaps {
    fn new() -> Arc<Self> {
        Arc::new(MemoryMaps {
            base: Mutex::new(BTreeMap::new()),
            runtime: Mutex::new(BTreeMap::new()),
            switches: Mutex::new(GlobalConfig {
                enabled: 0,
                flow_keys_live: 0,
                _pad: [0; 6],
            }),
            broken: Mutex::new(""),
            counters: Mutex::new(Vec::new()),
        })
    }

    fn run(&self, operation: &'static str) -> Result<(), MapError> {
        if *self.broken.lock().unwrap() == operation {
            return Err(MapError::Operation(operation.to_owned()));
        }
        Ok(())
    }
}

impl MapOps for MemoryMaps {
    fn upsert_policy(&self, tenant: TenantKey, policy: Policy) -> Result<(), MapError> {
        self.run("upsert_policy")?;
        self.base.lock().unwrap().insert(tenant, policy);
        Ok(())
    }

    fn delete_policy(&self, tenant: TenantKey) -> Result<(), MapError> {
        self.run("delete_policy")?;
        self.base.lock().unwrap().remove(&tenant);
        Ok(())
    }

    fn get_policy(&self, tenant: TenantKey) -> Result<Option<Policy>, MapError> {
        self.run("get_policy")?;
        Ok(self.base.lock().unwrap().get(&tenant).copied())
    }

    fn upsert_runtime_policy(&self, tenant: TenantKey, policy: Policy) -> Result<(), MapError> {
        self.run("upsert_runtime_policy")?;
        self.runtime.lock().unwrap().insert(tenant, policy);
        Ok(())
    }

    fn delete_runtime_policy(&self, tenant: TenantKey) -> Result<(), MapError> {
        self.run("delete_runtime_policy")?;
        self.runtime.lock().unwrap().remove(&tenant);
        Ok(())
    }

    fn get_runtime_policy(&self, tenant: TenantKey) -> Result<Option<Policy>, MapError> {
        self.run("get_runtime_policy")?;
        Ok(self.runtime.lock().unwrap().get(&tenant).copied())
    }

    fn collect_policy_keys(&self) -> Result<Vec<TenantKey>, MapError> {
        self.run("collect_policy_keys")?;
        Ok(self.base.lock().unwrap().keys().copied().collect())
    }

    fn collect_runtime_policy_keys(&self) -> Result<Vec<TenantKey>, MapError> {
        self.run("collect_runtime_policy_keys")?;
        Ok(self.runtime.lock().unwrap().keys().copied().collect())
    }

    fn collect_counters(&self) -> Result<Vec<(TenantKey, Counters)>, MapError> {
        self.run("collect_counters")?;
        Ok(self.counters.lock().unwrap().clone())
    }

    fn read_global_stats(&self) -> Result<GlobalStats, MapError> {
        Err(MapError::LockPoisoned)
    }

    fn seed_global_config(&self, config: GlobalConfig) -> Result<(), MapError> {
        self.run("seed_global_config")?;
        *self.switches.lock().unwrap() = config;
        Ok(())
    }

    fn set_global_enabled(&self, enabled: bool) -> Result<(), MapError> {
        self.switches.lock().unwrap().enabled = u8::from(enabled);
        Ok(())
    }

    fn get_global_enabled(&self) -> Result<bool, MapError> {
        self.run("get_global_enabled")?;
        Ok(self.switches.lock().unwrap().enabled != 0)
    }

    fn set_flow_keys_live(&self, flow_keys_live: bool) -> Result<(), MapError> {
        self.switches.lock().unwrap().flow_keys_live = u8::from(flow_keys_live);
        Ok(())
    }

    fn get_flow_keys_live(&self) -> Result<bool, MapError> {
        self.run("get_flow_keys_live")?;
        Ok(self.switches.lock().unwrap().flow_keys_live != 0)
    }
}

fn tenant(cgroup_id: u64) -> TenantKey {
    TenantKey {
        cgroup_id,
        http_path_hash: 0,
        dst_port: 0,
        proto: 0,
        http_method: 0,
    }
}

fn accept(_: &PersistedStateV1) -> Result<(), StateStoreError> {
    Ok(())
}

fn empty_store() -> StateStore {
    let store = StateStore::load_or_init(|| Ok(None), &accept, &StateStoreDefaults::default());
    let Ok(store) = store else {
        panic!("store should initialize");
    };
    store
}

fn settings() -> AdaptiveConfig {
    Config::from_cli(Cli::default()).adaptive
}

fn no_counters() -> Counters {
    Counters {
        pass_pkts: 0,
        drop_pkts: 0,
        pass_bytes: 0,
        drop_bytes: 0,
    }
}

/// A controller with all that it works on.
struct Bench {
    ops: Arc<MemoryMaps>,
    maps: MapClient<MemoryMaps>,
    store: StateStore,
    tenancy: TenancyState,
    mode: AdaptiveState,
    managed: KeySet<TenantKey>,
    report: AdaptiveRuntimeState,
}

impl Bench {
    fn new() -> Self {
        let ops = MemoryMaps::new();
        Bench {
            maps: MapClient::new(Arc::clone(&ops)),
            ops,
            store: empty_store(),
            tenancy: TenancyState::default(),
            mode: AdaptiveState::default(),
            managed: KeySet::new(),
            report: AdaptiveRuntimeState::default(),
        }
    }

    fn tick(&mut self, cpu: u32, memory: u32) -> Result<(), AdaptiveError> {
        let maps = &self.maps;
        tick_controller(
            &mut self.store,
            || maps.collect_policy_keys(),
            || maps.collect_counters(),
            &self.tenancy,
            &settings(),
            &mut self.mode,
            &mut self.managed,
            &mut self.report,
            cpu,
            memory,
            |count: usize| -> VecDeque<_> {
                (0..count)
                    .map(|_| ReleaseAccess {
                        persist: accept,
                        delete: move |key: TenantKey| maps.delete_runtime_policy(key),
                    })
                    .collect()
            },
            |count: usize| -> VecDeque<_> {
                (0..count)
                    .map(|_| ClaimAccess {
                        persist: accept,
                        upsert: move |key: TenantKey, policy: Policy| {
                            maps.upsert_runtime_policy(key, policy)
                        },
                    })
                    .collect()
            },
        )
    }

    fn overrides(&self) -> Vec<(u64, RuntimeOwner)> {
        self.store
            .snapshot()
            .runtime_overrides
            .rows()
            .iter()
            .map(|row| (row.0.cgroup_id, row.1.owner))
            .collect()
    }
}

#[test]
fn watermarks_decide() {
    let config = settings();
    let inactive = |cpu, memory| decide_tick(AdaptiveState::Inactive, cpu, memory, &config);
    assert_eq!(inactive(8_999, 8_999), AdaptiveAction::Stay);
    assert_eq!(inactive(9_000, 0), AdaptiveAction::Enter);
    assert_eq!(inactive(0, 9_000), AdaptiveAction::Enter);
    let throttling = |cpu, memory| decide_tick(AdaptiveState::Throttling, cpu, memory, &config);
    assert_eq!(throttling(8_000, 8_000), AdaptiveAction::Leave);
    assert_eq!(throttling(8_001, 0), AdaptiveAction::Refresh);
    assert_eq!(throttling(0, 8_001), AdaptiveAction::Refresh);
}

#[test]
fn no_load_makes_the_controller_flap() {
    let config = settings();
    for load in (0..=10_000).step_by(50) {
        let enters = decide_tick(AdaptiveState::Inactive, load, 0, &config);
        let leaves = decide_tick(AdaptiveState::Throttling, load, 0, &config);
        assert!(!(enters == AdaptiveAction::Enter && leaves == AdaptiveAction::Leave));
    }
}

#[test]
fn throttled_tenants_get_the_configured_policy() {
    assert_eq!(throttle_policy(&settings()), Policy::plain(100, 500, true));
    assert_eq!(tenant_wildcard_key(6), tenant(6));
}

#[test]
fn targets_are_known_tenants_that_are_not_essential() {
    let mut base = BTreeSet::new();
    base.insert(1);
    base.insert(2);
    let seen = TenantKey { proto: 6, dst_port: 80, ..tenant(3) };
    let mut essential = BTreeSet::new();
    essential.insert(2);
    let targets = select_targets(
        &base,
        &[(seen, no_counters()), (seen, no_counters())],
        &TenancyState::new(essential),
    );
    assert_eq!(targets.keys(), vec![tenant(1), tenant(3)]);
}

#[test]
fn load_puts_overrides_in_place_and_recovery_removes_them() {
    let mut bench = Bench::new();
    bench.ops.base.lock().unwrap().insert(tenant(1), Policy::plain(9, 9, true));
    bench.ops.counters.lock().unwrap().push((tenant(2), no_counters()));
    bench.tenancy.set_essential(2, true);
    bench.ops.counters.lock().unwrap().push((tenant(3), no_counters()));

    assert!(bench.tick(1_000, 1_000).is_ok());
    assert_eq!(bench.mode, AdaptiveState::Inactive);
    assert!(bench.overrides().is_empty());

    assert!(bench.tick(9_500, 1_000).is_ok());
    assert_eq!(bench.mode, AdaptiveState::Throttling);
    assert_eq!(
        bench.overrides(),
        vec![(1, RuntimeOwner::Adaptive), (3, RuntimeOwner::Adaptive)]
    );
    assert_eq!(
        *bench.ops.runtime.lock().unwrap(),
        BTreeMap::from([
            (tenant(1), Policy::plain(100, 500, true)),
            (tenant(3), Policy::plain(100, 500, true)),
        ])
    );
    assert_eq!(bench.report.snapshot().active_override_count, 2);
    assert_eq!(bench.report.snapshot().state, AdaptiveState::Throttling);

    bench.ops.counters.lock().unwrap().clear();
    assert!(bench.tick(8_500, 1_000).is_ok());
    assert_eq!(bench.overrides(), vec![(1, RuntimeOwner::Adaptive)]);
    assert_eq!(bench.report.snapshot().active_override_count, 1);

    assert!(bench.tick(7_000, 1_000).is_ok());
    assert_eq!(bench.mode, AdaptiveState::Inactive);
    assert!(bench.overrides().is_empty());
    assert!(bench.ops.runtime.lock().unwrap().is_empty());
    assert_eq!(bench.report.snapshot().active_override_count, 0);
}

#[test]
fn manual_overrides_are_left_alone() {
    let mut bench = Bench::new();
    let manual = Policy::plain(7, 7, true);
    bench.ops.base.lock().unwrap().insert(tenant(1), Policy::plain(9, 9, true));
    assert!(bench
        .store
        .upsert_manual_runtime_override(tenant(1), manual, &accept)
        .is_ok());
    bench.ops.runtime.lock().unwrap().insert(tenant(1), manual);
    assert!(bench.tick(10_000, 10_000).is_ok());
    assert_eq!(bench.managed.len(), 0);
    assert_eq!(bench.overrides(), vec![(1, RuntimeOwner::Manual)]);
    assert!(bench.tick(0, 0).is_ok());
    assert_eq!(bench.overrides(), vec![(1, RuntimeOwner::Manual)]);
    assert_eq!(bench.ops.runtime.lock().unwrap().get(&tenant(1)), Some(&manual));
}

#[test]
fn an_override_that_became_manual_is_not_removed() {
    let mut bench = Bench::new();
    bench.ops.base.lock().unwrap().insert(tenant(1), Policy::plain(9, 9, true));
    assert!(bench.tick(10_000, 0).is_ok());
    assert_eq!(bench.managed.keys(), vec![tenant(1)]);
    assert!(bench
        .store
        .upsert_manual_runtime_override(tenant(1), Policy::plain(7, 7, true), &accept)
        .is_ok());
    assert!(bench.tick(0, 0).is_ok());
    assert_eq!(bench.managed.len(), 0);
    assert_eq!(bench.overrides(), vec![(1, RuntimeOwner::Manual)]);
    assert!(bench.ops.runtime.lock().unwrap().contains_key(&tenant(1)));
}

#[test]
fn a_failed_tick_keeps_the_mode() {
    let mut bench = Bench::new();
    bench.ops.base.lock().unwrap().insert(tenant(1), Policy::plain(9, 9, true));
    *bench.ops.broken.lock().unwrap() = "upsert_runtime_policy";
    let failed = bench.tick(10_000, 0);
    assert!(matches!(failed, Err(AdaptiveError::MapOperation(_))));
    assert_eq!(bench.mode, AdaptiveState::Inactive);
    assert_eq!(bench.managed.len(), 0);
    assert_eq!(bench.overrides(), vec![(1, RuntimeOwner::Adaptive)]);

    *bench.ops.broken.lock().unwrap() = "";
    assert!(bench.tick(10_000, 0).is_ok());
    *bench.ops.broken.lock().unwrap() = "delete_runtime_policy";
    assert!(bench.tick(0, 0).is_err());
    assert_eq!(bench.mode, AdaptiveState::Throttling);
    assert_eq!(bench.managed.len(), 1);
    assert!(bench.overrides().is_empty());
    assert_eq!(bench.report.snapshot().state, AdaptiveState::Throttling);
}

#[test]
fn listings_can_fail() {
    let bench = Bench::new();
    for broken in ["collect_policy_keys", "collect_counters"] {
        *bench.ops.broken.lock().unwrap() = broken;
        let failed = target_override_keys(
            || bench.maps.collect_policy_keys(),
            || bench.maps.collect_counters(),
            &bench.tenancy,
        );
        assert!(matches!(failed, Err(MapError::Operation(reason)) if reason == broken));
    }
    *bench.ops.broken.lock().unwrap() = "";
    assert!(target_override_keys(
            || bench.maps.collect_policy_keys(),
            || bench.maps.collect_counters(),
            &bench.tenancy,
        ).is_ok());
}

#[test]
fn a_state_that_cannot_be_persisted_stops_the_step() {
    let mut bench = Bench::new();
    bench.ops.base.lock().unwrap().insert(tenant(1), Policy::plain(9, 9, true));
    let refuse = |_: &PersistedStateV1| Err(StateStoreError::LockPoisoned);
    let maps = &bench.maps;
    let failed = reconcile_managed_overrides(
        &mut bench.store,
        || maps.collect_policy_keys(),
        || maps.collect_counters(),
        &bench.tenancy,
        &settings(),
        &mut bench.managed,
        |count: usize| -> VecDeque<_> {
            (0..count)
                .map(|_| ReleaseAccess {
                    persist: refuse,
                    delete: move |key: TenantKey| maps.delete_runtime_policy(key),
                })
                .collect()
        },
        |count: usize| -> VecDeque<_> {
            (0..count)
                .map(|_| ClaimAccess {
                    persist: refuse,
                    upsert: move |key: TenantKey, policy: Policy| {
                        maps.upsert_runtime_policy(key, policy)
                    },
                })
                .collect()
        },
    );
    assert!(matches!(
        failed,
        Err(AdaptiveError::StateStore(StateStoreError::LockPoisoned))
    ));
    assert!(bench.ops.runtime.lock().unwrap().is_empty());
    assert!(bench.overrides().is_empty());

    bench.managed.insert(tenant(1));
    let failed = clear_managed_overrides(
        &mut bench.store,
        &settings(),
        &mut bench.managed,
        |count: usize| -> VecDeque<_> {
            (0..count)
                .map(|_| ReleaseAccess {
                    persist: refuse,
                    delete: move |key: TenantKey| maps.delete_runtime_policy(key),
                })
                .collect()
        },
    );
    assert!(failed.is_err());
    assert_eq!(bench.managed.len(), 1);
}

type Persist = fn(&PersistedStateV1) -> Result<(), StateStoreError>;
type Delete = fn(TenantKey) -> Result<(), MapError>;
type Upsert = fn(TenantKey, Policy) -> Result<(), MapError>;

#[test]
fn a_quiet_tick_does_nothing() {
    let mut bench = Bench::new();
    bench.ops.base.lock().unwrap().insert(tenant(1), Policy::plain(9, 9, true));
    let ticked = tick_controller(
        &mut bench.store,
        || panic!("nothing is listed"),
        || panic!("nothing is listed"),
        &bench.tenancy,
        &settings(),
        &mut bench.mode,
        &mut bench.managed,
        &mut bench.report,
        1_000,
        1_000,
        |_: usize| -> VecDeque<ReleaseAccess<Persist, Delete>> { panic!("nothing is released") },
        |_: usize| -> VecDeque<ClaimAccess<Persist, Upsert>> { panic!("nothing is claimed") },
    );
    assert!(ticked.is_ok());
    assert_eq!(bench.mode, AdaptiveState::Inactive);
    assert_eq!(bench.store.revision(), 0);
}

#[test]
fn a_tenant_that_became_essential_is_released() {
    let mut bench = Bench::new();
    for id in 1..=2 {
        bench.ops.base.lock().unwrap().insert(tenant(id), Policy::plain(9, 9, true));
    }
    assert!(bench.tick(10_000, 0).is_ok());
    assert_eq!(bench.managed.keys(), vec![tenant(1), tenant(2)]);
    bench.tenancy.set_essential(1, true);
    assert!(bench.tick(10_000, 0).is_ok());
    assert_eq!(bench.managed.keys(), vec![tenant(2)]);
    assert_eq!(
        *bench.ops.runtime.lock().unwrap(),
        BTreeMap::from([(tenant(2), Policy::plain(100, 500, true))])
    );
}

#[test]
fn overrides_are_stored_before_they_are_written() {
    let mut bench = Bench::new();
    for id in 1..=2 {
        bench.ops.base.lock().unwrap().insert(tenant(id), Policy::plain(9, 9, true));
    }
    bench.managed.insert(tenant(3));
    assert!(bench
        .store
        .upsert_adaptive_runtime_override(tenant(3), Policy::plain(1, 1, true), accept)
        .is_ok());
    let log: Mutex<Vec<String>> = Mutex::new(Vec::new());
    let note = |what: String| log.lock().unwrap().push(what);
    let persist = |state: &PersistedStateV1| {
        note(format!("persist {}", state.runtime_overrides.len()));
        Ok(())
    };
    let maps = &bench.maps;
    let done = reconcile_managed_overrides(
        &mut bench.store,
        || maps.collect_policy_keys(),
        || maps.collect_counters(),
        &bench.tenancy,
        &settings(),
        &mut bench.managed,
        |count: usize| -> VecDeque<_> {
            (0..count)
                .map(|_| ReleaseAccess {
                    persist: &persist,
                    delete: |key: TenantKey| {
                        note(format!("delete {}", key.cgroup_id));
                        Ok(())
                    },
                })
                .collect()
        },
        |count: usize| -> VecDeque<_> {
            (0..count)
                .map(|_| ClaimAccess {
                    persist: &persist,
                    upsert: |key: TenantKey, _: Policy| {
                        note(format!("upsert {}", key.cgroup_id));
                        Ok(())
                    },
                })
                .collect()
        },
    );
    assert!(done.is_ok());
    assert_eq!(
        *log.lock().unwrap(),
        vec!["persist 0", "delete 3", "persist 1", "upsert 1", "persist 2", "upsert 2"]
    );
    assert_eq!(bench.store.revision(), 4);
}
