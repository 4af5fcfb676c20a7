//! Bringing the kernel maps in line with the desired state.

use std::cell::RefCell;
use std::collections::BTreeMap;
use std::sync::{Arc, Mutex};

use vantage::common::{Counters, GlobalConfig, GlobalStats, Policy, TenantKey};
use vantage::map_client::{MapClient, MapError, MapOps};
use vantage::metrics::MetricsState;
use vantage::reconcile::{
    carry_out, plan_policy_map, reconcile_policy_map, runtime_policies, should_reconcile_tick,
    PolicyMapAccess, ReconcileError, ReconcilePlan, ReconcileSchedule, SwitchAccess, TickAction,
};
use vantage::state_store::{
    PersistedStateV1, RuntimeOverrideRecord, RuntimeOwner, StateStore, StateStoreDefaults,
    StateStoreError,
};
use vantage::table::KeyedTable;

/// Kernel maps kept in memory; `broken` names the one operation that fails.
struct MemoryMaps {
    base: Mutex<BTreeMap<TenantKey, Policy>>,
    runtime: Mutex<BTreeMap<TenantKey, Policy>>,
    switches: Mutex<GlobalConfig>,
    broken: Mutex<&'static str>,
    log: Mutex<Vec<String>>,
}

impl MemoryMaps {
    fn new() -> Arc<Self> {
        Arc::new(MemoryMaps {
            base: Mutex::new(BTreeMap::new()),
            runtime: Mutex::new(BTreeMap::new()),
            switches: Mutex::new(GlobalConfig {
                enabled: 0,
                flow_keys_live: 0,
                _pad: [0; 6],
            }),
            broken: Mutex::new(""),
            log: Mutex::new(Vec::new()),
        })
    }

    fn run(&self, operation: &'static str) -> Result<(), MapError> {
        self.log.lock().unwrap().push(operation.to_owned());
        if *self.broken.lock().unwrap() == operation {
            return Err(MapError::Operation(operation.to_owned()));
        }
        Ok(())
    }
}

impl MapOps for MemoryMaps {
    fn upsert_policy(&self, tenant: TenantKey, policy: Policy) -> Result<(), MapError> {
        self.run("upsert_policy")?;
        self.base.lock().unwrap().insert(tenant, policy);
        Ok(())
    }

    fn delete_policy(&self, tenant: TenantKey) -> Result<(), MapError> {
        self.run("delete_policy")?;
        self.base.lock().unwrap().remove(&tenant);
        Ok(())
    }

    fn get_policy(&self, tenant: TenantKey) -> Result<Option<Policy>, MapError> {
        self.run("get_policy")?;
        Ok(self.base.lock().unwrap().get(&tenant).copied())
    }

    fn upsert_runtime_policy(&self, tenant: TenantKey, policy: Policy) -> Result<(), MapError> {
        self.run("upsert_runtime_policy")?;
        self.runtime.lock().unwrap().insert(tenant, policy);
        Ok(())
    }

    fn delete_runtime_policy(&self, tenant: TenantKey) -> Result<(), MapError> {
        self.run("delete_runtime_policy")?;
        self.runtime.lock().unwrap().remove(&tenant);
        Ok(())
    }

    fn get_runtime_policy(&self, tenant: TenantKey) -> Result<Option<Policy>, MapError> {
        self.run("get_runtime_policy")?;
        Ok(self.runtime.lock().unwrap().get(&tenant).copied())
    }

    fn collect_policy_keys(&self) -> Result<Vec<TenantKey>, MapError> {
        self.run("collect_policy_keys")?;
        Ok(self.base.lock().unwrap().keys().copied().collect())
    }

    fn collect_runtime_policy_keys(&self) -> Result<Vec<TenantKey>, MapError> {
        self.run("collect_runtime_policy_keys")?;
        Ok(self.runtime.lock().unwrap().keys().copied().collect())
    }

    fn collect_counters(&self) -> Result<Vec<(TenantKey, Counters)>, MapError> {
        Ok(Vec::new())
    }

    fn read_global_stats(&self) -> Result<GlobalStats, MapError> {
        Err(MapError::LockPoisoned)
    }

    fn seed_global_config(&self, config: GlobalConfig) -> Result<(), MapError> {
        self.run("seed_global_config")?;
        *self.switches.lock().unwrap() = config;
        Ok(())
    }

    fn set_global_enabled(&self, enabled: bool) -> Result<(), MapError> {
        self.switches.lock().unwrap().enabled = u8::from(enabled);
        Ok(())
    }

    fn get_global_enabled(&self) -> Result<bool, MapError> {
        self.run("get_global_enabled")?;
        Ok(self.switches.lock().unwrap().enabled != 0)
    }

    fn set_flow_keys_live(&self, flow_keys_live: bool) -> Result<(), MapError> {
        self.switches.lock().unwrap().flow_keys_live = u8::from(flow_keys_live);
        Ok(())
    }

    fn get_flow_keys_live(&self) -> Result<bool, MapError> {
        self.run("get_flow_keys_live")?;
        Ok(self.switches.lock().unwrap().flow_keys_live != 0)
    }
}

fn tenant(cgroup_id: u64) -> TenantKey {
    TenantKey {
        cgroup_id,
        http_path_hash: 0,
        dst_port: 0,
        proto: 0,
        http_method: 0,
    }
}

fn accept(_: &PersistedStateV1) -> Result<(), StateStoreError> {
    Ok(())
}

fn empty_store() -> StateStore {
    let store = StateStore::load_or_init(|| Ok(None), &accept, &StateStoreDefaults::default());
    let Ok(store) = store else {
        panic!("store should initialize");
    };
    store
}

#[test]
fn reconcile_policy_map_updates_only_missing_stale_and_extra_entries() {
    let key_missing = TenantKey {
        cgroup_id: 1,
        http_path_hash: 0,
        dst_port: 0,
        proto: 0,
        http_method: 0,
    };
    let key_stale = TenantKey {
        cgroup_id: 2,
        http_path_hash: 0,
        dst_port: 0,
        proto: 0,
        http_method: 0,
    };
    let key_same = TenantKey {
        cgroup_id: 3,
        http_path_hash: 0,
        dst_port: 0,
        proto: 0,
        http_method: 0,
    };
    let key_extra = TenantKey {
        cgroup_id: 4,
        http_path_hash: 0,
        dst_port: 0,
        proto: 0,
        http_method: 0,
    };
    let desired_policy = Policy {
        rate_tokens_per_sec: 10,
        burst_tokens: 10,
        enabled: 1,
        _pad: [0; 7],
    };
    let stale_policy = Policy {
        rate_tokens_per_sec: 1,
        burst_tokens: 1,
        enabled: 1,
        _pad: [0; 7],
    };

    let mut desired = KeyedTable::new();
    desired.insert(key_missing, desired_policy);
    desired.insert(key_stale, desired_policy);
    desired.insert(key_same, desired_policy);

    let current = RefCell::new(BTreeMap::from([
        (key_stale, stale_policy),
        (key_same, desired_policy),
        (key_extra, desired_policy),
    ]));
    let upserts: RefCell<Vec<TenantKey>> = RefCell::new(Vec::new());
    let deletes: RefCell<Vec<TenantKey>> = RefCell::new(Vec::new());

    let reconciled = reconcile_policy_map(
        &desired,
        &[key_stale, key_same, key_extra],
        &|tenant: TenantKey| Ok(current.borrow().get(&tenant).copied()),
        |entries: &[(TenantKey, Policy)]| {
            for (tenant, policy) in entries.iter().copied() {
                current.borrow_mut().insert(tenant, policy);
                upserts.borrow_mut().push(tenant);
            }
            Ok(())
        },
        |tenants: &[TenantKey]| {
            for tenant in tenants.iter().copied() {
                let _ = current.borrow_mut().remove(&tenant);
                deletes.borrow_mut().push(tenant);
            }
            Ok(())
        },
    );
    assert!(
        reconciled.is_ok(),
        "reconcile should apply diff successfully"
    );

    let upserts = upserts.into_inner();
    assert_eq!(upserts.len(), 2);
    assert!(upserts.contains(&key_missing));
    assert!(upserts.contains(&key_stale));
    assert!(!upserts.contains(&key_same));

    let deletes = deletes.into_inner();
    assert_eq!(deletes, vec![key_extra]);
}

#[test]
fn should_reconcile_tick_when_revision_changes() {
    assert!(should_reconcile_tick(5, 4, 1, 30));
}

#[test]
fn should_reconcile_tick_on_deep_check_interval_without_revision_change() {
    assert!(should_reconcile_tick(7, 7, 30, 30));
}

#[test]
fn should_skip_tick_when_revision_unchanged_and_not_deep_check() {
    assert!(!should_reconcile_tick(9, 9, 29, 30));
}

#[test]
fn a_map_in_line_needs_nothing() {
    let mut desired = KeyedTable::new();
    desired.insert(tenant(1), Policy::plain(1, 1, true));
    let plan = plan_policy_map(&desired, &[tenant(1)], &|_: TenantKey| {
        Ok(Some(Policy::plain(1, 1, true)))
    });
    let Ok(plan) = plan else {
        panic!("planning should succeed");
    };
    assert!(plan.to_upsert.is_empty());
    assert!(plan.to_delete.is_empty());
    let done = carry_out(
        &plan,
        |_: &[(TenantKey, Policy)]| panic!("there is nothing to write"),
        |_: &[TenantKey]| panic!("there is nothing to delete"),
    );
    assert!(done.is_ok());
}

#[test]
fn nothing_is_deleted_after_a_failed_write() {
    let plan = ReconcilePlan {
        to_upsert: vec![(tenant(1), Policy::plain(1, 1, true))],
        to_delete: vec![tenant(2)],
    };
    let failed = carry_out(
        &plan,
        |_: &[(TenantKey, Policy)]| Err(MapError::LockPoisoned),
        |_: &[TenantKey]| panic!("deleting comes after writing"),
    );
    assert!(matches!(failed, Err(MapError::LockPoisoned)));
}

#[test]
fn entries_are_read_in_ascending_order() {
    let mut desired = KeyedTable::new();
    for id in [5, 1, 3] {
        desired.insert(tenant(id), Policy::plain(id, id, true));
    }
    let read = RefCell::new(Vec::new());
    let failed = plan_policy_map(
        &desired,
        &[tenant(5), tenant(3), tenant(2), tenant(3), tenant(1)],
        &|key: TenantKey| {
            read.borrow_mut().push(key);
            if key == tenant(3) {
                Err(MapError::LockPoisoned)
            } else {
                Ok(None)
            }
        },
    );
    assert!(matches!(failed, Err(MapError::LockPoisoned)));
    assert_eq!(*read.borrow(), vec![tenant(1), tenant(3)]);
}

#[test]
fn an_entry_that_vanished_is_written_again() {
    let mut desired = KeyedTable::new();
    desired.insert(tenant(1), Policy::plain(1, 1, true));
    let plan = plan_policy_map(&desired, &[tenant(1)], &|_: TenantKey| Ok(None));
    let Ok(plan) = plan else {
        panic!("planning should succeed");
    };
    assert_eq!(plan.to_upsert, vec![(tenant(1), Policy::plain(1, 1, true))]);
    let failed = plan_policy_map(&desired, &[tenant(1)], &|_: TenantKey| {
        Err(MapError::LockPoisoned)
    });
    assert!(matches!(failed, Err(MapError::LockPoisoned)));
}

fn store_with_entries() -> StateStore {
    let mut store = empty_store();
    assert!(store.set_global_enabled(true, &accept).is_ok());
    assert!(store
        .upsert_base_policy(tenant(1), Policy::plain(10, 20, true), &accept)
        .is_ok());
    assert!(store
        .upsert_manual_runtime_override(tenant(2), Policy::plain(1, 2, true), &accept)
        .is_ok());
    store
}

fn reconcile_once(
    store: &StateStore,
    maps: &MapClient<MemoryMaps>,
) -> Result<u64, ReconcileError> {
    vantage::reconcile::reconcile_once(
        store,
        SwitchAccess {
            enabled: || maps.get_global_enabled(),
            flow_keys_live: || maps.get_flow_keys_live(),
            seed: |config: GlobalConfig| maps.seed_global_config(config),
        },
        PolicyMapAccess {
            list: || maps.collect_policy_keys(),
            get: |key: TenantKey| maps.get_policy(key),
            upsert: |entries: &[(TenantKey, Policy)]| maps.upsert_policies_batch(entries),
            delete: |keys: &[TenantKey]| maps.delete_policies_batch(keys),
        },
        PolicyMapAccess {
            list: || maps.collect_runtime_policy_keys(),
            get: |key: TenantKey| maps.get_runtime_policy(key),
            upsert: |entries: &[(TenantKey, Policy)]| maps.upsert_runtime_policies_batch(entries),
            delete: |keys: &[TenantKey]| maps.delete_runtime_policies_batch(keys),
        },
    )
}

#[test]
fn reconciling_makes_two_batches() {
    let policy = Policy::plain(10, 10, true);
    let stale = Policy::plain(1, 1, true);
    let mut desired = KeyedTable::new();
    for id in 1..=3 {
        desired.insert(tenant(id), policy);
    }
    let calls: RefCell<Vec<String>> = RefCell::new(Vec::new());
    let reconciled = reconcile_policy_map(
        &desired,
        &[tenant(2), tenant(3), tenant(4)],
        &|key: TenantKey| Ok(Some(if key == tenant(2) { stale } else { policy })),
        |entries: &[(TenantKey, Policy)]| {
            assert_eq!(entries, &[(tenant(1), policy), (tenant(2), policy)][..]);
            calls.borrow_mut().push("upsert".to_owned());
            Ok(())
        },
        |keys: &[TenantKey]| {
            assert_eq!(keys, &[tenant(4)][..]);
            calls.borrow_mut().push("delete".to_owned());
            Ok(())
        },
    );
    assert!(reconciled.is_ok());
    assert_eq!(*calls.borrow(), vec!["upsert".to_owned(), "delete".to_owned()]);
}

#[test]
fn reconciling_brings_the_maps_in_line() {
    let ops = MemoryMaps::new();
    ops.base.lock().unwrap().insert(tenant(9), Policy::plain(9, 9, true));
    let maps = MapClient::new(Arc::clone(&ops));
    let store = store_with_entries();
    assert!(matches!(reconcile_once(&store, &maps), Ok(3)));
    assert_eq!(
        *ops.base.lock().unwrap(),
        BTreeMap::from([(tenant(1), Policy::plain(10, 20, true))])
    );
    assert_eq!(
        *ops.runtime.lock().unwrap(),
        BTreeMap::from([(tenant(2), Policy::plain(1, 2, true))])
    );
    assert_eq!(ops.switches.lock().unwrap().enabled, 1);
    assert_eq!(ops.switches.lock().unwrap().flow_keys_live, 0);

    ops.log.lock().unwrap().clear();
    assert!(matches!(reconcile_once(&store, &maps), Ok(3)));
    assert_eq!(
        *ops.log.lock().unwrap(),
        vec![
            "get_global_enabled",
            "get_flow_keys_live",
            "collect_policy_keys",
            "get_policy",
            "collect_runtime_policy_keys",
            "get_runtime_policy",
        ]
    );
}

#[test]
fn a_failed_reconcile_says_where() {
    let context_of = |broken: &'static str| {
        let ops = MemoryMaps::new();
        ops.base.lock().unwrap().insert(tenant(9), Policy::plain(9, 9, true));
        *ops.broken.lock().unwrap() = broken;
        let failed = reconcile_once(&store_with_entries(), &MapClient::new(ops));
        let Err(ReconcileError { context, source }) = failed else {
            panic!("reconcile should fail");
        };
        assert!(matches!(source, MapError::Operation(reason) if reason == broken));
        context
    };
    assert_eq!(
        context_of("get_global_enabled"),
        "failed to read GLOBAL_CONFIG_MAP enabled state for reconcile"
    );
    assert_eq!(
        context_of("get_flow_keys_live"),
        "failed to read GLOBAL_CONFIG_MAP flow-keys state for reconcile"
    );
    assert_eq!(
        context_of("seed_global_config"),
        "failed to reconcile GLOBAL_CONFIG_MAP from persisted state"
    );
    assert_eq!(
        context_of("collect_policy_keys"),
        "failed to collect base policy keys for reconcile"
    );
    assert_eq!(
        context_of("upsert_policy"),
        "failed to reconcile POLICY_MAP from persisted state"
    );
    assert_eq!(
        context_of("delete_policy"),
        "failed to reconcile POLICY_MAP from persisted state"
    );
    assert_eq!(
        context_of("collect_runtime_policy_keys"),
        "failed to collect runtime policy keys for reconcile"
    );
    assert_eq!(
        context_of("upsert_runtime_policy"),
        "failed to reconcile RUNTIME_POLICY_MAP from persisted state"
    );
}

#[test]
fn overrides_put_their_policies_in_force() {
    let mut overrides = KeyedTable::new();
    for (id, owner) in [(2, RuntimeOwner::Manual), (1, RuntimeOwner::Adaptive)] {
        let policy = Policy::plain(id, id, true);
        overrides.insert(tenant(id), RuntimeOverrideRecord { policy, owner });
    }
    let policies = runtime_policies(&overrides);
    assert_eq!(
        policies.rows(),
        &[
            (tenant(1), Policy::plain(1, 1, true)),
            (tenant(2), Policy::plain(2, 2, true)),
        ][..]
    );
}

#[test]
fn a_period_of_zero_is_due_at_zero_alone() {
    assert!(should_reconcile_tick(1, 1, 0, 0));
    assert!(!should_reconcile_tick(1, 1, 1, 0));
}

#[test]
fn the_schedule_retries_after_a_failure() {
    let mut schedule = ReconcileSchedule::new(4, 0, 0);
    assert_eq!((schedule.tick_ms, schedule.deep_check_every), (100, 1));
    schedule = ReconcileSchedule::new(4, 2_000, 3);
    assert_eq!(schedule.on_tick(4), TickAction::Wait);
    assert_eq!(
        schedule.on_tick(5),
        TickAction::Reconcile {
            tick_index: 2,
            deep_check_due: false
        }
    );
    let mut metrics = MetricsState::new();
    let failed = Err(ReconcileError {
        context: "failed",
        source: MapError::LockPoisoned,
    });
    schedule.on_reconciled(&failed, &mut metrics);
    assert_eq!(metrics.reconcile_failures_total, 1);
    assert_eq!(
        schedule.on_tick(5),
        TickAction::Reconcile {
            tick_index: 3,
            deep_check_due: true
        }
    );
    schedule.on_reconciled(&Ok(5), &mut metrics);
    assert_eq!(metrics.reconcile_failures_total, 1);
    assert_eq!(schedule.on_tick(5), TickAction::Wait);
    schedule.tick_index = u64::MAX;
    assert!(matches!(
        schedule.on_tick(5),
        TickAction::Reconcile {
            tick_index: u64::MAX,
            ..
        }
    ));
}

#[test]
fn an_unchanged_state_is_checked_in_every_period() {
    for period in 1..=5_u64 {
        for first in 0..12_u64 {
            let due = (first..first + period).filter(|&tick| should_reconcile_tick(3, 3, tick, period));
            assert_eq!(due.count(), 1);
        }
    }
}
