//! The control interface over maps and a state file kept in memory.

use std::collections::{BTreeMap, BTreeSet};
use std::sync::{Arc, Mutex};

use vantage::adaptive::AdaptiveRuntimeState;
use vantage::common::{
    ChainReads, Counters, GlobalConfig, GlobalStats, Policy, PolicyMatchLevel, ReasonBuckets,
    TenantKey,
};
use vantage::config::{Cli, Config, MetricsDimensions, PolicyValidationMode};
use vantage::control_api::{
    build_top_tenants, debug_snapshot, get_admin_enabled, metrics, partial_l7_policy_key,
    policy_precedence_contract, policy_scope_from_key, put_tenant_essential, tenant_essential,
    ApiError, DeleteAccess, FlowSelectors, PolicyDeleteResponse, PolicyUpsertResponse, PutAccess,
    PutPolicyRequest, ResolvePolicyResponse, PARTIAL_L7_POLICY_WARNING,
};
use vantage::map_client::{MapClient, MapError, MapOps, PolicySource};
use vantage::metrics::{CpuWindowSample, MetricsError, MetricsState};
use vantage::state_store::{PersistedStateV1, StateStore, StateStoreDefaults, StateStoreError};
use vantage::tenancy::TenancyState;
use vantage::tenant::compute_http_path_hash;

struct InMemoryMapOps {
    policies: Mutex<BTreeMap<TenantKey, Policy>>,
    runtime_policies: Mutex<BTreeMap<TenantKey, Policy>>,
    counters: Vec<(TenantKey, Counters)>,
    global_stats: GlobalStats,
    global_enabled: Mutex<bool>,
    flow_keys_live: Mutex<bool>,
    refuse_writes: bool,
}

impl InMemoryMapOps {
    fn new() -> Self {
        Self {
            policies: Mutex::new(BTreeMap::new()),
            runtime_policies: Mutex::new(BTreeMap::new()),
            counters: Vec::new(),
            global_stats: Self::default_global_stats(),
            global_enabled: Mutex::new(true),
            flow_keys_live: Mutex::new(true),
            refuse_writes: false,
        }
    }

    fn refusing() -> Self {
        Self {
            refuse_writes: true,
            ..Self::new()
        }
    }

    fn default_global_stats() -> GlobalStats {
        GlobalStats {
            pass_pkts: 0,
            drop_pkts: 0,
            pass_bytes: 0,
            drop_bytes: 0,
            reasons: ReasonBuckets {
                no_tokens: 0,
                no_policy: 0,
                parse_fail: 0,
            },
        }
    }

    fn write(&self) -> Result<(), MapError> {
        if self.refuse_writes {
            return Err(MapError::MissingMap("POLICY_MAP"));
        }
        Ok(())
    }
}

impl MapOps for InMemoryMapOps {
    fn upsert_policy(&self, tenant: TenantKey, policy: Policy) -> Result<(), MapError> {
        self.write()?;
        self.policies.lock().unwrap().insert(tenant, policy);
        Ok(())
    }

    fn delete_policy(&self, tenant: TenantKey) -> Result<(), MapError> {
        self.write()?;
        self.policies.lock().unwrap().remove(&tenant);
        Ok(())
    }

    fn get_policy(&self, tenant: TenantKey) -> Result<Option<Policy>, MapError> {
        Ok(self.policies.lock().unwrap().get(&tenant).copied())
    }

    fn upsert_runtime_policy(&self, tenant: TenantKey, policy: Policy) -> Result<(), MapError> {
        self.write()?;
        self.runtime_policies.lock().unwrap().insert(tenant, policy);
        Ok(())
    }

    fn delete_runtime_policy(&self, tenant: TenantKey) -> Result<(), MapError> {
        self.write()?;
        self.runtime_policies.lock().unwrap().remove(&tenant);
        Ok(())
    }

    fn get_runtime_policy(&self, tenant: TenantKey) -> Result<Option<Policy>, MapError> {
        Ok(self.runtime_policies.lock().unwrap().get(&tenant).copied())
    }

    fn collect_policy_keys(&self) -> Result<Vec<TenantKey>, MapError> {
        Ok(self.policies.lock().unwrap().keys().copied().collect())
    }

    fn collect_runtime_policy_keys(&self) -> Result<Vec<TenantKey>, MapError> {
        Ok(self.runtime_policies.lock().unwrap().keys().copied().collect())
    }

    fn collect_counters(&self) -> Result<Vec<(TenantKey, Counters)>, MapError> {
        Ok(self.counters.clone())
    }

    fn read_global_stats(&self) -> Result<GlobalStats, MapError> {
        Ok(self.global_stats)
    }

    fn seed_global_config(&self, config: GlobalConfig) -> Result<(), MapError> {
        *self.global_enabled.lock().unwrap() = config.enabled != 0;
        *self.flow_keys_live.lock().unwrap() = config.flow_keys_live != 0;
        Ok(())
    }

    fn set_global_enabled(&self, enabled: bool) -> Result<(), MapError> {
        self.write()?;
        *self.global_enabled.lock().unwrap() = enabled;
        Ok(())
    }

    fn get_global_enabled(&self) -> Result<bool, MapError> {
        Ok(*self.global_enabled.lock().unwrap())
    }

    fn set_flow_keys_live(&self, flow_keys_live: bool) -> Result<(), MapError> {
        *self.flow_keys_live.lock().unwrap() = flow_keys_live;
        Ok(())
    }

    fn get_flow_keys_live(&self) -> Result<bool, MapError> {
        Ok(*self.flow_keys_live.lock().unwrap())
    }
}

struct Bench {
    ops: Arc<InMemoryMapOps>,
    maps: MapClient<InMemoryMapOps>,
    metrics: MetricsState,
    store: StateStore,
    tenancy: TenancyState,
    mode: PolicyValidationMode,
}

fn accept(_: &PersistedStateV1) -> Result<(), StateStoreError> {
    Ok(())
}

fn disk_full() -> StateStoreError {
    StateStoreError::WriteFile {
        path: "state.json".to_owned(),
        source: "disk full".to_owned(),
    }
}

fn bench_over(ops: InMemoryMapOps) -> Bench {
    let ops = Arc::new(ops);
    let defaults = StateStoreDefaults {
        global_enabled: false,
        flow_keys_live: false,
        essential_tenants: BTreeSet::new(),
    };
    let loaded = StateStore::load_or_init(|| Ok(None), &accept, &defaults);
    let Ok(store) = loaded else {
        panic!("state store should initialize for tests");
    };
    Bench {
        maps: MapClient::new(Arc::clone(&ops)),
        ops,
        metrics: MetricsState::new(),
        store,
        tenancy: TenancyState::default(),
        mode: PolicyValidationMode::Permissive,
    }
}

fn put_policy<P: Fn(&PersistedStateV1) -> Result<(), StateStoreError>>(
    tenant: &str,
    request: &PutPolicyRequest,
    mode: PolicyValidationMode,
    metrics: &mut MetricsState,
    store: &mut StateStore,
    maps: &MapClient<InMemoryMapOps>,
    persist: &P,
) -> Result<PolicyUpsertResponse, ApiError> {
    vantage::control_api::put_policy(
        tenant,
        request,
        mode,
        metrics,
        store,
        PutAccess {
            persist,
            apply: |key: TenantKey, policy: Policy| maps.upsert_policy(key, policy),
            restore: persist,
            get_runtime: ChainReads::each(|key: TenantKey| maps.get_runtime_policy(key)),
            get_base: ChainReads::each(|key: TenantKey| maps.get_policy(key)),
        },
    )
}

fn delete_policy<P: Fn(&PersistedStateV1) -> Result<(), StateStoreError>>(
    tenant: &str,
    selectors: &FlowSelectors,
    store: &mut StateStore,
    maps: &MapClient<InMemoryMapOps>,
    persist: &P,
) -> Result<PolicyDeleteResponse, ApiError> {
    vantage::control_api::delete_policy(
        tenant,
        selectors,
        store,
        DeleteAccess {
            present: |key: TenantKey| maps.get_policy(key),
            persist,
            delete: |key: TenantKey| maps.delete_policy(key),
            restore: persist,
            get_runtime: ChainReads::each(|key: TenantKey| maps.get_runtime_policy(key)),
            get_base: ChainReads::each(|key: TenantKey| maps.get_policy(key)),
        },
    )
}

fn resolve_policy(
    tenant: &str,
    selectors: &FlowSelectors,
    maps: &MapClient<InMemoryMapOps>,
) -> Result<ResolvePolicyResponse, ApiError> {
    vantage::control_api::resolve_policy(
        tenant,
        selectors,
        ChainReads::each(|key: TenantKey| maps.get_runtime_policy(key)),
        ChainReads::each(|key: TenantKey| maps.get_policy(key)),
    )
}

fn put_admin_enabled<P: Fn(&PersistedStateV1) -> Result<(), StateStoreError>>(
    enabled: bool,
    store: &mut StateStore,
    maps: &MapClient<InMemoryMapOps>,
    persist: &P,
) -> Result<(), ApiError> {
    vantage::control_api::put_admin_enabled(
        enabled,
        store,
        persist,
        |enabled: bool| maps.set_global_enabled(enabled),
        persist,
    )
}

fn bench() -> Bench {
    bench_over(InMemoryMapOps::new())
}

impl Bench {
    fn put(
        &mut self,
        tenant: &str,
        selectors: FlowSelectors,
    ) -> Result<PolicyUpsertResponse, ApiError> {
        let request = PutPolicyRequest {
            rate_tokens_per_sec: 100,
            burst_tokens: 50,
            enabled: true,
            selectors,
        };
        put_policy(
            tenant,
            &request,
            self.mode,
            &mut self.metrics,
            &mut self.store,
            &self.maps,
            &accept,
        )
    }
}

fn flow(proto: &str, dst_port: u16) -> FlowSelectors {
    FlowSelectors {
        proto: Some(proto.to_owned()),
        dst_port: Some(dst_port),
        ..FlowSelectors::default()
    }
}

fn assert_bad_request<T>(result: Result<T, ApiError>) -> String {
    match result {
        Ok(_) => panic!("request should be refused"),
        Err(error) => {
            assert_eq!(error.status(), 400);
            error.body()
        }
    }
}

#[test]
fn put_policy_returns_ok_with_resolution_payload() {
    let mut bench = bench();
    let payload = bench.put("42", FlowSelectors::default()).unwrap();
    assert_eq!(payload.precedence, policy_precedence_contract());
    assert_eq!(payload.scope, PolicyMatchLevel::FullWildcard);
    assert_eq!(payload.effective_for_stored.match_level, PolicyMatchLevel::Exact);
    assert_eq!(
        payload.stored_selector.normalized,
        "cgroup=42|proto=*|dport=*|method=*|path_hash=*"
    );
    assert_eq!(payload.stored_selector.http_path_hash, None);
    assert!(payload.warnings.is_empty());
}

#[test]
fn put_policy_accepts_canonical_cgroup_tenant() {
    let mut bench = bench();
    assert!(bench.put("cg:167838211", FlowSelectors::default()).is_ok());
}

#[test]
fn put_policy_accepts_bare_cgroup_id_tenant() {
    let mut bench = bench();
    assert!(bench.put("167838211", FlowSelectors::default()).is_ok());
}

#[test]
fn put_policy_accepts_legacy_u32_tenant() {
    let mut bench = bench();
    assert!(bench.put("167838211", FlowSelectors::default()).is_ok());
}

#[test]
fn put_policy_accepts_flow_fields() {
    let mut bench = bench();
    assert!(bench.put("cg:167838211", flow("tcp", 443)).is_ok());
    let tenant = TenantKey {
        cgroup_id: 167_838_211,
        http_path_hash: 0,
        dst_port: 443,
        proto: 6,
        http_method: 0,
    };
    assert!(
        bench.ops.policies.lock().unwrap().contains_key(&tenant),
        "flow-specific key should be written"
    );
}

#[test]
fn put_policy_accepts_http_path_and_stores_hash_only() {
    let mut bench = bench();
    let selectors = FlowSelectors {
        http_path: Some("/predict".to_owned()),
        ..flow("tcp", 443)
    };
    let payload = bench.put("cg:167838211", selectors).unwrap();
    assert_eq!(
        payload.stored_selector.http_path_hash,
        Some(compute_http_path_hash("/predict"))
    );
    assert_eq!(
        payload.stored_selector.http_path_hash_hex,
        Some(format!("{:#010x}", compute_http_path_hash("/predict")))
    );
    assert_eq!(payload.stored_selector.http_method, "*");
    let tenant = TenantKey {
        cgroup_id: 167_838_211,
        http_path_hash: compute_http_path_hash("/predict"),
        dst_port: 443,
        proto: 6,
        http_method: 0,
    };
    assert!(
        bench.ops.policies.lock().unwrap().contains_key(&tenant),
        "policy key should store only numeric hash selector"
    );
}

#[test]
fn put_policy_accepts_http_method_and_path_selectors() {
    let mut bench = bench();
    let selectors = FlowSelectors {
        http_method: Some("post".to_owned()),
        http_path: Some("/predict".to_owned()),
        ..flow("tcp", 443)
    };
    let payload = bench.put("cg:167838211", selectors).unwrap();
    assert_eq!(
        payload.stored_selector.http_path_hash,
        Some(compute_http_path_hash("/predict"))
    );
    assert_eq!(
        payload.stored_selector.http_path_hash_hex,
        Some(format!("{:#010x}", compute_http_path_hash("/predict")))
    );
    assert_eq!(payload.stored_selector.http_method, "post");
    let tenant = TenantKey {
        cgroup_id: 167_838_211,
        http_path_hash: compute_http_path_hash("/predict"),
        dst_port: 443,
        proto: 6,
        http_method: 2,
    };
    assert!(
        bench.ops.policies.lock().unwrap().contains_key(&tenant),
        "policy key should include normalized http method and path hash selectors"
    );
}

#[test]
fn put_policy_response_reports_runtime_override_as_effective() {
    let mut bench = bench();
    let tenant = TenantKey {
        cgroup_id: 167_838_211,
        http_path_hash: 0,
        dst_port: 0,
        proto: 0,
        http_method: 0,
    };
    bench.ops.runtime_policies.lock().unwrap().insert(
        tenant,
        Policy {
            rate_tokens_per_sec: 10,
            burst_tokens: 5,
            enabled: 1,
            _pad: [0; 7],
        },
    );
    let payload = bench.put("cg:167838211", FlowSelectors::default()).unwrap();
    assert_eq!(payload.effective_for_stored.source, PolicySource::RuntimeOverride);
    assert_eq!(payload.effective_for_stored.policy.rate_tokens_per_sec, 10);
}

#[test]
fn put_policy_warns_on_partial_l7_in_permissive_mode() {
    let mut bench = bench();
    let selectors = FlowSelectors {
        http_path: Some("/predict".to_owned()),
        ..FlowSelectors::default()
    };
    let payload = bench.put("cg:167838211", selectors).unwrap();
    assert_eq!(payload.warnings, vec![PARTIAL_L7_POLICY_WARNING]);
    assert_eq!(bench.metrics.partial_l7_policy_keys_total, 1);
}

#[test]
fn put_policy_rejects_partial_l7_in_strict_mode() {
    let mut bench = bench();
    bench.mode = PolicyValidationMode::Strict;
    let selectors = FlowSelectors {
        http_path: Some("/predict".to_owned()),
        ..FlowSelectors::default()
    };
    let text = assert_bad_request(bench.put("cg:167838211", selectors));
    assert!(text.contains("http selectors require both proto and dst_port"));
    assert_eq!(bench.metrics.partial_l7_policy_keys_total, 1);
    assert_eq!(bench.store.revision(), 0);
}

#[test]
fn put_policy_rejects_mismatched_http_path_and_hash() {
    let mut bench = bench();
    let selectors = FlowSelectors {
        http_path: Some("/predict".to_owned()),
        http_path_hash: Some(1),
        ..flow("tcp", 443)
    };
    let text = assert_bad_request(bench.put("cg:167838211", selectors));
    assert_eq!(text, "http_path and http_path_hash mismatch");
}

#[test]
fn put_policy_rejects_invalid_http_method() {
    let mut bench = bench();
    let selectors = FlowSelectors {
        http_method: Some("trace".to_owned()),
        ..flow("tcp", 443)
    };
    let text = assert_bad_request(bench.put("cg:167838211", selectors));
    assert_eq!(text, "invalid http_method, expected get|post");
}

#[test]
fn put_policy_rejects_proto_without_dst_port() {
    let mut bench = bench();
    let selectors = FlowSelectors {
        proto: Some("udp".to_owned()),
        ..FlowSelectors::default()
    };
    let text = assert_bad_request(bench.put("cg:167838211", selectors));
    assert_eq!(text, "dst_port is required when proto is set");
}

#[test]
fn put_policy_rejects_dst_port_without_proto() {
    let mut bench = bench();
    let selectors = FlowSelectors {
        dst_port: Some(53),
        ..FlowSelectors::default()
    };
    let text = assert_bad_request(bench.put("cg:167838211", selectors));
    assert_eq!(text, "proto is required when dst_port is set");
}

#[test]
fn put_policy_rejects_invalid_proto() {
    let mut bench = bench();
    let text = assert_bad_request(bench.put("cg:167838211", flow("icmp", 53)));
    assert_eq!(text, "invalid proto, expected tcp|udp");
}

#[test]
fn put_policy_rejects_invalid_tenant() {
    let mut bench = bench();
    let text = assert_bad_request(bench.put("not-a-tenant", FlowSelectors::default()));
    assert_eq!(text, "invalid tenant key");
}

#[test]
fn the_first_fault_of_a_request_counts() {
    let mut bench = bench();
    let text = assert_bad_request(bench.put("not-a-tenant", flow("icmp", 53)));
    assert_eq!(text, "invalid proto, expected tcp|udp");
    let selectors = FlowSelectors {
        dst_port: Some(53),
        http_method: Some("trace".to_owned()),
        ..FlowSelectors::default()
    };
    let text = assert_bad_request(bench.put("1", selectors));
    assert_eq!(text, "proto is required when dst_port is set");
}

#[test]
fn delete_policy_is_idempotent() {
    let mut bench = bench();
    for _ in 0..2 {
        let deleted = delete_policy(
            "7",
            &FlowSelectors::default(),
            &mut bench.store,
            &bench.maps,
            &accept,
        );
        let Ok(deleted) = deleted else {
            panic!("deletion should succeed");
        };
        assert!(!deleted.deleted);
        assert_eq!(deleted.deleted_key.cgroup_id, 7);
        assert!(deleted.effective_after_delete.is_none());
    }
}

#[test]
fn delete_policy_rejects_invalid_tenant() {
    let mut bench = bench();
    assert_bad_request(delete_policy(
        "not-a-tenant",
        &FlowSelectors::default(),
        &mut bench.store,
        &bench.maps,
        &accept,
    ));
}

#[test]
fn delete_policy_accepts_flow_query_fields() {
    let mut bench = bench();
    assert!(bench.put("cg:167838211", flow("tcp", 443)).is_ok());
    let deleted = delete_policy(
        "cg:167838211",
        &flow("tcp", 443),
        &mut bench.store,
        &bench.maps,
        &accept,
    );
    let Ok(deleted) = deleted else {
        panic!("deletion should succeed");
    };
    assert!(deleted.deleted);
    assert!(
        bench.ops.policies.lock().unwrap().is_empty(),
        "flow-specific key should be deleted"
    );
    assert_eq!(bench.store.snapshot().base_policies.len(), 0);
}

#[test]
fn delete_policy_rejects_proto_without_dst_port() {
    let mut bench = bench();
    let selectors = FlowSelectors {
        proto: Some("udp".to_owned()),
        ..FlowSelectors::default()
    };
    assert_bad_request(delete_policy(
        "cg:167838211",
        &selectors,
        &mut bench.store,
        &bench.maps,
        &accept,
    ));
}

#[test]
fn resolve_policy_returns_effective_match_using_precedence() {
    let mut bench = bench();
    assert!(bench.put("cg:167838211", flow("tcp", 0)).is_ok());
    let resolved = resolve_policy("cg:167838211", &flow("tcp", 443), &bench.maps);
    let Ok(resolved) = resolved else {
        panic!("resolution should succeed");
    };
    let Some(effective) = resolved.effective else {
        panic!("a policy should be in force");
    };
    assert_eq!(effective.match_level, PolicyMatchLevel::PortMethodPathWildcard);
    assert_eq!(effective.matched.dst_port, 0);
    assert_eq!(effective.requested.dst_port, 443);
    assert_eq!(
        effective.requested_flow,
        "cgroup=167838211|proto=tcp|dport=443|method=*|path_hash=*"
    );
    assert_eq!(effective.policy.burst_tokens, 50);
}

#[test]
fn put_admin_enabled_sets_global_flag() {
    let mut bench = bench();
    assert!(put_admin_enabled(false, &mut bench.store, &bench.maps, &accept).is_ok());
    let Ok(enabled) = get_admin_enabled(|| bench.maps.get_global_enabled()) else {
        panic!("flag should be readable");
    };
    assert!(!enabled);
    assert!(!bench.store.snapshot().global_enabled);
}

#[test]
fn a_refused_policy_is_rolled_back() {
    let mut bench = bench_over(InMemoryMapOps::refusing());
    let refused = bench.put("42", FlowSelectors::default());
    let Err(error) = refused else {
        panic!("the map refuses");
    };
    assert_eq!(error.status(), 500);
    assert_eq!(
        error.body(),
        "map operation failed: required map 'POLICY_MAP' is missing"
    );
    assert_eq!(bench.store.snapshot().base_policies.len(), 0);

    let key = TenantKey {
        cgroup_id: 42,
        http_path_hash: 0,
        dst_port: 0,
        proto: 0,
        http_method: 0,
    };
    let earlier = Policy::plain(1, 2, true);
    assert!(bench.store.upsert_base_policy(key, earlier, &accept).is_ok());
    assert!(bench.put("42", FlowSelectors::default()).is_err());
    assert_eq!(bench.store.snapshot().base_policies.get(&key), Some(earlier));

    let kept = delete_policy(
        "42",
        &FlowSelectors::default(),
        &mut bench.store,
        &bench.maps,
        &accept,
    );
    assert!(kept.is_err());
    assert_eq!(bench.store.snapshot().base_policies.get(&key), Some(earlier));
}

#[test]
fn a_refused_switch_is_rolled_back() {
    let mut bench = bench_over(InMemoryMapOps::refusing());
    assert!(put_admin_enabled(true, &mut bench.store, &bench.maps, &accept).is_err());
    assert!(!bench.store.snapshot().global_enabled);
}

#[test]
fn a_policy_that_cannot_be_persisted_reaches_no_map() {
    let mut bench = bench();
    let request = PutPolicyRequest {
        rate_tokens_per_sec: 1,
        burst_tokens: 1,
        enabled: true,
        selectors: FlowSelectors::default(),
    };
    let refused = put_policy(
        "42",
        &request,
        PolicyValidationMode::Permissive,
        &mut bench.metrics,
        &mut bench.store,
        &bench.maps,
        &|_: &PersistedStateV1| Err(disk_full()),
    );
    let Err(error) = refused else {
        panic!("persistence fails");
    };
    assert_eq!(error.status(), 500);
    assert_eq!(
        error.body(),
        "state store operation failed: failed to write state file 'state.json': disk full"
    );
    assert!(bench.ops.policies.lock().unwrap().is_empty());
    assert_eq!(bench.store.snapshot().base_policies.len(), 0);
}

type Found = Result<Option<Policy>, MapError>;

#[test]
fn a_refused_request_touches_nothing() {
    let mut bench = bench();
    let request = PutPolicyRequest {
        rate_tokens_per_sec: 1,
        burst_tokens: 1,
        enabled: true,
        selectors: FlowSelectors {
            http_path: Some("/predict".to_owned()),
            ..FlowSelectors::default()
        },
    };
    let refused = vantage::control_api::put_policy(
        "42",
        &request,
        PolicyValidationMode::Strict,
        &mut bench.metrics,
        &mut bench.store,
        PutAccess {
            persist: |_: &PersistedStateV1| panic!("nothing is persisted"),
            apply: |_: TenantKey, _: Policy| panic!("nothing is written"),
            restore: |_: &PersistedStateV1| panic!("nothing is put back"),
            get_runtime: ChainReads::each(|_: TenantKey| -> Found { panic!("nothing is read") }),
            get_base: ChainReads::each(|_: TenantKey| -> Found { panic!("nothing is read") }),
        },
    );
    assert_bad_request(refused);
    let refused = vantage::control_api::delete_policy(
        "not-a-tenant",
        &FlowSelectors::default(),
        &mut bench.store,
        DeleteAccess {
            present: |_: TenantKey| panic!("nothing is read"),
            persist: |_: &PersistedStateV1| panic!("nothing is persisted"),
            delete: |_: TenantKey| panic!("nothing is deleted"),
            restore: |_: &PersistedStateV1| panic!("nothing is put back"),
            get_runtime: ChainReads::each(|_: TenantKey| -> Found { panic!("nothing is read") }),
            get_base: ChainReads::each(|_: TenantKey| -> Found { panic!("nothing is read") }),
        },
    );
    assert_bad_request(refused);
    assert_eq!(bench.store.revision(), 0);
}

#[test]
fn a_deletion_tells_what_was_there() {
    let mut bench = bench();
    assert!(bench.put("7", FlowSelectors::default()).is_ok());
    assert!(bench.put("7", flow("tcp", 443)).is_ok());
    assert!(bench.put("8", FlowSelectors::default()).is_ok());
    let mut answers = Vec::new();
    for _ in 0..2 {
        let deleted = delete_policy(
            "7",
            &flow("tcp", 443),
            &mut bench.store,
            &bench.maps,
            &accept,
        );
        let Ok(deleted) = deleted else {
            panic!("deletion should succeed");
        };
        let Some(effective) = deleted.effective_after_delete else {
            panic!("the tenant's default is in force");
        };
        assert_eq!(effective.match_level, PolicyMatchLevel::FullWildcard);
        answers.push(deleted.deleted);
    }
    assert_eq!(answers, vec![true, false]);
    let left: Vec<u64> = bench
        .ops
        .policies
        .lock()
        .unwrap()
        .keys()
        .map(|key| key.cgroup_id)
        .collect();
    assert_eq!(left, vec![7, 8]);
    assert_eq!(bench.store.snapshot().base_policies.len(), 2);
}

#[test]
fn a_map_is_written_after_the_state() {
    let mut bench = bench();
    let log: Mutex<Vec<&'static str>> = Mutex::new(Vec::new());
    let note = |what: &'static str| log.lock().unwrap().push(what);
    let request = PutPolicyRequest {
        rate_tokens_per_sec: 1,
        burst_tokens: 1,
        enabled: true,
        selectors: FlowSelectors::default(),
    };
    let refused = vantage::control_api::put_policy(
        "42",
        &request,
        PolicyValidationMode::Strict,
        &mut bench.metrics,
        &mut bench.store,
        PutAccess {
            persist: |state: &PersistedStateV1| {
                note("persist");
                assert_eq!(state.base_policies.len(), 1);
                Ok(())
            },
            apply: |_: TenantKey, _: Policy| {
                note("apply");
                Err(MapError::LockPoisoned)
            },
            restore: |state: &PersistedStateV1| {
                note("restore");
                assert_eq!(state.base_policies.len(), 0);
                Ok(())
            },
            get_runtime: ChainReads::each(|_: TenantKey| -> Found { panic!("a refused policy is not resolved") }),
            get_base: ChainReads::each(|_: TenantKey| -> Found { panic!("a refused policy is not resolved") }),
        },
    );
    assert!(matches!(refused, Err(ApiError::MapOperation(MapError::LockPoisoned))));
    assert_eq!(*log.lock().unwrap(), vec!["persist", "apply", "restore"]);
    assert_eq!(bench.store.revision(), 2);
}

#[test]
fn debug_snapshot_returns_contract_shape_with_bounded_top_tenants() {
    let ops = InMemoryMapOps {
        counters: vec![
            (
                TenantKey {
                    cgroup_id: 167_838_211,
                    http_path_hash: 0,
                    dst_port: 443,
                    proto: 6,
                    http_method: 0,
                },
                Counters {
                    pass_pkts: 10,
                    drop_pkts: 9,
                    pass_bytes: 100,
                    drop_bytes: 90,
                },
            ),
            (
                TenantKey {
                    cgroup_id: 167_838_212,
                    http_path_hash: 0,
                    dst_port: 53,
                    proto: 17,
                    http_method: 0,
                },
                Counters {
                    pass_pkts: 5,
                    drop_pkts: 3,
                    pass_bytes: 50,
                    drop_bytes: 30,
                },
            ),
        ],
        global_stats: GlobalStats {
            pass_pkts: 11,
            drop_pkts: 3,
            pass_bytes: 1_500,
            drop_bytes: 300,
            reasons: ReasonBuckets {
                no_tokens: 2,
                no_policy: 1,
                parse_fail: 4,
            },
        },
        ..InMemoryMapOps::new()
    };
    let bench = bench_over(ops);
    let config = Config::from_cli(Cli::default());
    let cpu = CpuWindowSample {
        window_ms: 1,
        system_cpu_basis_points: 1_234,
        daemon_cpu_basis_points: 56,
    };
    let snapshot = debug_snapshot(
        1_700_000_000_000,
        cpu,
        4_321,
        AdaptiveRuntimeState::default().snapshot(),
        &config.adaptive,
        1,
        || bench.maps.read_global_stats(),
        || bench.maps.collect_counters(),
    );
    let Ok(snapshot) = snapshot else {
        panic!("snapshot should succeed");
    };
    assert_eq!(snapshot.version, 3);
    assert_eq!(snapshot.ts_unix_ms, 1_700_000_000_000);
    assert_eq!(snapshot.cpu, cpu);
    assert_eq!(snapshot.system_memory_basis_points, 4_321);
    assert_eq!(snapshot.adaptive_state, vantage::adaptive::AdaptiveState::Inactive);
    assert_eq!(snapshot.adaptive_high_watermark_percent, 90);
    assert_eq!(snapshot.adaptive_low_watermark_percent, 80);
    assert_eq!(snapshot.adaptive_managed_override_count, 0);
    assert_eq!(snapshot.global.pass_pkts, 11);
    assert_eq!(snapshot.global.drop_pkts, 3);
    assert_eq!(snapshot.global.pass_bytes, 1_500);
    assert_eq!(snapshot.global.drop_bytes, 300);
    assert_eq!(snapshot.global.reasons.no_tokens, 2);
    assert_eq!(snapshot.global.reasons.no_policy, 1);
    assert_eq!(snapshot.global.reasons.parse_fail, 4);
    assert_eq!(snapshot.top_tenants.len(), 1);
    assert_eq!(
        snapshot.top_tenants[0].flow,
        "cgroup=167838211|proto=tcp|dport=443|method=*|path_hash=*"
    );
}

#[test]
fn build_top_tenants_applies_ordering_and_limit() {
    let counters = vec![
        (
            TenantKey {
                cgroup_id: 2,
                http_path_hash: 0,
                dst_port: 80,
                proto: 6,
                http_method: 0,
            },
            Counters {
                pass_pkts: 1,
                drop_pkts: 5,
                pass_bytes: 10,
                drop_bytes: 200,
            },
        ),
        (
            TenantKey {
                cgroup_id: 1,
                http_path_hash: 0,
                dst_port: 80,
                proto: 6,
                http_method: 0,
            },
            Counters {
                pass_pkts: 1,
                drop_pkts: 5,
                pass_bytes: 10,
                drop_bytes: 200,
            },
        ),
        (
            TenantKey {
                cgroup_id: 3,
                http_path_hash: 0,
                dst_port: 80,
                proto: 6,
                http_method: 0,
            },
            Counters {
                pass_pkts: 1,
                drop_pkts: 5,
                pass_bytes: 10,
                drop_bytes: 150,
            },
        ),
    ];

    let top = build_top_tenants(counters, 2);
    assert_eq!(top.len(), 2);
    assert_eq!(top[0].tenant.cgroup_id, 1);
    assert_eq!(top[1].tenant.cgroup_id, 2);
}

fn metrics_fixture() -> InMemoryMapOps {
    InMemoryMapOps {
        counters: vec![(
            TenantKey {
                cgroup_id: 167_838_211,
                http_path_hash: 0,
                dst_port: 443,
                proto: 6,
                http_method: 0,
            },
            Counters {
                pass_pkts: 10,
                drop_pkts: 9,
                pass_bytes: 100,
                drop_bytes: 90,
            },
        )],
        ..InMemoryMapOps::new()
    }
}

#[test]
fn metrics_endpoint_omits_flow_labels_when_aggregate_mode() {
    let mut bench = bench_over(metrics_fixture());
    let text = metrics(
        &mut bench.metrics,
        || bench.maps.collect_counters(),
        MetricsDimensions::Aggregate,
    );
    let Ok(text) = text else {
        panic!("metrics should render");
    };
    assert!(text.contains("vantage_tenant_pass_packets 10"));
    assert!(!text.contains("flow=\""));
}

#[test]
fn metrics_endpoint_includes_flow_labels_when_dimensional_mode() {
    let mut bench = bench_over(metrics_fixture());
    let text = metrics(
        &mut bench.metrics,
        || bench.maps.collect_counters(),
        MetricsDimensions::PerFlow,
    );
    let Ok(text) = text else {
        panic!("metrics should render");
    };
    assert!(text.contains("flow=\"cgroup=167838211|proto=tcp|dport=443|method=*|path_hash=*\""));
    assert!(text.contains("cgroup_id=\"167838211\""));
    assert!(text.contains("http_method=\"*\""));
    assert!(text.contains("http_path_hash=\"*\""));
}

#[test]
fn tenancy_endpoint_defaults_to_non_essential() {
    let bench = bench();
    let Ok(response) = tenant_essential("cg:42", &bench.tenancy) else {
        panic!("lookup should succeed");
    };
    assert_eq!(response.tenant, 42);
    assert!(!response.essential);
}

#[test]
fn tenancy_endpoint_can_mark_essential() {
    let mut bench = bench();
    let marked = put_tenant_essential(
        "99",
        true,
        &mut bench.store,
        &mut bench.tenancy,
        &accept,
    );
    assert!(marked.is_ok());
    let Ok(response) = tenant_essential("99", &bench.tenancy) else {
        panic!("lookup should succeed");
    };
    assert_eq!(response.tenant, 99);
    assert!(response.essential);
    assert!(bench.store.snapshot().essential_tenants.contains(&99));
    assert_bad_request(put_tenant_essential(
        "cg:",
        true,
        &mut bench.store,
        &mut bench.tenancy,
        &accept,
    ));
}

#[test]
fn scope_names_the_first_wildcard() {
    let exact = TenantKey {
        cgroup_id: 1,
        http_path_hash: 2,
        dst_port: 3,
        proto: 6,
        http_method: 1,
    };
    assert_eq!(policy_scope_from_key(exact), PolicyMatchLevel::Exact);
    let path = TenantKey { http_path_hash: 0, ..exact };
    assert_eq!(policy_scope_from_key(path), PolicyMatchLevel::PathWildcard);
    let method = TenantKey { http_method: 0, ..exact };
    assert_eq!(policy_scope_from_key(method), PolicyMatchLevel::MethodPathWildcard);
    let port = TenantKey { dst_port: 0, ..exact };
    assert_eq!(policy_scope_from_key(port), PolicyMatchLevel::PortMethodPathWildcard);
    let full = TenantKey { proto: 0, ..exact };
    assert_eq!(policy_scope_from_key(full), PolicyMatchLevel::FullWildcard);
    assert!(!partial_l7_policy_key(exact));
    assert!(partial_l7_policy_key(port));
    assert!(partial_l7_policy_key(full));
}

#[test]
fn failed_metrics_are_explained() {
    let error = ApiError::Metrics(MetricsError::MapRead(MapError::LockPoisoned));
    assert_eq!(error.status(), 500);
    assert_eq!(
        error.body(),
        "metrics operation failed: map operation failed: failed to lock eBPF object"
    );
    let error = ApiError::Metrics(MetricsError::ParseProc {
        path: "/proc/stat",
        reason: "missing aggregate cpu line".to_owned(),
    });
    assert_eq!(
        error.body(),
        "metrics operation failed: failed to parse /proc/stat: missing aggregate cpu line"
    );
    let error = ApiError::Metrics(MetricsError::Encode(prometheus::Error::AlreadyReg));
    assert_eq!(
        error.body(),
        "metrics operation failed: failed to encode Prometheus metrics: Duplicate metrics collector registration attempted"
    );
}
