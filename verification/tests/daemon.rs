//! Starting up, and reporting health.

use std::collections::BTreeSet;
use std::sync::{Arc, Mutex};

use vantage::adaptive::AdaptiveState;
use vantage::common::{
    Counters, GlobalConfig, GlobalStats, Policy, ReasonBuckets, TenantKey,
    KERNEL_DROP_EVENT_SAMPLE_EVERY,
};
use vantage::config::{
    AdaptiveConfig, AttachDirection, Cli, Config, FlowKeysMode, MetricsDimensions,
    PolicyValidationMode,
};
use vantage::daemon::{
    attach_directions, build_app_state, direction_name, healthz, run_steps, startup_switches,
    state_defaults, DropEventRuntime, RunStep,
};
use vantage::map_client::{MapClient, MapError, MapOps};
use vantage::state_store::{PersistedStateV1, StateStore, StateStoreDefaults, StateStoreError};

struct NoopMapOps {
    flow_keys_live: bool,
    seeded: Mutex<Option<GlobalConfig>>,
    refuse: bool,
}

impl MapOps for NoopMapOps {
    fn upsert_policy(&self, _tenant: TenantKey, _policy: Policy) -> Result<(), MapError> {
        Ok(())
    }

    fn delete_policy(&self, _tenant: TenantKey) -> Result<(), MapError> {
        Ok(())
    }

    fn get_policy(&self, _tenant: TenantKey) -> Result<Option<Policy>, MapError> {
        Ok(None)
    }

    fn upsert_runtime_policy(&self, _tenant: TenantKey, _policy: Policy) -> Result<(), MapError> {
        Ok(())
    }

    fn delete_runtime_policy(&self, _tenant: TenantKey) -> Result<(), MapError> {
        Ok(())
    }

    fn get_runtime_policy(&self, _tenant: TenantKey) -> Result<Option<Policy>, MapError> {
        Ok(None)
    }

    fn collect_policy_keys(&self) -> Result<Vec<TenantKey>, MapError> {
        Ok(Vec::new())
    }

    fn collect_runtime_policy_keys(&self) -> Result<Vec<TenantKey>, MapError> {
        Ok(Vec::new())
    }

    fn collect_counters(&self) -> Result<Vec<(TenantKey, Counters)>, MapError> {
        Ok(Vec::new())
    }

    fn read_global_stats(&self) -> Result<GlobalStats, MapError> {
        Ok(GlobalStats {
            pass_pkts: 0,
            drop_pkts: 0,
            pass_bytes: 0,
            drop_bytes: 0,
            reasons: ReasonBuckets {
                no_tokens: 0,
                no_policy: 0,
                parse_fail: 0,
            },
        })
    }

    fn seed_global_config(&self, config: GlobalConfig) -> Result<(), MapError> {
        if self.refuse {
            return Err(MapError::MissingMap("GLOBAL_CONFIG_MAP"));
        }
        *self.seeded.lock().unwrap() = Some(config);
        Ok(())
    }

    fn set_global_enabled(&self, _enabled: bool) -> Result<(), MapError> {
        Ok(())
    }

    fn get_global_enabled(&self) -> Result<bool, MapError> {
        Ok(true)
    }

    fn set_flow_keys_live(&self, _flow_keys_live: bool) -> Result<(), MapError> {
        Ok(())
    }

    fn get_flow_keys_live(&self) -> Result<bool, MapError> {
        Ok(self.flow_keys_live)
    }
}

fn client(flow_keys_live: bool, refuse: bool) -> (Arc<NoopMapOps>, MapClient<NoopMapOps>) {
    let ops = Arc::new(NoopMapOps {
        flow_keys_live,
        seeded: Mutex::new(None),
        refuse,
    });
    (Arc::clone(&ops), MapClient::new(ops))
}

fn accept(_: &PersistedStateV1) -> Result<(), StateStoreError> {
    Ok(())
}

#[test]
fn direction_name_reports_both() {
    let config = Config {
        iface: "lo".to_owned(),
        bind_addr: "127.0.0.1:3000".to_owned(),
        state_file_path: "./vantage-state.json".to_owned(),
        attach_ingress: true,
        attach_egress: true,
        drop_event_log_sample_n: 5,
        drop_event_log_enabled: true,
        cpu_window_ms: 5_000,
        metrics_dimensions: MetricsDimensions::Aggregate,
        flow_keys_mode: FlowKeysMode::Live,
        debug_top_tenants: 10,
        policy_validation_mode: PolicyValidationMode::Permissive,
        adaptive: AdaptiveConfig {
            enabled: false,
            high_watermark_percent: 90,
            low_watermark_percent: 80,
            tick_ms: 1_000,
            throttle_rate_tokens_per_sec: 100,
            throttle_burst_tokens: 500,
        },
        reconcile_tick_ms: 1_000,
        reconcile_deep_check_every_n: 30,
        essential_tenants: BTreeSet::new(),
    };
    assert_eq!(direction_name(&config), "both");
}

fn with_directions(ingress: bool, egress: bool) -> Config {
    let mut config = Config::from_cli(Cli::default());
    config.attach_ingress = ingress;
    config.attach_egress = egress;
    config
}

#[test]
fn directions_have_names_and_an_order() {
    assert_eq!(direction_name(&with_directions(true, false)), "ingress");
    assert_eq!(direction_name(&with_directions(false, true)), "egress");
    assert_eq!(direction_name(&with_directions(false, false)), "none");
    assert_eq!(
        attach_directions(&with_directions(true, true)),
        Ok(vec![AttachDirection::Ingress, AttachDirection::Egress])
    );
    assert_eq!(
        attach_directions(&with_directions(false, true)),
        Ok(vec![AttachDirection::Egress])
    );
    assert_eq!(
        attach_directions(&with_directions(false, false)),
        Err("at least one tc attach direction must be enabled")
    );
}

#[test]
fn healthz_reports_kernel_and_log_sampling() {
    let config = Config {
        iface: "lo".to_owned(),
        bind_addr: "127.0.0.1:3000".to_owned(),
        state_file_path: "./vantage-state.json".to_owned(),
        attach_ingress: true,
        attach_egress: false,
        drop_event_log_sample_n: 5,
        drop_event_log_enabled: true,
        cpu_window_ms: 2_500,
        metrics_dimensions: MetricsDimensions::PerFlow,
        flow_keys_mode: FlowKeysMode::Legacy,
        debug_top_tenants: 25,
        policy_validation_mode: PolicyValidationMode::Permissive,
        adaptive: AdaptiveConfig {
            enabled: true,
            high_watermark_percent: 92,
            low_watermark_percent: 78,
            tick_ms: 750,
            throttle_rate_tokens_per_sec: 50,
            throttle_burst_tokens: 250,
        },
        reconcile_tick_ms: 1_000,
        reconcile_deep_check_every_n: 30,
        essential_tenants: BTreeSet::new(),
    };
    let drop_events = DropEventRuntime {
        kernel_sample_every: KERNEL_DROP_EVENT_SAMPLE_EVERY,
        log_sample_n: 5,
        log_enabled: true,
    };
    let (_, maps) = client(config.flow_keys_mode.live(), false);

    let json = healthz(&config, drop_events, &maps.get_flow_keys_live());
    assert_eq!(json.direction, "ingress");
    assert_eq!(
        json.drop_events.kernel_sample_every,
        KERNEL_DROP_EVENT_SAMPLE_EVERY
    );
    assert_eq!(json.cpu_window_ms, 2_500);
    assert!(json.metrics_dimensional_enabled);
    assert!(!json.flow_keys_live);
    assert_eq!(json.debug_top_tenants, 25);
    assert!(json.adaptive_enabled);
    assert_eq!(json.adaptive_high_watermark_percent, 92);
    assert_eq!(json.adaptive_low_watermark_percent, 78);
    assert_eq!(json.adaptive_tick_ms, 750);
    assert_eq!(json.adaptive_throttle_rate_tokens_per_sec, 50);
    assert_eq!(json.adaptive_throttle_burst_tokens, 250);
    assert_eq!(json.drop_events.log_sample_n, 5);
    assert!(json.drop_events.log_enabled);
    assert_eq!(json.status, "ok");
    assert_eq!(json.iface, "lo");
}

#[test]
fn health_falls_back_to_the_configured_mode() {
    let config = Config::from_cli(Cli::default());
    let drop_events = DropEventRuntime::from_config(&config);
    assert!(!healthz(&config, drop_events, &Ok(false)).flow_keys_live);
    assert!(healthz(&config, drop_events, &Err(MapError::LockPoisoned)).flow_keys_live);
}

#[test]
fn a_run_has_its_steps_in_order() {
    let mut config = Config::from_cli(Cli::default());
    assert_eq!(
        run_steps(&config),
        vec![
            RunStep::CheckHost,
            RunStep::LoadProgram,
            RunStep::AttachProgram,
            RunStep::BuildState,
            RunStep::Reconcile,
            RunStep::ScheduleReconcile,
            RunStep::Serve,
            RunStep::JoinReconcile,
        ]
    );
    config.drop_event_log_enabled = true;
    config.adaptive.enabled = true;
    assert_eq!(
        run_steps(&config),
        vec![
            RunStep::CheckHost,
            RunStep::LoadProgram,
            RunStep::AttachProgram,
            RunStep::TakeDropEvents,
            RunStep::BuildState,
            RunStep::Reconcile,
            RunStep::ConsumeDropEvents,
            RunStep::ScheduleReconcile,
            RunStep::RunAdaptive,
            RunStep::Serve,
            RunStep::JoinAdaptive,
            RunStep::JoinReconcile,
        ]
    );
}

#[test]
fn the_state_is_assembled_from_the_settings() {
    let config = Config::from_cli(Cli {
        flow_keys_mode: FlowKeysMode::Legacy,
        essential_tenants: vec![7],
        drop_event_log_sample_n: 3,
        ..Cli::default()
    });
    let defaults = state_defaults(&config);
    assert!(defaults.global_enabled);
    assert!(!defaults.flow_keys_live);
    let Ok(store) = StateStore::load_or_init(|| Ok(None), &accept, &defaults) else {
        panic!("store should initialize");
    };
    assert_eq!(startup_switches(&store.snapshot()).enabled, 1);
    let (ops, maps) = client(false, false);
    let seeded = maps.clone();
    let Ok(app) = build_app_state(&config, store, maps, |config: GlobalConfig| {
        seeded.seed_global_config(config)
    }) else {
        panic!("state should be assembled");
    };
    assert!(app.tenancy.is_essential(7));
    assert!(!app.tenancy.is_essential(8));
    assert_eq!(app.drop_events.log_sample_n, 3);
    assert_eq!(app.metrics.daemon_up, 1);
    assert_eq!(app.adaptive_runtime.snapshot().state, AdaptiveState::Inactive);
    let seeded = ops.seeded.lock().unwrap().map(|seed| (seed.enabled, seed.flow_keys_live));
    assert_eq!(seeded, Some((1, 0)));
}

#[test]
fn an_unseeded_packet_path_is_an_error() {
    let config = Config::from_cli(Cli::default());
    let defaults = StateStoreDefaults::default();
    let Ok(store) = StateStore::load_or_init(|| Ok(None), &accept, &defaults) else {
        panic!("store should initialize");
    };
    let (_, maps) = client(true, true);
    assert!(matches!(
        build_app_state(&config, store, (), |config: GlobalConfig| maps
            .seed_global_config(config)),
        Err(MapError::MissingMap("GLOBAL_CONFIG_MAP"))
    ));
}
