//! Starting up, and reporting health.

use vstd::prelude::*;

use crate::adaptive::{AdaptiveRuntimeSnapshot, AdaptiveRuntimeState, AdaptiveState};
use crate::common::{GlobalConfig, KERNEL_DROP_EVENT_SAMPLE_EVERY};
use crate::config::{AttachDirection, Config, FlowKeysMode, GlobalConfigSeed, MetricsDimensions};
use crate::map_client::MapError;
use crate::metrics::MetricsState;
use crate::reconcile::desired_switches;
use crate::state_store::{PersistedStateV1, StateStore, StateStoreDefaults};
use crate::tenancy::TenancyState;

verus! {

/// The name of the direction that traffic is filtered in.
pub open spec fn direction_text(config: Config) -> Seq<char> {
    match (config.attach_ingress, config.attach_egress) {
        (true, true) => "both"@,
        (true, false) => "ingress"@,
        (false, true) => "egress"@,
        (false, false) => "none"@,
    }
}

/// The name of the attach directions.
pub fn direction_name(config: &Config) -> (name: &'static str)
    ensures
        name@ == direction_text(*config),
        config.attach_ingress && config.attach_egress ==> name@ == "both"@,
        config.attach_ingress && !config.attach_egress ==> name@ == "ingress"@,
        !config.attach_ingress && config.attach_egress ==> name@ == "egress"@,
        !config.attach_ingress && !config.attach_egress ==> name@ == "none"@,
{
    match (config.attach_ingress, config.attach_egress) {
        (true, true) => "both",
        (true, false) => "ingress",
        (false, true) => "egress",
        (false, false) => "none",
    }
}

/// The directions to attach the classifier to, in order.
pub fn attach_directions(config: &Config) -> (r: Result<Vec<AttachDirection>, &'static str>)
    ensures
        match r {
            Ok(directions) => {
                &&& config.attach_ingress || config.attach_egress
                &&& directions@ == (if config.attach_ingress && config.attach_egress {
                    seq![AttachDirection::Ingress, AttachDirection::Egress]
                } else if config.attach_ingress {
                    seq![AttachDirection::Ingress]
                } else {
                    seq![AttachDirection::Egress]
                })
            },
            Err(reason) => !config.attach_ingress && !config.attach_egress && reason@
                == "at least one tc attach direction must be enabled"@,
        },
{
    if !config.attach_ingress && !config.attach_egress {
        return Err("at least one tc attach direction must be enabled");
    }
    let mut directions: Vec<AttachDirection> = Vec::new();
    if config.attach_ingress {
        directions.push(AttachDirection::Ingress);
    }
    if config.attach_egress {
        directions.push(AttachDirection::Egress);
    }
    proof {
        if config.attach_ingress && config.attach_egress {
            assert(directions@ =~= seq![AttachDirection::Ingress, AttachDirection::Egress]);
        } else if config.attach_ingress {
            assert(directions@ =~= seq![AttachDirection::Ingress]);
        } else {
            assert(directions@ =~= seq![AttachDirection::Egress]);
        }
    }
    Ok(directions)
}

/// One step of the daemon's life.
#[derive(Clone, Copy, Debug, PartialEq, Eq, Structural)]
pub enum RunStep {
    /// Check that a cgroup-v2 hierarchy is mounted.
    CheckHost,
    /// Load the kernel program.
    LoadProgram,
    /// Attach the classifier.
    AttachProgram,
    /// Take the ring buffer of drop events.
    TakeDropEvents,
    /// Load the desired state and seed the switches of the packet path.
    BuildState,
    /// Bring the kernel maps in line with the desired state.
    Reconcile,
    /// Start to consume drop events.
    ConsumeDropEvents,
    /// Start to reconcile at intervals.
    ScheduleReconcile,
    /// Start the adaptive controller.
    RunAdaptive,
    /// Serve the control interface until shutdown.
    Serve,
    /// Wait for the adaptive controller to end.
    JoinAdaptive,
    /// Wait for the reconcile controller to end.
    JoinReconcile,
}

/// The steps of a run, in order. Drop events and the adaptive controller have
/// steps only where they are enabled.
pub open spec fn run_plan(drop_events: bool, adaptive: bool) -> Seq<RunStep> {
    let take = if drop_events {
        seq![RunStep::TakeDropEvents]
    } else {
        seq![]
    };
    let consume = if drop_events {
        seq![RunStep::ConsumeDropEvents]
    } else {
        seq![]
    };
    let start = if adaptive {
        seq![RunStep::RunAdaptive]
    } else {
        seq![]
    };
    let join = if adaptive {
        seq![RunStep::JoinAdaptive]
    } else {
        seq![]
    };
    seq![RunStep::CheckHost, RunStep::LoadProgram, RunStep::AttachProgram] + take + seq![
        RunStep::BuildState,
        RunStep::Reconcile,
    ] + consume + seq![RunStep::ScheduleReconcile] + start + seq![RunStep::Serve] + join + seq![
        RunStep::JoinReconcile,
    ]
}

/// The steps of a run under the given settings.
pub fn run_steps(config: &Config) -> (steps: Vec<RunStep>)
    ensures
        steps@ == run_plan(config.drop_event_log_enabled, config.adaptive.enabled),
{
    let mut steps: Vec<RunStep> = Vec::new();
    steps.push(RunStep::CheckHost);
    steps.push(RunStep::LoadProgram);
    steps.push(RunStep::AttachProgram);
    if config.drop_event_log_enabled {
        steps.push(RunStep::TakeDropEvents);
    }
    steps.push(RunStep::BuildState);
    steps.push(RunStep::Reconcile);
    if config.drop_event_log_enabled {
        steps.push(RunStep::ConsumeDropEvents);
    }
    steps.push(RunStep::ScheduleReconcile);
    if config.adaptive.enabled {
        steps.push(RunStep::RunAdaptive);
    }
    steps.push(RunStep::Serve);
    if config.adaptive.enabled {
        steps.push(RunStep::JoinAdaptive);
    }
    steps.push(RunStep::JoinReconcile);
    assert(steps@ =~= run_plan(config.drop_event_log_enabled, config.adaptive.enabled));
    steps
}

/// What a run consists of, step by step: the steps for drop events and for the adaptive
/// controller are there exactly where these are enabled, and the others always, each
/// once and in this order.
pub proof fn a_run_has_these_steps()
    ensures
        run_plan(true, true) == seq![
            RunStep::CheckHost,
            RunStep::LoadProgram,
            RunStep::AttachProgram,
            RunStep::TakeDropEvents,
            RunStep::BuildState,
            RunStep::Reconcile,
            RunStep::ConsumeDropEvents,
            RunStep::ScheduleReconcile,
            RunStep::RunAdaptive,
            RunStep::Serve,
            RunStep::JoinAdaptive,
            RunStep::JoinReconcile,
        ],
        run_plan(true, false) == seq![
            RunStep::CheckHost,
            RunStep::LoadProgram,
            RunStep::AttachProgram,
            RunStep::TakeDropEvents,
            RunStep::BuildState,
            RunStep::Reconcile,
            RunStep::ConsumeDropEvents,
            RunStep::ScheduleReconcile,
            RunStep::Serve,
            RunStep::JoinReconcile,
        ],
        run_plan(false, true) == seq![
            RunStep::CheckHost,
            RunStep::LoadProgram,
            RunStep::AttachProgram,
            RunStep::BuildState,
            RunStep::Reconcile,
            RunStep::ScheduleReconcile,
            RunStep::RunAdaptive,
            RunStep::Serve,
            RunStep::JoinAdaptive,
            RunStep::JoinReconcile,
        ],
        run_plan(false, false) == seq![
            RunStep::CheckHost,
            RunStep::LoadProgram,
            RunStep::AttachProgram,
            RunStep::BuildState,
            RunStep::Reconcile,
            RunStep::ScheduleReconcile,
            RunStep::Serve,
            RunStep::JoinReconcile,
        ],
{
}

/// No request is served before the kernel maps were brought in line with the
/// desired state, and nothing is loaded before the host was checked.
pub proof fn reconcile_comes_before_serving(drop_events: bool, adaptive: bool, at: int)
    requires
        0 <= at < run_plan(drop_events, adaptive).len(),
    ensures
        run_plan(drop_events, adaptive)[at] == RunStep::Serve ==> exists|i: int|
            0 <= i < at && #[trigger] run_plan(drop_events, adaptive)[i] == RunStep::Reconcile,
        run_plan(drop_events, adaptive)[at] == RunStep::LoadProgram ==> exists|i: int|
            0 <= i < at && #[trigger] run_plan(drop_events, adaptive)[i] == RunStep::CheckHost,
{
    let plan = run_plan(drop_events, adaptive);
    assert(plan[0] == RunStep::CheckHost);
    if drop_events {
        assert(plan[5] == RunStep::Reconcile);
        assert(plan[3] == RunStep::TakeDropEvents);
        assert(plan[4] == RunStep::BuildState);
    } else {
        assert(plan[4] == RunStep::Reconcile);
        assert(plan[3] == RunStep::BuildState);
    }
    assert(plan[1] == RunStep::LoadProgram);
    assert(plan[2] == RunStep::AttachProgram);
}

/// What a daemon without a state file starts from.
pub fn state_defaults(config: &Config) -> (defaults: StateStoreDefaults)
    ensures
        defaults.global_enabled,
        defaults.flow_keys_live == (config.flow_keys_mode == FlowKeysMode::Live),
        defaults.essential_tenants@ == config.essential_tenants@,
{
    let seed = config.global_config_seed();
    StateStoreDefaults {
        global_enabled: seed.enabled,
        flow_keys_live: seed.flow_keys_live,
        essential_tenants: config.essential_tenants.clone(),
    }
}

/// The switches that the packet path is seeded with.
pub fn startup_switches(snapshot: &PersistedStateV1) -> (config: GlobalConfig)
    ensures
        config == desired_switches(snapshot@),
        config.enabled == (if snapshot.global_enabled {
            1u8
        } else {
            0u8
        }),
        config.flow_keys_live == (if snapshot.flow_keys_live {
            1u8
        } else {
            0u8
        }),
{
    let seed = GlobalConfigSeed {
        enabled: snapshot.global_enabled,
        flow_keys_live: snapshot.flow_keys_live,
    };
    seed.as_global_config()
}

/// How drop events are sampled.
#[derive(Clone, Copy, Debug, PartialEq, Eq, Structural)]
pub struct DropEventRuntime {
    pub kernel_sample_every: u64,
    pub log_sample_n: u32,
    pub log_enabled: bool,
}

impl DropEventRuntime {
    /// The drop event settings of a configuration.
    pub fn from_config(config: &Config) -> (runtime: Self)
        ensures
            runtime == (DropEventRuntime {
                kernel_sample_every: KERNEL_DROP_EVENT_SAMPLE_EVERY,
                log_sample_n: config.drop_event_log_sample_n,
                log_enabled: config.drop_event_log_enabled,
            }),
            runtime.kernel_sample_every == 64,
    {
        DropEventRuntime {
            kernel_sample_every: KERNEL_DROP_EVENT_SAMPLE_EVERY,
            log_sample_n: config.drop_event_log_sample_n,
            log_enabled: config.drop_event_log_enabled,
        }
    }
}

/// All that the running daemon works on. Of its maps nothing is assumed.
pub struct AppState<M> {
    pub config: Config,
    pub drop_events: DropEventRuntime,
    pub maps: M,
    pub metrics: MetricsState,
    pub state_store: StateStore,
    pub tenancy: TenancyState,
    pub adaptive_runtime: AdaptiveRuntimeState,
}

/// Assembles the daemon's state and seeds the switches of the packet path from
/// the desired state, and with nothing else.
pub fn build_app_state<M, F: FnOnce(GlobalConfig) -> Result<(), MapError>>(
    config: &Config,
    state_store: StateStore,
    maps: M,
    seed_global_config: F,
) -> (r: Result<AppState<M>, MapError>)
    requires
        call_requires(seed_global_config, (desired_switches(state_store.desired()),)),
    ensures
        ({
            let switches = desired_switches(state_store.desired());
            match r {
                Err(error) => call_ensures(
                    seed_global_config,
                    (switches,),
                    Err::<(), MapError>(error),
                ),
                Ok(app) => {
                    &&& call_ensures(seed_global_config, (switches,), Ok::<(), MapError>(()))
                    &&& app.config.same_settings(*config)
                    &&& app.drop_events == (DropEventRuntime {
                        kernel_sample_every: KERNEL_DROP_EVENT_SAMPLE_EVERY,
                        log_sample_n: config.drop_event_log_sample_n,
                        log_enabled: config.drop_event_log_enabled,
                    })
                    &&& app.maps == maps
                    &&& app.metrics == (MetricsState {
                        daemon_up: 1,
                        partial_l7_policy_keys_total: 0,
                        reconcile_failures_total: 0,
                    })
                    &&& app.state_store == state_store
                    &&& app.tenancy@ == state_store.desired().essential_tenants
                    &&& app.adaptive_runtime.latest == (AdaptiveRuntimeSnapshot {
                        state: AdaptiveState::Inactive,
                        active_override_count: 0,
                    })
                },
            }
        }),
{
    let snapshot = state_store.snapshot();
    match seed_global_config(startup_switches(&snapshot)) {
        Ok(unit) => {
            assert(unit == ());
        },
        Err(error) => return Err(error),
    }
    Ok(
        AppState {
            config: config.clone(),
            drop_events: DropEventRuntime::from_config(config),
            maps,
            metrics: MetricsState::new(),
            state_store,
            tenancy: TenancyState::new(snapshot.essential_tenants),
            adaptive_runtime: AdaptiveRuntimeState::default(),
        },
    )
}

/// The answer to a health request.
#[derive(Debug)]
pub struct HealthResponse {
    pub status: &'static str,
    pub iface: String,
    pub direction: &'static str,
    pub cpu_window_ms: u64,
    pub metrics_dimensional_enabled: bool,
    pub flow_keys_live: bool,
    pub debug_top_tenants: usize,
    pub adaptive_enabled: bool,
    pub adaptive_high_watermark_percent: u8,
    pub adaptive_low_watermark_percent: u8,
    pub adaptive_tick_ms: u64,
    pub adaptive_throttle_rate_tokens_per_sec: u64,
    pub adaptive_throttle_burst_tokens: u64,
    pub drop_events: DropEventRuntime,
}

/// Answers a health request. Where the live keying mode cannot be read, the
/// configured one is reported.
pub fn healthz(
    config: &Config,
    drop_events: DropEventRuntime,
    live_flow_keys: &Result<bool, MapError>,
) -> (health: HealthResponse)
    ensures
        health.status@ == "ok"@,
        health.iface@ == config.iface@,
        health.direction@ == direction_text(*config),
        health.cpu_window_ms == config.cpu_window_ms,
        health.metrics_dimensional_enabled == (config.metrics_dimensions
            == MetricsDimensions::PerFlow),
        health.flow_keys_live == (match live_flow_keys {
            Ok(live) => *live,
            Err(_) => config.flow_keys_mode == FlowKeysMode::Live,
        }),
        health.debug_top_tenants == config.debug_top_tenants,
        health.adaptive_enabled == config.adaptive.enabled,
        health.adaptive_high_watermark_percent == config.adaptive.high_watermark_percent,
        health.adaptive_low_watermark_percent == config.adaptive.low_watermark_percent,
        health.adaptive_tick_ms == config.adaptive.tick_ms,
        health.adaptive_throttle_rate_tokens_per_sec
            == config.adaptive.throttle_rate_tokens_per_sec,
        health.adaptive_throttle_burst_tokens == config.adaptive.throttle_burst_tokens,
        health.drop_events == drop_events,
{
    let flow_keys_live: bool = match live_flow_keys {
        Ok(live) => *live,
        Err(_) => config.flow_keys_mode.live(),
    };
    HealthResponse {
        status: "ok",
        iface: config.iface.clone(),
        direction: direction_name(config),
        cpu_window_ms: config.cpu_window_ms,
        metrics_dimensional_enabled: config.metrics_dimensions.enabled(),
        flow_keys_live,
        debug_top_tenants: config.debug_top_tenants,
        adaptive_enabled: config.adaptive.enabled,
        adaptive_high_watermark_percent: config.adaptive.high_watermark_percent,
        adaptive_low_watermark_percent: config.adaptive.low_watermark_percent,
        adaptive_tick_ms: config.adaptive.tick_ms,
        adaptive_throttle_rate_tokens_per_sec: config.adaptive.throttle_rate_tokens_per_sec,
        adaptive_throttle_burst_tokens: config.adaptive.throttle_burst_tokens,
        drop_events,
    }
}

} // verus!
