//! Settings of the daemon.

use std::collections::BTreeSet;
use vstd::prelude::*;

use crate::common::GlobalConfig;
use crate::order::u64_keys_are_ordered;
use crate::table::take_one_more;
use crate::tenant::tenant_number;
use crate::text::{
    matches_at, number_error_text, occurs_at, parse_u64, slice_chars, starts_with, to_chars, trim,
    trimmed,
};

verus! {

/// Which direction of traffic the classifier is attached to.
#[derive(Clone, Copy, Debug, PartialEq, Eq, Structural)]
pub enum AttachDirection {
    Ingress,
    Egress,
    Both,
}

/// How packets are keyed.
#[derive(Clone, Copy, Debug, PartialEq, Eq, Structural)]
pub enum FlowKeysMode {
    Live,
    Legacy,
}

impl FlowKeysMode {
    /// Whether packets are matched by flow.
    pub fn live(self) -> (r: bool)
        ensures
            r == (self == FlowKeysMode::Live),
    {
        matches!(self, FlowKeysMode::Live)
    }
}

/// How finely metrics are broken down.
#[derive(Clone, Copy, Debug, PartialEq, Eq, Structural)]
pub enum MetricsDimensions {
    Aggregate,
    PerFlow,
}

impl MetricsDimensions {
    /// Whether every flow has its own labels.
    pub fn enabled(self) -> (r: bool)
        ensures
            r == (self == MetricsDimensions::PerFlow),
    {
        matches!(self, MetricsDimensions::PerFlow)
    }
}

/// What happens to policies whose HTTP selectors lack protocol and port.
#[derive(Clone, Copy, Debug, PartialEq, Eq, Structural)]
pub enum PolicyValidationMode {
    Permissive,
    Strict,
}

impl PolicyValidationMode {
    /// Whether incomplete selectors are refused.
    pub fn strict(self) -> (r: bool)
        ensures
            r == (self == PolicyValidationMode::Strict),
    {
        matches!(self, PolicyValidationMode::Strict)
    }
}

/// Settings of the adaptive controller.
#[derive(Clone, Copy, Debug, PartialEq, Eq, Structural)]
pub struct AdaptiveConfig {
    pub enabled: bool,
    pub high_watermark_percent: u8,
    pub low_watermark_percent: u8,
    pub tick_ms: u64,
    pub throttle_rate_tokens_per_sec: u64,
    pub throttle_burst_tokens: u64,
}

/// Settings as they were given, before they are held to their bounds.
#[derive(Debug)]
pub struct Cli {
    pub iface: String,
    pub direction: AttachDirection,
    pub bind_addr: String,
    pub state_file_path: String,
    pub drop_event_log_sample_n: u32,
    pub drop_event_log_enabled: bool,
    pub cpu_window_ms: u64,
    pub metrics_dimensional_enabled: bool,
    pub flow_keys_mode: FlowKeysMode,
    pub debug_top_tenants: usize,
    pub policy_validation_mode: PolicyValidationMode,
    pub adaptive_enabled: bool,
    pub adaptive_high_watermark_percent: u8,
    pub adaptive_low_watermark_percent: u8,
    pub adaptive_tick_ms: u64,
    pub adaptive_throttle_rate_tokens_per_sec: u64,
    pub adaptive_throttle_burst_tokens: u64,
    pub reconcile_tick_ms: u64,
    pub reconcile_deep_check_every_n: u64,
    pub essential_tenants: Vec<u64>,
}

impl Default for Cli {
    /// The settings where nothing is given.
    fn default() -> (cli: Self)
        ensures
            cli.iface@ == "lo"@,
            cli.direction == AttachDirection::Ingress,
            cli.bind_addr@ == "127.0.0.1:3000"@,
            cli.state_file_path@ == "./vantage-state.json"@,
            cli.drop_event_log_sample_n == 1,
            !cli.drop_event_log_enabled,
            cli.cpu_window_ms == 5_000,
            !cli.metrics_dimensional_enabled,
            cli.flow_keys_mode == FlowKeysMode::Live,
            cli.debug_top_tenants == 10,
            cli.policy_validation_mode == PolicyValidationMode::Permissive,
            !cli.adaptive_enabled,
            cli.adaptive_high_watermark_percent == 90,
            cli.adaptive_low_watermark_percent == 80,
            cli.adaptive_tick_ms == 1_000,
            cli.adaptive_throttle_rate_tokens_per_sec == 100,
            cli.adaptive_throttle_burst_tokens == 500,
            cli.reconcile_tick_ms == 2_000,
            cli.reconcile_deep_check_every_n == 30,
            cli.essential_tenants@.len() == 0,
    {
        Cli {
            iface: "lo".to_owned(),
            direction: AttachDirection::Ingress,
            bind_addr: "127.0.0.1:3000".to_owned(),
            state_file_path: "./vantage-state.json".to_owned(),
            drop_event_log_sample_n: 1,
            drop_event_log_enabled: false,
            cpu_window_ms: 5_000,
            metrics_dimensional_enabled: false,
            flow_keys_mode: FlowKeysMode::Live,
            debug_top_tenants: 10,
            policy_validation_mode: PolicyValidationMode::Permissive,
            adaptive_enabled: false,
            adaptive_high_watermark_percent: 90,
            adaptive_low_watermark_percent: 80,
            adaptive_tick_ms: 1_000,
            adaptive_throttle_rate_tokens_per_sec: 100,
            adaptive_throttle_burst_tokens: 500,
            reconcile_tick_ms: 2_000,
            reconcile_deep_check_every_n: 30,
            essential_tenants: Vec::new(),
        }
    }
}

/// Settings in force.
#[derive(Debug)]
pub struct Config {
    pub iface: String,
    pub bind_addr: String,
    pub state_file_path: String,
    pub attach_ingress: bool,
    pub attach_egress: bool,
    pub drop_event_log_sample_n: u32,
    pub drop_event_log_enabled: bool,
    pub cpu_window_ms: u64,
    pub metrics_dimensions: MetricsDimensions,
    pub flow_keys_mode: FlowKeysMode,
    pub debug_top_tenants: usize,
    pub policy_validation_mode: PolicyValidationMode,
    pub adaptive: AdaptiveConfig,
    pub reconcile_tick_ms: u64,
    pub reconcile_deep_check_every_n: u64,
    pub essential_tenants: BTreeSet<u64>,
}

impl Clone for Config {
    fn clone(&self) -> (copy: Self)
        ensures
            copy.same_settings(*self),
            copy.iface@ == self.iface@,
            copy.bind_addr@ == self.bind_addr@,
            copy.state_file_path@ == self.state_file_path@,
            copy.attach_ingress == self.attach_ingress,
            copy.attach_egress == self.attach_egress,
            copy.drop_event_log_sample_n == self.drop_event_log_sample_n,
            copy.drop_event_log_enabled == self.drop_event_log_enabled,
            copy.cpu_window_ms == self.cpu_window_ms,
            copy.metrics_dimensions == self.metrics_dimensions,
            copy.flow_keys_mode == self.flow_keys_mode,
            copy.debug_top_tenants == self.debug_top_tenants,
            copy.policy_validation_mode == self.policy_validation_mode,
            copy.adaptive == self.adaptive,
            copy.reconcile_tick_ms == self.reconcile_tick_ms,
            copy.reconcile_deep_check_every_n == self.reconcile_deep_check_every_n,
            copy.essential_tenants@ == self.essential_tenants@,
    {
        Config {
            iface: self.iface.clone(),
            bind_addr: self.bind_addr.clone(),
            state_file_path: self.state_file_path.clone(),
            attach_ingress: self.attach_ingress,
            attach_egress: self.attach_egress,
            drop_event_log_sample_n: self.drop_event_log_sample_n,
            drop_event_log_enabled: self.drop_event_log_enabled,
            cpu_window_ms: self.cpu_window_ms,
            metrics_dimensions: self.metrics_dimensions,
            flow_keys_mode: self.flow_keys_mode,
            debug_top_tenants: self.debug_top_tenants,
            policy_validation_mode: self.policy_validation_mode,
            adaptive: self.adaptive,
            reconcile_tick_ms: self.reconcile_tick_ms,
            reconcile_deep_check_every_n: self.reconcile_deep_check_every_n,
            essential_tenants: self.essential_tenants.clone(),
        }
    }
}

/// The larger of two numbers.
pub open spec fn at_least(value: int, low: int) -> int {
    if value < low {
        low
    } else {
        value
    }
}

/// `value` held between `low` and `high`.
pub open spec fn held(value: int, low: int, high: int) -> int {
    if value < low {
        low
    } else if value > high {
        high
    } else {
        value
    }
}

/// A setting within its bounds stays as it is, and one outside is moved to the bound it
/// passed and no further.
pub proof fn settings_are_moved_to_their_bounds(value: int, low: int, high: int)
    ensures
        value >= low ==> at_least(value, low) == value,
        value < low ==> at_least(value, low) == low,
        low <= value <= high ==> held(value, low, high) == value,
        low <= high && value < low ==> held(value, low, high) == low,
        low <= high && value > high ==> held(value, low, high) == high,
{
}

/// The first values for the packet path's configuration.
#[derive(Clone, Copy, Debug, PartialEq, Eq, Structural)]
pub struct GlobalConfigSeed {
    pub enabled: bool,
    pub flow_keys_live: bool,
}

impl GlobalConfigSeed {
    /// The seed as the packet path reads it.
    pub open spec fn config(self) -> GlobalConfig {
        GlobalConfig {
            enabled: if self.enabled {
                1
            } else {
                0
            },
            flow_keys_live: if self.flow_keys_live {
                1
            } else {
                0
            },
            _pad: [0, 0, 0, 0, 0, 0],
        }
    }

    /// The switches as they are stored.
    pub fn as_global_config(self) -> (config: GlobalConfig)
        ensures
            config == self.config(),
            config.enabled == (if self.enabled {
                1u8
            } else {
                0u8
            }),
            config.flow_keys_live == (if self.flow_keys_live {
                1u8
            } else {
                0u8
            }),
    {
        GlobalConfig {
            enabled: if self.enabled {
                1
            } else {
                0
            },
            flow_keys_live: if self.flow_keys_live {
                1
            } else {
                0
            },
            _pad: [0, 0, 0, 0, 0, 0],
        }
    }
}

impl Config {
    /// Whether two configurations have the same settings.
    pub open spec fn same_settings(self, other: Config) -> bool {
        &&& self.iface@ == other.iface@
        &&& self.bind_addr@ == other.bind_addr@
        &&& self.state_file_path@ == other.state_file_path@
        &&& self.attach_ingress == other.attach_ingress
        &&& self.attach_egress == other.attach_egress
        &&& self.drop_event_log_sample_n == other.drop_event_log_sample_n
        &&& self.drop_event_log_enabled == other.drop_event_log_enabled
        &&& self.cpu_window_ms == other.cpu_window_ms
        &&& self.metrics_dimensions == other.metrics_dimensions
        &&& self.flow_keys_mode == other.flow_keys_mode
        &&& self.debug_top_tenants == other.debug_top_tenants
        &&& self.policy_validation_mode == other.policy_validation_mode
        &&& self.adaptive == other.adaptive
        &&& self.reconcile_tick_ms == other.reconcile_tick_ms
        &&& self.reconcile_deep_check_every_n == other.reconcile_deep_check_every_n
        &&& self.essential_tenants@ == other.essential_tenants@
    }

    /// Whether every setting is within its bounds. The low watermark is below
    /// the high one and above zero, so load can always fall back to it.
    pub open spec fn in_bounds(self) -> bool {
        &&& self.attach_ingress || self.attach_egress
        &&& self.drop_event_log_sample_n >= 1
        &&& self.cpu_window_ms >= 1
        &&& 1 <= self.debug_top_tenants <= 100
        &&& 1 <= self.adaptive.low_watermark_percent < self.adaptive.high_watermark_percent <= 100
        &&& self.adaptive.tick_ms >= 1
        &&& self.adaptive.throttle_rate_tokens_per_sec >= 1
        &&& self.adaptive.throttle_burst_tokens >= 1
        &&& self.reconcile_tick_ms >= 100
        &&& self.reconcile_deep_check_every_n >= 1
    }

    /// Holds the given settings to their bounds.
    pub fn from_cli(cli: Cli) -> (config: Self)
        ensures
            config.iface == cli.iface,
            config.bind_addr == cli.bind_addr,
            config.state_file_path == cli.state_file_path,
            config.attach_ingress == (cli.direction != AttachDirection::Egress),
            config.attach_egress == (cli.direction != AttachDirection::Ingress),
            config.drop_event_log_sample_n == at_least(cli.drop_event_log_sample_n as int, 1),
            config.drop_event_log_enabled == cli.drop_event_log_enabled,
            config.cpu_window_ms == at_least(cli.cpu_window_ms as int, 1),
            config.metrics_dimensions == (if cli.metrics_dimensional_enabled {
                MetricsDimensions::PerFlow
            } else {
                MetricsDimensions::Aggregate
            }),
            config.flow_keys_mode == cli.flow_keys_mode,
            config.debug_top_tenants == held(cli.debug_top_tenants as int, 1, 100),
            config.policy_validation_mode == cli.policy_validation_mode,
            config.adaptive.enabled == cli.adaptive_enabled,
            config.adaptive.high_watermark_percent == held(
                cli.adaptive_high_watermark_percent as int,
                2,
                100,
            ),
            config.adaptive.low_watermark_percent == held(
                cli.adaptive_low_watermark_percent as int,
                1,
                config.adaptive.high_watermark_percent - 1,
            ),
            config.adaptive.tick_ms == at_least(cli.adaptive_tick_ms as int, 1),
            config.adaptive.throttle_rate_tokens_per_sec == at_least(
                cli.adaptive_throttle_rate_tokens_per_sec as int,
                1,
            ),
            config.adaptive.throttle_burst_tokens == at_least(
                cli.adaptive_throttle_burst_tokens as int,
                1,
            ),
            config.reconcile_tick_ms == at_least(cli.reconcile_tick_ms as int, 100),
            config.reconcile_deep_check_every_n == at_least(
                cli.reconcile_deep_check_every_n as int,
                1,
            ),
            config.essential_tenants@ == cli.essential_tenants@.to_set(),
            config.in_bounds(),
    {
        let (attach_ingress, attach_egress): (bool, bool) = match cli.direction {
            AttachDirection::Ingress => (true, false),
            AttachDirection::Egress => (false, true),
            AttachDirection::Both => (true, true),
        };
        let high: u8 = clamp_u8(cli.adaptive_high_watermark_percent, 2, 100);
        let low: u8 = clamp_u8(cli.adaptive_low_watermark_percent, 1, high - 1);
        let essential_tenants = id_set(cli.essential_tenants.as_slice());
        Config {
            iface: cli.iface,
            bind_addr: cli.bind_addr,
            state_file_path: cli.state_file_path,
            attach_ingress,
            attach_egress,
            drop_event_log_sample_n: if cli.drop_event_log_sample_n < 1 {
                1
            } else {
                cli.drop_event_log_sample_n
            },
            drop_event_log_enabled: cli.drop_event_log_enabled,
            cpu_window_ms: max_u64(cli.cpu_window_ms, 1),
            metrics_dimensions: if cli.metrics_dimensional_enabled {
                MetricsDimensions::PerFlow
            } else {
                MetricsDimensions::Aggregate
            },
            flow_keys_mode: cli.flow_keys_mode,
            debug_top_tenants: if cli.debug_top_tenants < 1 {
                1
            } else if cli.debug_top_tenants > 100 {
                100
            } else {
                cli.debug_top_tenants
            },
            policy_validation_mode: cli.policy_validation_mode,
            adaptive: AdaptiveConfig {
                enabled: cli.adaptive_enabled,
                high_watermark_percent: high,
                low_watermark_percent: low,
                tick_ms: max_u64(cli.adaptive_tick_ms, 1),
                throttle_rate_tokens_per_sec: max_u64(
                    cli.adaptive_throttle_rate_tokens_per_sec,
                    1,
                ),
                throttle_burst_tokens: max_u64(cli.adaptive_throttle_burst_tokens, 1),
            },
            reconcile_tick_ms: max_u64(cli.reconcile_tick_ms, 100),
            reconcile_deep_check_every_n: max_u64(cli.reconcile_deep_check_every_n, 1),
            essential_tenants,
        }
    }

    /// What the packet path starts with: filtering, keyed as the settings say.
    pub fn global_config_seed(&self) -> (seed: GlobalConfigSeed)
        ensures
            seed.enabled,
            seed.flow_keys_live == (self.flow_keys_mode == FlowKeysMode::Live),
    {
        GlobalConfigSeed { enabled: true, flow_keys_live: self.flow_keys_mode.live() }
    }
}

fn clamp_u8(value: u8, low: u8, high: u8) -> (r: u8)
    requires
        low <= high,
    ensures
        r == held(value as int, low as int, high as int),
{
    if value < low {
        low
    } else if value > high {
        high
    } else {
        value
    }
}

fn max_u64(value: u64, low: u64) -> (r: u64)
    ensures
        r == at_least(value as int, low as int),
{
    if value < low {
        low
    } else {
        value
    }
}

/// The set of `ids`.
pub fn id_set(ids: &[u64]) -> (set: BTreeSet<u64>)
    ensures
        set@ == ids@.to_set(),
{
    broadcast use vstd::std_specs::btree::group_btree_axioms;

    proof {
        u64_keys_are_ordered();
    }
    let mut set: BTreeSet<u64> = BTreeSet::new();
    let mut i: usize = 0;
    assert(set@ =~= ids@.take(0).to_set());
    while i < ids.len()
        invariant
            i <= ids@.len(),
            set@ == ids@.take(i as int).to_set(),
        decreases ids@.len() - i,
    {
        set.insert(ids[i]);
        proof {
            take_one_more(ids@, i as int);
        }
        i += 1;
    }
    assert(ids@.take(i as int) =~= ids@);
    set
}

/// Reads a tenant from the settings: a number, with or without `cg:` before it,
/// in white space or not.
pub fn parse_essential_tenant(raw: &str) -> (r: Result<u64, String>)
    ensures
        match tenant_number(trimmed(raw@)) {
            Ok(id) => r == Ok::<u64, String>(id),
            Err(error) => r matches Err(reason) && reason@ == "invalid essential tenant '"@ + raw@
                + "': "@ + number_error_text(error),
        },
{
    let chars = to_chars(raw);
    let inner = trim(chars.as_slice());
    let prefix = to_chars("cg:");
    proof {
        reveal_strlit("cg:");
        if inner@.len() >= 3 {
            assert(inner@.take(3) =~= inner@.subrange(0, 3));
        }
        assert(starts_with(inner@, "cg:"@) == occurs_at(inner@, prefix@, 0));
    }
    let value = if matches_at(inner.as_slice(), prefix.as_slice(), 0) {
        let rest = slice_chars(inner.as_slice(), 3, inner.len());
        assert(rest@ =~= inner@.skip(3));
        rest
    } else {
        inner
    };
    match parse_u64(value.as_slice()) {
        Ok(id) => Ok(id),
        Err(error) => {
            let mut reason = String::new();
            reason.append("invalid essential tenant '");
            reason.append(raw);
            reason.append("': ");
            reason.append(error.message());
            assert(reason@ =~= "invalid essential tenant '"@ + raw@ + "': "@ + number_error_text(
                error,
            ));
            Err(reason)
        },
    }
}

/// Reads the path of the state file, which must not be blank.
pub fn parse_state_file_path(raw: &str) -> (r: Result<String, String>)
    ensures
        match r {
            Ok(path) => trimmed(raw@).len() > 0 && path@ == raw@,
            Err(reason) => trimmed(raw@).len() == 0 && reason@
                == "state file path must not be empty"@,
        },
{
    let chars = to_chars(raw);
    if trim(chars.as_slice()).len() == 0 {
        return Err("state file path must not be empty".to_owned());
    }
    Ok(raw.to_owned())
}

} // verus!
