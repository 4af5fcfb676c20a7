//! Settings held to their bounds. The values are those that the command line or
//! the environment hands over.

use vantage::config::{
    id_set, parse_essential_tenant, parse_state_file_path, AttachDirection, Cli, Config,
    FlowKeysMode, MetricsDimensions, PolicyValidationMode,
};

fn default_config() -> Config {
    Config::from_cli(Cli::default())
}

#[test]
fn attach_direction_from_env_is_respected() {
    let config = Config::from_cli(Cli {
        direction: AttachDirection::Both,
        ..Cli::default()
    });
    assert!(config.attach_ingress);
    assert!(config.attach_egress);
}

#[test]
fn default_direction_is_ingress_only() {
    let config = default_config();
    assert!(config.attach_ingress);
    assert!(!config.attach_egress);
}

#[test]
fn egress_alone_can_be_attached() {
    let config = Config::from_cli(Cli {
        direction: AttachDirection::Egress,
        ..Cli::default()
    });
    assert!(!config.attach_ingress);
    assert!(config.attach_egress);
}

#[test]
fn drop_event_sample_is_clamped_to_one() {
    let config = Config::from_cli(Cli {
        drop_event_log_sample_n: 0,
        ..Cli::default()
    });
    assert_eq!(config.drop_event_log_sample_n, 1);
}

#[test]
fn cpu_window_ms_uses_default() {
    assert_eq!(default_config().cpu_window_ms, 5_000);
}

#[test]
fn cpu_window_ms_is_clamped_to_one() {
    let config = Config::from_cli(Cli {
        cpu_window_ms: 0,
        ..Cli::default()
    });
    assert_eq!(config.cpu_window_ms, 1);
}

#[test]
fn state_file_path_uses_default() {
    assert_eq!(default_config().state_file_path, "./vantage-state.json");
}

fn config_with_state_file(raw: &str) -> Result<Config, String> {
    let state_file_path = parse_state_file_path(raw)?;
    Ok(Config::from_cli(Cli {
        state_file_path,
        ..Cli::default()
    }))
}

#[test]
fn state_file_path_can_be_overridden_by_flag() {
    let Ok(config) = config_with_state_file("./custom-state.json") else {
        panic!("config parsing should succeed");
    };
    assert_eq!(config.state_file_path, "./custom-state.json");
}

#[test]
fn state_file_path_can_be_overridden_by_env() {
    let Ok(config) = config_with_state_file("./env-state.json") else {
        panic!("config parsing should succeed");
    };
    assert_eq!(config.state_file_path, "./env-state.json");
}

#[test]
fn empty_state_file_path_is_rejected() {
    assert!(
        config_with_state_file("").is_err(),
        "empty state file path should fail parsing"
    );
}

#[test]
fn empty_state_file_path_from_env_is_rejected() {
    assert_eq!(
        parse_state_file_path(""),
        Err("state file path must not be empty".to_owned())
    );
}

#[test]
fn blank_state_file_path_is_rejected() {
    assert_eq!(
        parse_state_file_path(" \t\u{3000}"),
        Err("state file path must not be empty".to_owned())
    );
    assert_eq!(parse_state_file_path(" a "), Ok(" a ".to_owned()));
}

#[test]
fn debug_top_tenants_uses_default() {
    assert_eq!(default_config().debug_top_tenants, 10);
}

#[test]
fn debug_top_tenants_is_clamped_to_upper_bound() {
    let config = Config::from_cli(Cli {
        debug_top_tenants: 500,
        ..Cli::default()
    });
    assert_eq!(config.debug_top_tenants, 100);
}

#[test]
fn debug_top_tenants_is_clamped_to_lower_bound() {
    let config = Config::from_cli(Cli {
        debug_top_tenants: 0,
        ..Cli::default()
    });
    assert_eq!(config.debug_top_tenants, 1);
}

#[test]
fn metrics_dimensions_can_be_enabled() {
    let config = Config::from_cli(Cli {
        metrics_dimensional_enabled: true,
        ..Cli::default()
    });
    assert_eq!(config.metrics_dimensions, MetricsDimensions::PerFlow);
    assert_eq!(default_config().metrics_dimensions, MetricsDimensions::Aggregate);
}

#[test]
fn flow_keys_mode_defaults_to_live() {
    assert!(default_config().flow_keys_mode.live());
}

#[test]
fn flow_keys_mode_can_disable_flow_keys() {
    let config = Config::from_cli(Cli {
        flow_keys_mode: FlowKeysMode::Legacy,
        ..Cli::default()
    });
    assert!(!config.flow_keys_mode.live());
}

#[test]
fn policy_validation_mode_defaults_to_permissive() {
    assert_eq!(
        default_config().policy_validation_mode,
        PolicyValidationMode::Permissive
    );
}

#[test]
fn policy_validation_mode_can_be_set_to_strict() {
    let config = Config::from_cli(Cli {
        policy_validation_mode: PolicyValidationMode::Strict,
        ..Cli::default()
    });
    assert_eq!(config.policy_validation_mode, PolicyValidationMode::Strict);
    assert!(config.policy_validation_mode.strict());
}

#[test]
fn adaptive_config_defaults_are_set() {
    let config = default_config();
    assert!(!config.adaptive.enabled);
    assert_eq!(config.adaptive.high_watermark_percent, 90);
    assert_eq!(config.adaptive.low_watermark_percent, 80);
    assert_eq!(config.adaptive.tick_ms, 1_000);
    assert_eq!(config.adaptive.throttle_rate_tokens_per_sec, 100);
    assert_eq!(config.adaptive.throttle_burst_tokens, 500);
}

#[test]
fn adaptive_tick_ms_is_clamped_to_one() {
    let config = Config::from_cli(Cli {
        adaptive_tick_ms: 0,
        ..Cli::default()
    });
    assert_eq!(config.adaptive.tick_ms, 1);
}

#[test]
fn adaptive_throttle_values_are_clamped_to_one() {
    let config = Config::from_cli(Cli {
        adaptive_throttle_rate_tokens_per_sec: 0,
        adaptive_throttle_burst_tokens: 0,
        ..Cli::default()
    });
    assert_eq!(config.adaptive.throttle_rate_tokens_per_sec, 1);
    assert_eq!(config.adaptive.throttle_burst_tokens, 1);
}

#[test]
fn reconcile_defaults_are_set() {
    let config = default_config();
    assert_eq!(config.reconcile_tick_ms, 2_000);
    assert_eq!(config.reconcile_deep_check_every_n, 30);
}

#[test]
fn reconcile_values_are_clamped_to_minimums() {
    let config = Config::from_cli(Cli {
        reconcile_tick_ms: 0,
        reconcile_deep_check_every_n: 0,
        ..Cli::default()
    });
    assert_eq!(config.reconcile_tick_ms, 100);
    assert_eq!(config.reconcile_deep_check_every_n, 1);
}

#[test]
fn reconcile_values_can_be_overridden_by_env() {
    let config = Config::from_cli(Cli {
        reconcile_tick_ms: 2_500,
        reconcile_deep_check_every_n: 45,
        ..Cli::default()
    });
    assert_eq!(config.reconcile_tick_ms, 2_500);
    assert_eq!(config.reconcile_deep_check_every_n, 45);
}

#[test]
fn reconcile_values_from_env_are_clamped_to_minimums() {
    let config = Config::from_cli(Cli {
        reconcile_tick_ms: 0,
        reconcile_deep_check_every_n: 0,
        ..Cli::default()
    });
    assert_eq!(config.reconcile_tick_ms, 100);
    assert_eq!(config.reconcile_deep_check_every_n, 1);
}

#[test]
fn adaptive_high_watermark_is_clamped_to_hundred() {
    let config = Config::from_cli(Cli {
        adaptive_high_watermark_percent: 255,
        ..Cli::default()
    });
    assert_eq!(config.adaptive.high_watermark_percent, 100);
}

#[test]
fn adaptive_high_watermark_is_clamped_to_minimum_two() {
    let config = Config::from_cli(Cli {
        adaptive_high_watermark_percent: 1,
        ..Cli::default()
    });
    assert_eq!(config.adaptive.high_watermark_percent, 2);
}

#[test]
fn adaptive_low_watermark_is_clamped_below_high() {
    let config = Config::from_cli(Cli {
        adaptive_high_watermark_percent: 80,
        adaptive_low_watermark_percent: 99,
        ..Cli::default()
    });
    assert_eq!(config.adaptive.high_watermark_percent, 80);
    assert_eq!(config.adaptive.low_watermark_percent, 79);
}

#[test]
fn adaptive_low_watermark_remains_recoverable_when_high_is_minimum() {
    let config = Config::from_cli(Cli {
        adaptive_high_watermark_percent: 1,
        adaptive_low_watermark_percent: 0,
        ..Cli::default()
    });
    assert_eq!(config.adaptive.high_watermark_percent, 2);
    assert_eq!(config.adaptive.low_watermark_percent, 1);
}

#[test]
fn global_config_seed_enables_filtering_by_default() {
    let seed = default_config().global_config_seed().as_global_config();
    assert_eq!(seed.enabled, 1);
    assert_eq!(seed.flow_keys_live, 1);
}

#[test]
fn global_config_seed_respects_flow_key_mode() {
    let config = Config::from_cli(Cli {
        flow_keys_mode: FlowKeysMode::Legacy,
        ..Cli::default()
    });
    let seed = config.global_config_seed().as_global_config();
    assert_eq!(seed.enabled, 1);
    assert_eq!(seed.flow_keys_live, 0);
}

fn config_with_tenants(raw: &[&str]) -> Result<Config, String> {
    let mut essential_tenants = Vec::new();
    for one in raw {
        essential_tenants.push(parse_essential_tenant(one)?);
    }
    Ok(Config::from_cli(Cli {
        essential_tenants,
        ..Cli::default()
    }))
}

#[test]
fn essential_tenants_parse_mixed_formats() {
    let Ok(config) = config_with_tenants(&["cg:42", "7"]) else {
        panic!("config parsing should succeed");
    };
    assert!(config.essential_tenants.contains(&42));
    assert!(config.essential_tenants.contains(&7));
    assert_eq!(config.essential_tenants.len(), 2);
}

#[test]
fn essential_tenants_can_be_parsed_from_env_csv() {
    let raw: Vec<&str> = "cg:11,12".split(',').collect();
    let Ok(config) = config_with_tenants(&raw) else {
        panic!("config parsing should succeed");
    };
    assert!(config.essential_tenants.contains(&11));
    assert!(config.essential_tenants.contains(&12));
}

#[test]
fn a_bad_essential_tenant_is_named() {
    assert_eq!(parse_essential_tenant(" cg:5 "), Ok(5));
    assert_eq!(parse_essential_tenant("+5"), Ok(5));
    assert_eq!(
        parse_essential_tenant("cg:"),
        Err("invalid essential tenant 'cg:': cannot parse integer from empty string".to_owned())
    );
    assert_eq!(
        parse_essential_tenant("cg: 5"),
        Err("invalid essential tenant 'cg: 5': invalid digit found in string".to_owned())
    );
    assert_eq!(
        parse_essential_tenant("18446744073709551616"),
        Err(
            "invalid essential tenant '18446744073709551616': number too large to fit in target type"
                .to_owned()
        )
    );
}

#[test]
fn ids_are_kept_once() {
    let ids: Vec<u64> = id_set(&[3, 1, 3]).into_iter().collect();
    assert_eq!(ids, vec![1, 3]);
    let config = default_config();
    let copy = config.clone();
    assert_eq!(copy.bind_addr, "127.0.0.1:3000");
    assert_eq!(copy.iface, config.iface);
}
