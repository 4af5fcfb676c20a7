//! Metrics text, and load figures from procfs.

use std::sync::Arc;

use prometheus::{Encoder, IntCounter, IntGauge, Registry, TextEncoder};
use vantage::common::{Counters, GlobalConfig, GlobalStats, Policy, TenantKey};
use vantage::map_client::{MapClient, MapError, MapOps};
use vantage::metrics::{
    append_counter_metrics, compute_cpu_window_sample, parse_daemon_jiffies,
    parse_memory_basis_points, parse_system_jiffies, ratio_percent, render_metrics,
    render_metrics_payload, MetricsError, MetricsState, ProcSnapshot,
};

fn key(cgroup_id: u64, dst_port: u16, proto: u8) -> TenantKey {
    TenantKey {
        cgroup_id,
        http_path_hash: 0,
        dst_port,
        proto,
        http_method: 0,
    }
}

fn fixture_snapshot(
    system_total: u64,
    system_busy: u64,
    daemon_user_system: u64,
) -> ProcSnapshot {
    ProcSnapshot {
        system_total,
        system_busy,
        daemon_user_system,
    }
}

#[test]
fn dimensional_tenant_metrics_emit_flow_labels() {
    let payload = append_counter_metrics(
        &[(
            key(167_838_211, 0, 0),
            Counters {
                pass_pkts: 1,
                drop_pkts: 2,
                pass_bytes: 3,
                drop_bytes: 4,
            },
        )],
        true,
    );

    let text = payload;
    assert!(
        text.contains(
            "vantage_tenant_pass_packets{cgroup_id=\"167838211\",dst_port=\"*\",proto=\"*\",http_method=\"*\",http_path_hash=\"*\",flow=\"cgroup=167838211|proto=*|dport=*|method=*|path_hash=*\"} 1\n"
        )
    );
    assert!(
        text.contains(
            "vantage_tenant_drop_packets{cgroup_id=\"167838211\",dst_port=\"*\",proto=\"*\",http_method=\"*\",http_path_hash=\"*\",flow=\"cgroup=167838211|proto=*|dport=*|method=*|path_hash=*\"} 2\n"
        )
    );
    assert!(!text.contains("\\n"));
}

#[test]
fn aggregated_metrics_disable_flow_dimensions() {
    let payload = append_counter_metrics(
        &[(
            key(42, 53, 17),
            Counters {
                pass_pkts: 1,
                drop_pkts: 2,
                pass_bytes: 3,
                drop_bytes: 4,
            },
        )],
        false,
    );

    let text = payload;
    assert!(text.contains("vantage_tenant_pass_packets 1\n"));
    assert!(text.contains("vantage_tenant_drop_packets 2\n"));
    assert!(text.contains("vantage_tenant_pass_bytes 3\n"));
    assert!(text.contains("vantage_tenant_drop_bytes 4\n"));
    assert!(!text.contains("{src_ip="));
    assert!(!text.contains("{cgroup_id="));

    let mut parsed_samples = 0_u32;
    for line in text.lines() {
        if line.starts_with("vantage_tenant_") {
            let mut parts = line.split_whitespace();
            let name = parts.next();
            let value = parts.next();
            assert!(
                parts.next().is_none(),
                "sample line should contain two fields"
            );

            assert!(name.is_some(), "sample name should be present");
            let Some(raw_value) = value else {
                panic!("sample value should be present");
            };
            let parsed = raw_value.parse::<u64>();
            assert!(parsed.is_ok(), "sample value should parse as u64");
            parsed_samples = parsed_samples.saturating_add(1);
        }
    }
    assert_eq!(parsed_samples, 4);
}

#[test]
fn aggregated_metrics_sum_multiple_tenants() {
    let payload = append_counter_metrics(
        &[
            (
                key(1, 80, 6),
                Counters {
                    pass_pkts: 10,
                    drop_pkts: 2,
                    pass_bytes: 1_000,
                    drop_bytes: 200,
                },
            ),
            (
                key(2, 53, 17),
                Counters {
                    pass_pkts: 3,
                    drop_pkts: 4,
                    pass_bytes: 300,
                    drop_bytes: 400,
                },
            ),
        ],
        false,
    );

    assert!(payload.contains("vantage_tenant_pass_packets 13\n"));
    assert!(payload.contains("vantage_tenant_drop_packets 6\n"));
    assert!(payload.contains("vantage_tenant_pass_bytes 1300\n"));
    assert!(payload.contains("vantage_tenant_drop_bytes 600\n"));
}

#[test]
fn aggregated_metrics_hold_at_the_largest_value() {
    let row = (
        key(1, 0, 0),
        Counters {
            pass_pkts: u64::MAX,
            drop_pkts: 1,
            pass_bytes: 0,
            drop_bytes: 0,
        },
    );
    let payload = append_counter_metrics(&[row, row], false);
    assert!(payload.contains("vantage_tenant_pass_packets 18446744073709551615\n"));
    assert!(payload.contains("vantage_tenant_drop_packets 2\n"));
    assert!(payload.starts_with(
        "# HELP vantage_tenant_pass_packets Total packets allowed by policy.\n# TYPE vantage_tenant_pass_packets counter\n"
    ));
}

#[test]
fn parse_system_jiffies_reads_total_and_idle() {
    let parsed = parse_system_jiffies("cpu  10 20 30 40 50 60 70 80 90 100\n");
    let Ok((total, idle)) = parsed else {
        panic!("cpu stat line should parse");
    };
    assert_eq!(total, 550);
    assert_eq!(idle, 90);
}

#[test]
fn parse_daemon_jiffies_reads_utime_stime_with_spaces_in_comm() {
    let parsed = parse_daemon_jiffies("1234 (vantage worker) R 1 2 3 4 5 6 7 8 9 10 11 12 13");
    let Ok(total) = parsed else {
        panic!("self stat line should parse");
    };
    assert_eq!(total, 23);
}

fn why<T>(result: Result<T, MetricsError>) -> (&'static str, String) {
    match result {
        Err(MetricsError::ParseProc { path, reason }) => (path, reason),
        _ => panic!("parsing should fail"),
    }
}

#[test]
fn unreadable_stat_texts_are_explained() {
    let stat = "/proc/stat";
    assert_eq!(
        why(parse_system_jiffies("cpu0 1 2 3 4 5\n")),
        (stat, "missing aggregate cpu line".to_owned())
    );
    assert_eq!(
        why(parse_system_jiffies("intr 1\ncpu 1 x 3 4 5\n")),
        (stat, "invalid jiffy field 'x': invalid digit found in string".to_owned())
    );
    assert_eq!(
        why(parse_system_jiffies("cpu 1 2 3 4\r\n")),
        (stat, "expected at least 5 cpu fields, found 4".to_owned())
    );
    let own = "/proc/self/stat";
    assert_eq!(
        why(parse_daemon_jiffies("1 vantage R")),
        (own, "missing command terminator ')'".to_owned())
    );
    assert_eq!(
        why(parse_daemon_jiffies("1 (a) b) R 1 2")),
        (own, "expected at least 13 fields after command, found 3".to_owned())
    );
    assert_eq!(
        why(parse_daemon_jiffies("1 (a) R 1 2 3 4 5 6 7 8 9 10 x 12")),
        (own, "invalid utime field: invalid digit found in string".to_owned())
    );
    assert_eq!(
        why(parse_daemon_jiffies("1 (a) R 1 2 3 4 5 6 7 8 9 10 11 -1")),
        (own, "invalid stime field: invalid digit found in string".to_owned())
    );
}

#[test]
fn snapshots_come_from_both_texts() {
    let taken = ProcSnapshot::from_texts(
        "cpu 10 20 30 40 50\n",
        "1 (a) R 1 2 3 4 5 6 7 8 9 10 11 12",
    );
    let Ok(taken) = taken else {
        panic!("texts should parse");
    };
    assert_eq!(taken, fixture_snapshot(150, 60, 23));
    assert_eq!(why(ProcSnapshot::from_texts("", "")).0, "/proc/stat");
    assert_eq!(
        why(ProcSnapshot::from_texts("cpu 1 2 3 4 5", "")).0,
        "/proc/self/stat"
    );
}

#[test]
fn cpu_window_sample_uses_fixture_deltas() {
    let start = fixture_snapshot(1_000, 700, 15);
    let end = fixture_snapshot(1_100, 750, 20);

    let sample = compute_cpu_window_sample(start, end, 500);
    let Ok(sample) = sample else {
        panic!("fixture snapshot should compute");
    };

    assert_eq!(sample.window_ms, 500);
    let system_cpu_percent = f64::from(sample.system_cpu_basis_points) / 100.0;
    let daemon_cpu_percent = f64::from(sample.daemon_cpu_basis_points) / 100.0;
    assert!((system_cpu_percent - 50.0).abs() < f64::EPSILON);
    assert!((daemon_cpu_percent - 5.0).abs() < f64::EPSILON);
}

#[test]
fn cpu_window_sample_handles_zero_total_delta() {
    let snapshot = fixture_snapshot(10_000, 6_000, 100);
    let sample = compute_cpu_window_sample(snapshot, snapshot, 250);
    let Ok(sample) = sample else {
        panic!("zero delta should compute");
    };

    assert_eq!(sample.window_ms, 250);
    let system_cpu_percent = f64::from(sample.system_cpu_basis_points) / 100.0;
    let daemon_cpu_percent = f64::from(sample.daemon_cpu_basis_points) / 100.0;
    assert!((system_cpu_percent - 0.0).abs() < f64::EPSILON);
    assert!((daemon_cpu_percent - 0.0).abs() < f64::EPSILON);
}

#[test]
fn cpu_window_sample_handles_large_deltas_without_overflow_errors() {
    let start = fixture_snapshot(10, 5, 2);
    let end = fixture_snapshot(u64::from(u32::MAX) + 100, 10, 2);

    let sample = compute_cpu_window_sample(start, end, 500);
    let Ok(sample) = sample else {
        panic!("large deltas should compute");
    };

    let system_cpu_percent = f64::from(sample.system_cpu_basis_points) / 100.0;
    assert!(system_cpu_percent >= 0.0);
}

#[test]
fn ratios_are_rounded_down_and_bounded() {
    assert!(matches!(ratio_percent(1, 3), Ok(3_333)));
    assert!(matches!(ratio_percent(7, 0), Ok(0)));
    assert!(matches!(ratio_percent(u64::MAX, u64::MAX), Ok(10_000)));
    assert_eq!(
        why(ratio_percent(u64::MAX, 1)),
        (
            "cpu_window",
            "scaled percent does not fit in u32: out of range integral type conversion attempted"
                .to_owned()
        )
    );
    let Err(refused) = u32::try_from(u64::MAX) else {
        panic!("the number is out of range");
    };
    assert!(why(ratio_percent(u64::MAX, 1)).1.ends_with(&refused.to_string()));
    let start = fixture_snapshot(0, 0, 0);
    let end = fixture_snapshot(1, 0, u64::MAX);
    assert_eq!(why(compute_cpu_window_sample(start, end, 1)).0, "cpu_window");
    let Ok(sample) = compute_cpu_window_sample(start, start, u128::MAX) else {
        panic!("nothing of nothing is zero");
    };
    assert_eq!(sample.window_ms, u64::MAX);
}

#[test]
fn memory_in_use_is_read_from_meminfo() {
    let text = "MemTotal:       16000 kB\nMemFree:         1000 kB\nMemAvailable:    4000 kB\n";
    assert!(matches!(parse_memory_basis_points(text), Ok(7_500)));
    assert_eq!(
        why(parse_memory_basis_points("MemTotal: 16 kB\n")),
        ("/proc/meminfo", "missing field MemAvailable:".to_owned())
    );
    assert_eq!(
        why(parse_memory_basis_points("MemTotal: x kB\n")),
        (
            "/proc/meminfo",
            "invalid field MemTotal: invalid digit found in string".to_owned()
        )
    );
    assert!(matches!(
        parse_memory_basis_points("MemTotal: 1 kB\nMemAvailable: 9 kB\n"),
        Ok(0)
    ));
}

/// Maps that hold counters and nothing else.
struct CounterMaps(Option<Vec<(TenantKey, Counters)>>);

impl MapOps for CounterMaps {
    fn upsert_policy(&self, _tenant: TenantKey, _policy: Policy) -> Result<(), MapError> {
        Ok(())
    }

    fn delete_policy(&self, _tenant: TenantKey) -> Result<(), MapError> {
        Ok(())
    }

    fn get_policy(&self, _tenant: TenantKey) -> Result<Option<Policy>, MapError> {
        Ok(None)
    }

    fn upsert_runtime_policy(&self, _tenant: TenantKey, _policy: Policy) -> Result<(), MapError> {
        Ok(())
    }

    fn delete_runtime_policy(&self, _tenant: TenantKey) -> Result<(), MapError> {
        Ok(())
    }

    fn get_runtime_policy(&self, _tenant: TenantKey) -> Result<Option<Policy>, MapError> {
        Ok(None)
    }

    fn collect_policy_keys(&self) -> Result<Vec<TenantKey>, MapError> {
        Ok(Vec::new())
    }

    fn collect_runtime_policy_keys(&self) -> Result<Vec<TenantKey>, MapError> {
        Ok(Vec::new())
    }

    fn collect_counters(&self) -> Result<Vec<(TenantKey, Counters)>, MapError> {
        self.0
            .clone()
            .ok_or(MapError::MissingMap("COUNTERS_MAP"))
    }

    fn read_global_stats(&self) -> Result<GlobalStats, MapError> {
        Err(MapError::LockPoisoned)
    }

    fn seed_global_config(&self, _config: GlobalConfig) -> Result<(), MapError> {
        Ok(())
    }

    fn set_global_enabled(&self, _enabled: bool) -> Result<(), MapError> {
        Ok(())
    }

    fn get_global_enabled(&self) -> Result<bool, MapError> {
        Ok(true)
    }

    fn set_flow_keys_live(&self, _flow_keys_live: bool) -> Result<(), MapError> {
        Ok(())
    }

    fn get_flow_keys_live(&self) -> Result<bool, MapError> {
        Ok(true)
    }
}

/// The daemon's own metrics as a registry gathers and writes them.
fn gathered(daemon_up: i64, partial: u64, failures: u64) -> String {
    let registry = Registry::new();
    let up = IntGauge::new("vantage_daemon_up", "Daemon running state").unwrap();
    up.set(daemon_up);
    registry.register(Box::new(up)).unwrap();
    let partial_total = IntCounter::new(
        "vantage_partial_l7_policy_keys_total",
        "Total number of policy upserts with L7 selectors and wildcard L4 selectors",
    )
    .unwrap();
    partial_total.inc_by(partial);
    registry.register(Box::new(partial_total)).unwrap();
    let failures_total = IntCounter::new(
        "vantage_reconcile_failures_total",
        "Total number of non-fatal reconcile tick failures",
    )
    .unwrap();
    failures_total.inc_by(failures);
    registry.register(Box::new(failures_total)).unwrap();
    let mut payload = Vec::new();
    TextEncoder::new()
        .encode(&registry.gather(), &mut payload)
        .unwrap();
    String::from_utf8(payload).unwrap()
}

#[test]
fn own_metrics_are_written_as_a_registry_writes_them() {
    let mut metrics = MetricsState::new();
    assert_eq!(metrics.encode().unwrap(), gathered(1, 0, 0));
    metrics.count_partial_l7_policy_key();
    metrics.count_partial_l7_policy_key();
    metrics.count_reconcile_failure();
    assert_eq!(metrics.encode().unwrap(), gathered(1, 2, 1));
    assert_eq!(
        metrics.encode().unwrap(),
        "# HELP vantage_daemon_up Daemon running state\n\
         # TYPE vantage_daemon_up gauge\n\
         vantage_daemon_up 1\n\
         # HELP vantage_partial_l7_policy_keys_total Total number of policy upserts with L7 selectors and wildcard L4 selectors\n\
         # TYPE vantage_partial_l7_policy_keys_total counter\n\
         vantage_partial_l7_policy_keys_total 2\n\
         # HELP vantage_reconcile_failures_total Total number of non-fatal reconcile tick failures\n\
         # TYPE vantage_reconcile_failures_total counter\n\
         vantage_reconcile_failures_total 1\n"
    );
    for value in [1 << 53, (1 << 53) + 1, u64::MAX, 123_456_789_012_345] {
        let metrics = MetricsState {
            daemon_up: -7,
            partial_l7_policy_keys_total: value,
            reconcile_failures_total: 3,
        };
        assert_eq!(metrics.encode().unwrap(), gathered(-7, value, 3));
    }
    let largest = MetricsState {
        daemon_up: 1,
        partial_l7_policy_keys_total: 1 << 53,
        reconcile_failures_total: 0,
    };
    assert!(largest
        .encode()
        .unwrap()
        .contains("vantage_partial_l7_policy_keys_total 9007199254740992\n"));
}

#[test]
fn counts_start_over_after_the_largest() {
    let mut metrics = MetricsState {
        daemon_up: 1,
        partial_l7_policy_keys_total: u64::MAX,
        reconcile_failures_total: 0,
    };
    metrics.count_partial_l7_policy_key();
    assert_eq!(metrics.partial_l7_policy_keys_total, 0);
}

#[test]
fn the_payload_holds_own_and_tenant_metrics() {
    let row = (
        key(5, 0, 0),
        Counters {
            pass_pkts: 1,
            drop_pkts: 2,
            pass_bytes: 3,
            drop_bytes: 4,
        },
    );
    let maps = MapClient::new(Arc::new(CounterMaps(Some(vec![row]))));
    let mut metrics = MetricsState {
        daemon_up: 0,
        partial_l7_policy_keys_total: 0,
        reconcile_failures_total: 0,
    };
    let Ok(payload) = render_metrics_payload(&mut metrics, || maps.collect_counters(), true) else {
        panic!("metrics should render");
    };
    assert_eq!(metrics.daemon_up, 1);
    assert_eq!(payload, gathered(1, 0, 0) + &append_counter_metrics(&[row], true));

    let broken = MapClient::new(Arc::new(CounterMaps(None)));
    assert!(matches!(
        render_metrics(|| broken.collect_counters(), true),
        Err(MetricsError::MapRead(MapError::MissingMap("COUNTERS_MAP")))
    ));
    metrics.daemon_up = 0;
    assert!(render_metrics_payload(&mut metrics, || broken.collect_counters(), false).is_err());
    assert_eq!(metrics.daemon_up, 1);
}

#[test]
fn totals_are_capped_sums_in_any_order() {
    let row = |id: u64, n: u64| {
        (
            key(id, 0, 0),
            Counters {
                pass_pkts: n,
                drop_pkts: 2 * n,
                pass_bytes: u64::MAX - n,
                drop_bytes: 3 * n,
            },
        )
    };
    for rows in [
        [row(1, 1), row(2, 2), row(3, 3)],
        [row(3, 3), row(1, 1), row(2, 2)],
        [row(9, 3), row(9, 2), row(8, 1)],
    ] {
        let text = append_counter_metrics(&rows, false);
        for line in [
            "vantage_tenant_pass_packets 6\n",
            "vantage_tenant_drop_packets 12\n",
            "vantage_tenant_pass_bytes 18446744073709551615\n",
            "vantage_tenant_drop_bytes 18\n",
        ] {
            assert!(text.contains(line));
        }
    }
}
