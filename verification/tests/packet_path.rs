//! Packet parsing, admission and accounting.

use vantage::bucket::{apply_token_bucket, refill_tokens, NANOS_PER_SEC};
use vantage::common::{
    fallback_policy_keys, Policy, PolicyMatchLevel, TenantKey, TokenState, HTTP_METHOD_GET,
    HTTP_METHOD_POST, KERNEL_DROP_EVENT_SAMPLE_EVERY,
};
use vantage::packet::{
    parse_http_method_and_path_hash, parse_l4_dst_port_value, ETHERNET_HEADER_LEN,
    HTTP_PREFIX_MAX_BYTES, IPPROTO_TCP, IPPROTO_UDP, IPV4_MIN_HEADER_LEN, L4_DST_PORT_REL_OFFSET,
};

fn policy(rate_tokens_per_sec: u64, burst_tokens: u64) -> Policy {
    Policy {
        rate_tokens_per_sec,
        burst_tokens,
        enabled: 1,
        _pad: [0; 7],
    }
}

#[test]
fn no_rate_never_refills() {
    let policy = policy(0, 8);
    let mut state = TokenState {
        tokens: 0,
        last_refill_ns: 1,
    };

    refill_tokens(1 + (5 * NANOS_PER_SEC), &policy, &mut state);

    assert_eq!(state.tokens, 0);
}

#[test]
fn refill_respects_rate_and_burst_cap() {
    let policy = policy(10, 5);
    let mut state = TokenState {
        tokens: 1,
        last_refill_ns: 0,
    };

    refill_tokens(NANOS_PER_SEC, &policy, &mut state);

    assert_eq!(state.tokens, 5);
}

#[test]
fn token_bucket_drops_when_empty() {
    let policy = policy(1, 1);
    let mut state = TokenState {
        tokens: 0,
        last_refill_ns: NANOS_PER_SEC,
    };

    let passed = apply_token_bucket(NANOS_PER_SEC, &policy, &mut state);

    assert!(!passed);
}

#[test]
fn kernel_drop_event_sampling_constant_is_fixed() {
    assert_eq!(KERNEL_DROP_EVENT_SAMPLE_EVERY, 64);
    assert!(KERNEL_DROP_EVENT_SAMPLE_EVERY.is_power_of_two());
}

/// The candidates for a key, by their match levels.
fn chain_slots(
    key: TenantKey,
) -> (
    TenantKey,
    Option<TenantKey>,
    Option<TenantKey>,
    Option<TenantKey>,
    Option<TenantKey>,
) {
    let (candidates, levels, count) = fallback_policy_keys(key);
    let at = |level: PolicyMatchLevel| {
        (0..count)
            .find(|&index| levels[index] == level)
            .map(|index| candidates[index])
    };
    let Some(exact) = at(PolicyMatchLevel::Exact) else {
        panic!("the exact key comes first");
    };
    (
        exact,
        at(PolicyMatchLevel::PathWildcard),
        at(PolicyMatchLevel::MethodPathWildcard),
        at(PolicyMatchLevel::PortMethodPathWildcard),
        at(PolicyMatchLevel::FullWildcard),
    )
}

#[test]
fn fallback_policy_keys_use_exact_then_path_then_port_method_path_then_full_wildcard() {
    let key = TenantKey {
        cgroup_id: 0x0a00_0001,
        http_path_hash: 0x1234,
        dst_port: 443,
        proto: IPPROTO_TCP,
        http_method: 0,
    };

    let (exact, path_wildcard, method_path_wildcard, port_method_path_wildcard, full_wildcard) =
        chain_slots(key);

    assert_eq!(exact, key);
    assert_eq!(method_path_wildcard, None);
    assert_eq!(
        path_wildcard,
        Some(TenantKey {
            cgroup_id: key.cgroup_id,
            http_path_hash: 0,
            dst_port: key.dst_port,
            proto: IPPROTO_TCP,
            http_method: 0,
        })
    );
    assert_eq!(
        port_method_path_wildcard,
        Some(TenantKey {
            cgroup_id: key.cgroup_id,
            http_path_hash: 0,
            dst_port: 0,
            proto: IPPROTO_TCP,
            http_method: 0,
        })
    );
    assert_eq!(
        full_wildcard,
        Some(TenantKey {
            cgroup_id: key.cgroup_id,
            http_path_hash: 0,
            dst_port: 0,
            proto: 0,
            http_method: 0,
        })
    );
}

#[test]
fn fallback_policy_keys_skip_wildcards_when_key_is_already_wildcard() {
    let key = TenantKey {
        cgroup_id: 0x0a00_0001,
        http_path_hash: 0,
        dst_port: 0,
        proto: 0,
        http_method: 0,
    };

    let (_exact, path_wildcard, method_path_wildcard, port_method_path_wildcard, full_wildcard) =
        chain_slots(key);

    assert_eq!(path_wildcard, None);
    assert_eq!(method_path_wildcard, None);
    assert_eq!(port_method_path_wildcard, None);
    assert_eq!(full_wildcard, None);
}

#[test]
fn parse_l4_dst_port_requires_complete_transport_header() {
    let l4_offset = ETHERNET_HEADER_LEN + IPV4_MIN_HEADER_LEN;
    let packet_len = l4_offset + L4_DST_PORT_REL_OFFSET + 1;
    let parsed =
        parse_l4_dst_port_value(IPPROTO_TCP, packet_len, l4_offset, Some(8080_u16.to_be_bytes()));
    assert_eq!(parsed, None);
}

#[test]
fn parse_l4_dst_port_extracts_port_for_tcp_udp() {
    let l4_offset = ETHERNET_HEADER_LEN + IPV4_MIN_HEADER_LEN;
    let packet_len = l4_offset + L4_DST_PORT_REL_OFFSET + 2;
    let tcp =
        parse_l4_dst_port_value(IPPROTO_TCP, packet_len, l4_offset, Some(443_u16.to_be_bytes()));
    let udp = parse_l4_dst_port_value(IPPROTO_UDP, packet_len, l4_offset, Some(53_u16.to_be_bytes()));
    assert_eq!(tcp, Some(443));
    assert_eq!(udp, Some(53));
}

#[test]
fn parse_l4_dst_port_uses_wildcard_for_non_tcp_udp() {
    let l4_offset = ETHERNET_HEADER_LEN + IPV4_MIN_HEADER_LEN;
    let packet_len = l4_offset;
    let parsed = parse_l4_dst_port_value(1, packet_len, l4_offset, None);
    assert_eq!(parsed, Some(0));
}

#[test]
fn parses_http_get_path_hash() {
    let mut prefix = [0_u8; HTTP_PREFIX_MAX_BYTES];
    let req = b"GET /predict HTTP/1.1";
    prefix[..req.len()].copy_from_slice(req);
    let parsed = parse_http_method_and_path_hash(&prefix, req.len());
    assert_eq!(parsed, Some((HTTP_METHOD_GET, 0xefb2_d4b7)));
}

#[test]
fn parses_http_post_path_hash() {
    let mut prefix = [0_u8; HTTP_PREFIX_MAX_BYTES];
    let req = b"POST /score HTTP/1.1";
    prefix[..req.len()].copy_from_slice(req);
    let parsed = parse_http_method_and_path_hash(&prefix, req.len());
    assert_eq!(parsed, Some((HTTP_METHOD_POST, 0xf7bd_07cc)));
}

#[test]
fn rejects_non_http_prefix_and_missing_space() {
    let mut prefix = [0_u8; HTTP_PREFIX_MAX_BYTES];
    let req = b"PRI * HTTP/2.0";
    prefix[..req.len()].copy_from_slice(req);
    assert_eq!(parse_http_method_and_path_hash(&prefix, req.len()), None);

    let mut prefix2 = [0_u8; HTTP_PREFIX_MAX_BYTES];
    let req2 = b"GET /predict";
    prefix2[..req2.len()].copy_from_slice(req2);
    assert_eq!(parse_http_method_and_path_hash(&prefix2, req2.len()), None);
}

