//! Tenant references and labels.

use vantage::common::TenantKey;
use vantage::tenant::{
    FlowProto, TenantRef, cgroup_id_label, compute_http_path_hash, http_method_label,
    normalized_flow_key, path_hash_label, proto_label,
};

#[test]
fn parses_canonical_cgroup_prefix() {
    let parsed = TenantRef::parse("cg:167838211");
    let Ok(tenant) = parsed else {
        panic!("tenant parsing should succeed");
    };
    assert_eq!(
        tenant,
        TenantRef {
            cgroup_id: 167_838_211,
            proto: None,
            dst_port: None,
            http_method: None,
            http_path_hash: None,
        }
    );
}

#[test]
fn parses_bare_u64() {
    let parsed = TenantRef::parse("167838211");
    let Ok(tenant) = parsed else {
        panic!("tenant parsing should succeed");
    };
    assert_eq!(
        tenant,
        TenantRef {
            cgroup_id: 167_838_211,
            proto: None,
            dst_port: None,
            http_method: None,
            http_path_hash: None,
        }
    );
}

#[test]
fn rejects_invalid_tenant() {
    let parsed = TenantRef::parse("not-a-tenant");
    assert!(parsed.is_err(), "invalid tenant should fail to parse");
}

#[test]
fn converts_tenant_ref_to_key() {
    let tenant = TenantRef {
        cgroup_id: 42,
        proto: None,
        dst_port: None,
        http_method: None,
        http_path_hash: None,
    };
    assert_eq!(
        tenant.to_tenant_key(),
        TenantKey {
            cgroup_id: 42,
            http_path_hash: 0,
            dst_port: 0,
            proto: 0,
            http_method: 0
        }
    );
}

#[test]
fn converts_flow_aware_tenant_ref_to_key() {
    let base = TenantRef::parse("cg:167838211");
    let Ok(base) = base else {
        panic!("tenant parsing should succeed");
    };
    let tenant = base.with_flow(Some(FlowProto::Tcp), Some(443));
    let Ok(tenant) = tenant else {
        panic!("flow override should succeed");
    };

    assert_eq!(
        tenant.to_tenant_key(),
        TenantKey {
            cgroup_id: 167_838_211,
            http_path_hash: 0,
            dst_port: 443,
            proto: 6,
            http_method: 0
        }
    );
}

#[test]
fn rejects_proto_without_dst_port() {
    let base = TenantRef::parse("42");
    let Ok(base) = base else {
        panic!("tenant parsing should succeed");
    };
    let err = base.with_flow(Some(FlowProto::Udp), None);

    assert!(err.is_err(), "proto-only flow should be rejected");
}

#[test]
fn parses_proto_case_insensitively() {
    let parsed = FlowProto::parse("TCP");
    let Ok(proto) = parsed else {
        panic!("proto parsing should succeed");
    };
    assert_eq!(proto, FlowProto::Tcp);
}

#[test]
fn normalizes_http_method_and_path_hash() {
    let base = TenantRef::parse("42");
    let Ok(base) = base else {
        panic!("tenant parsing should succeed");
    };
    let selector = base.with_http_selectors(Some("POST"), Some("/predict"), None);
    let Ok(selector) = selector else {
        panic!("http selector parsing should succeed");
    };
    assert_eq!(
        selector.to_tenant_key(),
        TenantKey {
            cgroup_id: 42,
            http_path_hash: compute_http_path_hash("/predict"),
            dst_port: 0,
            proto: 0,
            http_method: 2,
        }
    );
}

#[test]
fn rejects_invalid_http_method() {
    let base = TenantRef::parse("42");
    let Ok(base) = base else {
        panic!("tenant parsing should succeed");
    };
    let parsed = base.with_http_selectors(Some("trace"), None, None);
    assert!(parsed.is_err(), "invalid method should fail");
}

#[test]
fn rejects_http_method_not_supported_by_kernel_parser() {
    let base = TenantRef::parse("42");
    let Ok(base) = base else {
        panic!("tenant parsing should succeed");
    };
    let parsed = base.with_http_selectors(Some("put"), None, None);
    assert!(parsed.is_err(), "unsupported method should fail");
}

#[test]
fn rejects_mismatched_http_path_and_hash() {
    let base = TenantRef::parse("42");
    let Ok(base) = base else {
        panic!("tenant parsing should succeed");
    };
    let parsed = base.with_http_selectors(Some("get"), Some("/predict"), Some(1));
    assert!(parsed.is_err(), "mismatched path and hash should fail");
}

#[test]
fn labels_proto_and_cgroup_for_observability() {
    assert_eq!(cgroup_id_label(167_838_211), "167838211");
    assert_eq!(proto_label(0), "*");
    assert_eq!(proto_label(6), "tcp");
    assert_eq!(proto_label(17), "udp");
    assert_eq!(proto_label(99), "other");
}

#[test]
fn builds_normalized_flow_key() {
    let tenant = TenantKey {
        cgroup_id: 167_838_211,
        http_path_hash: 0x1234_abcd,
        dst_port: 443,
        proto: 6,
        http_method: 0,
    };
    assert_eq!(
        normalized_flow_key(tenant),
        "cgroup=167838211|proto=tcp|dport=443|method=*|path_hash=0x1234abcd"
    );
}

#[test]
fn computes_fnv1a_http_path_hash() {
    assert_eq!(compute_http_path_hash("/predict"), 0xefb2_d4b7);
}

#[test]
fn wildcard_hash_label_is_star() {
    assert_eq!(path_hash_label(0), "*");
}

#[test]
fn labels_http_method_for_observability() {
    assert_eq!(http_method_label(0), "*");
    assert_eq!(http_method_label(1), "get");
    assert_eq!(http_method_label(2), "post");
    assert_eq!(http_method_label(255), "other");
}
