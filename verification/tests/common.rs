//! Flow keys and the policy fallback chain.

use vantage::common::{
    HTTP_METHOD_POST, PolicyMatchLevel, TenantKey, fallback_policy_keys, fnv1a_32,
    policy_match_level,
};

#[test]
fn fallback_policy_keys_follow_deterministic_precedence() {
    let key = TenantKey {
        cgroup_id: 0x0a00_0001,
        http_path_hash: 0x1234_abcd,
        dst_port: 443,
        proto: 6,
        http_method: HTTP_METHOD_POST,
    };

    let (candidates, _, candidate_count) = fallback_policy_keys(key);
    assert_eq!(candidate_count, 5);

    let exact = candidates[0];
    let path = candidates[1];
    let method_path = candidates[2];
    let port_method_path = candidates[3];
    let full = candidates[4];

    assert_eq!(exact, key);
    assert_eq!(
        path,
        TenantKey {
            cgroup_id: key.cgroup_id,
            http_path_hash: 0,
            dst_port: key.dst_port,
            proto: key.proto,
            http_method: key.http_method,
        }
    );
    assert_eq!(
        method_path,
        TenantKey {
            cgroup_id: key.cgroup_id,
            http_path_hash: 0,
            dst_port: key.dst_port,
            proto: key.proto,
            http_method: 0,
        }
    );
    assert_eq!(
        port_method_path,
        TenantKey {
            cgroup_id: key.cgroup_id,
            http_path_hash: 0,
            dst_port: 0,
            proto: key.proto,
            http_method: 0,
        }
    );
    assert_eq!(
        full,
        TenantKey {
            cgroup_id: key.cgroup_id,
            http_path_hash: 0,
            dst_port: 0,
            proto: 0,
            http_method: 0,
        }
    );
    assert_eq!(
        policy_match_level(key, exact),
        Some(PolicyMatchLevel::Exact)
    );
    assert_eq!(
        policy_match_level(key, path),
        Some(PolicyMatchLevel::PathWildcard)
    );
    assert_eq!(
        policy_match_level(key, method_path),
        Some(PolicyMatchLevel::MethodPathWildcard)
    );
    assert_eq!(
        policy_match_level(key, port_method_path),
        Some(PolicyMatchLevel::PortMethodPathWildcard)
    );
    assert_eq!(
        policy_match_level(key, full),
        Some(PolicyMatchLevel::FullWildcard)
    );
}

#[test]
fn fallback_policy_keys_shorten_chain_for_existing_wildcards() {
    let key = TenantKey {
        cgroup_id: 0x0a00_0001,
        http_path_hash: 0,
        dst_port: 0,
        proto: 6,
        http_method: 0,
    };

    let (candidates, _, candidate_count) = fallback_policy_keys(key);
    assert_eq!(candidate_count, 2);
    assert_eq!(candidates[0], key);
    assert_eq!(
        candidates[1],
        TenantKey {
            cgroup_id: key.cgroup_id,
            http_path_hash: 0,
            dst_port: 0,
            proto: 0,
            http_method: 0,
        }
    );
}

#[test]
fn fallback_policy_keys_do_not_emit_duplicate_method_only_states() {
    let key = TenantKey {
        cgroup_id: 0x0a00_0001,
        http_path_hash: 0,
        dst_port: 0,
        proto: 0,
        http_method: HTTP_METHOD_POST,
    };

    let (candidates, _, candidate_count) = fallback_policy_keys(key);
    assert_eq!(candidate_count, 2);
    assert_eq!(candidates[0], key);
    assert_eq!(
        candidates[1],
        TenantKey {
            cgroup_id: key.cgroup_id,
            http_path_hash: 0,
            dst_port: 0,
            proto: 0,
            http_method: 0,
        }
    );
}

#[test]
fn fnv1a_hash_matches_known_vector() {
    assert_eq!(fnv1a_32(b"/predict"), 0xefb2_d4b7);
}
