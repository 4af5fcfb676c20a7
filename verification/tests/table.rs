//! Sorted tables and sets held against those of the standard library.

use std::collections::BTreeMap;

use vantage::common::{Counters, TenantKey};
use vantage::order::sort_rows;
use vantage::table::{KeySet, KeyedTable};

fn tenant(n: u64) -> TenantKey {
    TenantKey {
        cgroup_id: n % 3,
        http_path_hash: (n % 5) as u32,
        dst_port: (n % 2) as u16,
        proto: (n % 7) as u8,
        http_method: (n % 2) as u8,
    }
}

#[test]
fn a_table_behaves_like_a_sorted_map() {
    let mut table: KeyedTable<TenantKey, u64> = KeyedTable::new();
    let mut model: BTreeMap<TenantKey, u64> = BTreeMap::new();
    let mut n = 1_u64;
    for step in 0..2_000_u64 {
        n = n.wrapping_mul(6_364_136_223_846_793_005).wrapping_add(1_442_695_040_888_963_407);
        let key = tenant(n >> 33);
        if step % 3 == 0 {
            assert_eq!(table.remove(&key), model.remove(&key));
        } else {
            assert_eq!(table.insert(key, step), model.insert(key, step));
        }
        assert_eq!(table.len(), model.len());
        assert_eq!(table.get(&key), model.get(&key).copied());
        assert_eq!(table.contains_key(&key), model.contains_key(&key));
    }
    let rows: Vec<(TenantKey, u64)> = model.into_iter().collect();
    assert_eq!(table.rows(), &rows);
    assert_eq!(table.clone().rows(), &rows);
}

#[test]
fn a_set_behaves_like_a_sorted_set() {
    let mut set: KeySet<TenantKey> = KeySet::new();
    let mut model: BTreeMap<u64, TenantKey> = BTreeMap::new();
    for step in 0..500_u64 {
        let id = step * step % 97;
        let key = TenantKey {
            cgroup_id: id,
            ..tenant(0)
        };
        if step % 4 == 0 {
            assert_eq!(set.remove(&key), model.remove(&id).is_some());
        } else {
            assert_eq!(set.insert(key), model.insert(id, key).is_none());
        }
        assert_eq!(set.contains(&key), model.contains_key(&id));
        assert_eq!(set.len(), model.len());
    }
    let keys: Vec<TenantKey> = model.into_values().collect();
    assert_eq!(set.keys(), keys);
    assert_eq!(set.clone().keys(), keys);
}

#[test]
fn keys_are_ordered_field_by_field() {
    let base = TenantKey {
        cgroup_id: 5,
        http_path_hash: 5,
        dst_port: 5,
        proto: 5,
        http_method: 5,
    };
    let all = [
        base,
        TenantKey { cgroup_id: 4, ..base },
        TenantKey { http_path_hash: 4, ..base },
        TenantKey { dst_port: 6, ..base },
        TenantKey { proto: 4, ..base },
        TenantKey { http_method: 6, ..base },
    ];
    let mut set = KeySet::new();
    for key in all {
        set.insert(key);
    }
    let mut sorted = all.to_vec();
    sorted.sort();
    assert_eq!(set.keys(), sorted);
}

#[test]
fn sorting_keeps_every_row() {
    let row = |id: u64, pass_pkts: u64| {
        (
            TenantKey {
                cgroup_id: id,
                http_path_hash: 0,
                dst_port: 0,
                proto: 0,
                http_method: 0,
            },
            Counters {
                pass_pkts,
                drop_pkts: 0,
                pass_bytes: 0,
                drop_bytes: 0,
            },
        )
    };
    let rows = [row(3, 1), row(1, 2), row(3, 3), row(2, 4)];
    let sorted = sort_rows(&rows);
    let ids: Vec<u64> = sorted.iter().map(|found| found.0.cgroup_id).collect();
    assert_eq!(ids, vec![1, 2, 3, 3]);
    let mut counts: Vec<u64> = sorted.iter().map(|found| found.1.pass_pkts).collect();
    counts.sort();
    assert_eq!(counts, vec![1, 2, 3, 4]);

    assert!(sort_rows::<(TenantKey, Counters)>(&[]).is_empty());
    let many: Vec<(TenantKey, Counters)> = (0..1_000).map(|n| row(n * 7_919 % 1_009, n)).collect();
    let mut expected = many.clone();
    expected.sort_by_key(|found| found.0.cgroup_id);
    assert_eq!(sort_rows(&many), expected);
}
