//! Whole packets through parsing, policy lookup, admission and accounting.

use std::cell::RefCell;
use std::collections::BTreeMap;

use vantage::bucket::{apply_token_bucket, initial_locked_state, initial_state, NANOS_PER_SEC};
use vantage::common::{
    fnv1a_32, ChainReads, Counters, DropReason, GlobalConfig, GlobalStats, LockedTokenState, Policy,
    ReasonBuckets, TenantKey, TokenState,
};
use vantage::control_api::{request_key, FlowSelectors};
use vantage::datapath::{
    decide_and_store_state, is_filter_enabled, is_flow_keys_live, maybe_emit_drop_event,
    read_policy_with_dual_fallback, read_policy_with_fallback, record_outcome, try_vantage_tc,
    update_counters, update_global_stats, PacketOutcome, TC_ACT_OK, TC_ACT_SHOT,
};
use vantage::packet::{
    extract_cgroup_id, flow_key_from_packet, load_prefix, parse_l2_ipv4, parse_l3_ipv4,
    parse_l4_dst_port, parse_l7_http_selector, parse_l7_payload_offset, parse_tcp_payload_offset,
    FLOW_KEY_WINDOW, HTTP_PREFIX_MAX_BYTES, IPPROTO_TCP, IPPROTO_UDP,
};

/// An IPv4 packet with a header of `ihl` words and the given transport part.
fn packet(ihl: u8, proto: u8, transport: &[u8]) -> Vec<u8> {
    let mut bytes = vec![0_u8; 14];
    bytes[12] = 0x08;
    let mut ip = vec![0_u8; usize::from(ihl) * 4];
    ip[0] = 0x40 | ihl;
    ip[9] = proto;
    bytes.extend(ip);
    bytes.extend_from_slice(transport);
    bytes
}

/// A TCP segment to `port` with a header of `words` words.
fn tcp(port: u16, words: u8, payload: &[u8]) -> Vec<u8> {
    let mut segment = vec![0_u8; usize::from(words) * 4];
    segment[2..4].copy_from_slice(&port.to_be_bytes());
    segment[12] = words << 4;
    segment.extend_from_slice(payload);
    segment
}

fn key(cgroup_id: u64, proto: u8, dst_port: u16, http_method: u8, path: &[u8]) -> TenantKey {
    TenantKey {
        cgroup_id,
        http_path_hash: if path.is_empty() { 0 } else { fnv1a_32(path) },
        dst_port,
        proto,
        http_method,
    }
}

fn read_key(bytes: &[u8]) -> Option<TenantKey> {
    flow_key_from_packet(7, bytes, bytes.len(), true)
}

#[test]
fn requests_give_full_flow_keys() {
    let get = packet(5, IPPROTO_TCP, &tcp(443, 5, b"GET /predict HTTP/1.1\r\n"));
    assert_eq!(read_key(&get), Some(key(7, 6, 443, 1, b"/predict")));
    let post = packet(6, IPPROTO_TCP, &tcp(80, 8, b"POST /score HTTP/1.1\r\n"));
    assert_eq!(read_key(&post), Some(key(7, 6, 80, 2, b"/score")));
    let mut datagram = vec![0_u8; 8];
    datagram[3] = 53;
    datagram.extend_from_slice(b"GET / x");
    assert_eq!(
        read_key(&packet(5, IPPROTO_UDP, &datagram)),
        Some(key(7, 17, 53, 1, b"/"))
    );
}

#[test]
fn other_packets_give_coarser_keys() {
    let plain = packet(5, IPPROTO_TCP, &tcp(22, 5, b"SSH-2.0"));
    assert_eq!(read_key(&plain), Some(key(7, 6, 22, 0, b"")));
    let bare = packet(5, IPPROTO_TCP, &tcp(22, 5, b""));
    assert_eq!(read_key(&bare), Some(key(7, 6, 22, 0, b"")));
    let icmp = packet(5, 1, &[0; 8]);
    assert_eq!(read_key(&icmp), Some(key(7, 1, 0, 0, b"")));
    assert_eq!(
        flow_key_from_packet(7, &plain, plain.len(), false),
        Some(key(7, 0, 0, 0, b""))
    );
}

#[test]
fn malformed_packets_have_no_key() {
    let good = packet(5, IPPROTO_TCP, &tcp(22, 5, b""));
    assert_eq!(flow_key_from_packet(0, &good, good.len(), true), None);
    assert_eq!(extract_cgroup_id(0), None);
    assert_eq!(extract_cgroup_id(3), Some(3));
    let mut ipv6 = good.clone();
    ipv6[12] = 0x86;
    assert_eq!(read_key(&ipv6), None);
    let mut version = good.clone();
    version[14] = 0x55;
    assert_eq!(read_key(&version), None);
    let mut short_header = good.clone();
    short_header[14] = 0x44;
    assert_eq!(read_key(&short_header), None);
    let mut long_header = good.clone();
    long_header[14] = 0x4f;
    assert_eq!(read_key(&long_header), None);
    assert_eq!(read_key(&good[..33]), None);
    assert_eq!(read_key(&good[..37]), None);
    assert_eq!(flow_key_from_packet(7, &good[..20], good.len(), true), None);
}

#[test]
fn offsets_follow_the_headers() {
    let bytes = packet(6, IPPROTO_TCP, &tcp(443, 7, b"x"));
    assert_eq!(parse_l2_ipv4(&bytes, bytes.len()), Some(14));
    assert_eq!(parse_l3_ipv4(&bytes, bytes.len(), 14), Some((6, 38)));
    assert_eq!(parse_l4_dst_port(&bytes, bytes.len(), 6, 38), Some(443));
    assert_eq!(parse_tcp_payload_offset(&bytes, bytes.len(), 38), Some(66));
    assert_eq!(parse_l7_payload_offset(&bytes, bytes.len(), 6, 38), Some(66));
    assert_eq!(parse_l7_payload_offset(&bytes, bytes.len(), 17, 38), Some(46));
    assert_eq!(parse_l7_payload_offset(&bytes, bytes.len(), 1, 38), None);
    assert_eq!(parse_l7_http_selector(&bytes, bytes.len(), 6, 38), (0, 0));
    let mut short = bytes.clone();
    short[38 + 12] = 0x40;
    assert_eq!(parse_tcp_payload_offset(&short, short.len(), 38), None);
    short[38 + 12] = 0xf0;
    assert_eq!(parse_tcp_payload_offset(&short, short.len(), 38), None);
}

#[test]
fn a_prefix_is_read_whole_or_not_at_all() {
    let bytes = [7_u8; 200];
    let mut prefix = [0_u8; HTTP_PREFIX_MAX_BYTES];
    assert_eq!(load_prefix(&bytes, 200, 190, &mut prefix), Some(10));
    assert_eq!(&prefix[..11], &[7, 7, 7, 7, 7, 7, 7, 7, 7, 7, 0]);
    let mut prefix = [0_u8; HTTP_PREFIX_MAX_BYTES];
    assert_eq!(load_prefix(&bytes, 200, 10, &mut prefix), Some(128));
    let mut prefix = [0_u8; HTTP_PREFIX_MAX_BYTES];
    assert_eq!(load_prefix(&bytes, 300, 190, &mut prefix), None);
    assert_eq!(prefix, [0_u8; HTTP_PREFIX_MAX_BYTES]);
}

#[test]
fn long_paths_are_not_hashed() {
    let mut request = b"GET /".to_vec();
    request.extend(std::iter::repeat(b'a').take(62));
    request.push(b' ');
    let fits = packet(5, IPPROTO_TCP, &tcp(80, 5, &request));
    assert_eq!(read_key(&fits).map(|found| found.http_method), Some(1));
    request.insert(5, b'a');
    let too_long = packet(5, IPPROTO_TCP, &tcp(80, 5, &request));
    assert_eq!(read_key(&too_long).map(|found| found.http_method), Some(0));
}

#[test]
fn bytes_beyond_the_window_do_not_matter() {
    let mut request = b"GET /a HTTP/1.1 ".to_vec();
    request.extend(vec![b'x'; 400]);
    let mut one = packet(15, IPPROTO_TCP, &tcp(80, 15, &request));
    let first = read_key(&one);
    for byte in one.iter_mut().skip(FLOW_KEY_WINDOW) {
        *byte = !*byte;
    }
    assert_eq!(read_key(&one), first);
    assert_eq!(first, Some(key(7, 6, 80, 1, b"/a")));
}

#[test]
fn switches_are_on_when_unset() {
    assert!(is_filter_enabled(None));
    assert!(is_flow_keys_live(None));
    let config = GlobalConfig {
        enabled: 0,
        flow_keys_live: 0,
        _pad: [0; 6],
    };
    assert!(!is_filter_enabled(Some(config)));
    assert!(!is_flow_keys_live(Some(config)));
}

#[test]
fn runtime_entries_go_before_base_entries() {
    let requested = key(7, 6, 443, 1, b"/a");
    let exact = Policy::plain(1, 1, true);
    let wide = Policy::plain(2, 2, true);
    let mut runtime = BTreeMap::new();
    let mut base = BTreeMap::new();
    base.insert(requested, exact);
    let find = |runtime: &BTreeMap<TenantKey, Policy>, base: &BTreeMap<TenantKey, Policy>| {
        read_policy_with_dual_fallback(
            ChainReads::each(|k: TenantKey| runtime.get(&k).copied()),
            ChainReads::each(|k: TenantKey| base.get(&k).copied()),
            requested,
        )
    };
    assert_eq!(find(&runtime, &base), Some(exact));
    runtime.insert(key(7, 0, 0, 0, b""), wide);
    assert_eq!(find(&runtime, &base), Some(wide));
    runtime.clear();
    base.clear();
    base.insert(key(7, 6, 0, 0, b""), wide);
    assert_eq!(find(&runtime, &base), Some(wide));
    base.clear();
    assert_eq!(find(&runtime, &base), None);
    let asked = RefCell::new(Vec::new());
    let none = read_policy_with_fallback(
        ChainReads::each(|k: TenantKey| {
            asked.borrow_mut().push(k);
            None
        }),
        requested,
    );
    assert_eq!(none, None);
    assert_eq!(
        *asked.borrow(),
        vec![
            requested,
            key(7, 6, 443, 1, b""),
            key(7, 6, 443, 0, b""),
            key(7, 6, 0, 0, b""),
            key(7, 0, 0, 0, b""),
        ]
    );
}

#[test]
fn a_lookup_ends_at_the_first_policy() {
    let requested = key(7, 6, 443, 1, b"/a");
    let found = Policy::plain(3, 3, true);
    let asked = RefCell::new(Vec::new());
    let second = key(7, 6, 443, 1, b"");
    let in_force = read_policy_with_dual_fallback(
        ChainReads::each(|k: TenantKey| {
            asked.borrow_mut().push(k);
            (k == second).then_some(found)
        }),
        ChainReads::each(|_: TenantKey| -> Option<Policy> { panic!("the runtime map has one") }),
        requested,
    );
    assert_eq!(in_force, Some(found));
    assert_eq!(*asked.borrow(), vec![requested, second]);
}

/// A store of buckets in which an insertion never replaces an entry.
struct Buckets(RefCell<BTreeMap<TenantKey, LockedTokenState>>);

impl Buckets {
    fn new() -> Self {
        Buckets(RefCell::new(BTreeMap::new()))
    }

    fn apply(&self, tenant: TenantKey, now: u64, policy: Policy) -> Option<bool> {
        let mut entries = self.0.borrow_mut();
        let locked = entries.get_mut(&tenant)?;
        Some(apply_token_bucket(now, &policy, &mut locked.state))
    }

    fn insert_if_absent(&self, tenant: TenantKey, fresh: LockedTokenState) {
        self.0.borrow_mut().entry(tenant).or_insert(fresh);
    }

    fn decide(&self, tenant: TenantKey, now: u64, policy: &Policy) -> Result<bool, ()> {
        decide_and_store_state(
            |k: TenantKey, t: u64, p: Policy| self.apply(k, t, p),
            |k: TenantKey, fresh: LockedTokenState| self.insert_if_absent(k, fresh),
            |k: TenantKey, t: u64, p: Policy| self.apply(k, t, p),
            tenant,
            now,
            policy,
        )
    }
}

#[test]
fn a_full_bucket_admits_its_burst() {
    let buckets = Buckets::new();
    let tenant = key(7, 0, 0, 0, b"");
    let policy = Policy::plain(10, 3, true);
    let admitted: Vec<bool> = (0..5)
        .map(|_| buckets.decide(tenant, 100, &policy) == Ok(true))
        .collect();
    assert_eq!(admitted, vec![true, true, true, false, false]);
    assert_eq!(
        buckets.decide(tenant, 100 + NANOS_PER_SEC / 10, &policy),
        Ok(true)
    );
    assert_eq!(
        buckets.decide(tenant, 100 + NANOS_PER_SEC / 10, &policy),
        Ok(false)
    );
    let none = Policy::plain(10, 0, true);
    assert_eq!(buckets.decide(tenant, 100 + 9 * NANOS_PER_SEC, &none), Ok(false));
    let off = Policy::plain(0, 0, false);
    assert_eq!(buckets.decide(tenant, 100 + 9 * NANOS_PER_SEC, &off), Ok(true));
}

#[test]
fn admissions_are_bounded_over_time() {
    let policy = Policy::plain(7, 4, true);
    let mut state = initial_state(&policy, 0);
    let mut admitted = 0_u64;
    let end = 3 * NANOS_PER_SEC;
    let mut now = 0;
    while now <= end {
        if apply_token_bucket(now, &policy, &mut state) {
            admitted += 1;
        }
        assert!(state.tokens <= policy.burst_tokens);
        now += 1_000_000;
    }
    assert!(admitted <= policy.burst_tokens + end / (NANOS_PER_SEC / 7));
    assert!(admitted >= 20);
}

#[test]
fn a_store_without_room_fails() {
    let decision = decide_and_store_state(
        |_: TenantKey, _: u64, _: Policy| None,
        |_: TenantKey, _: LockedTokenState| (),
        |_: TenantKey, _: u64, _: Policy| None,
        key(1, 0, 0, 0, b""),
        1,
        &Policy::plain(1, 1, true),
    );
    assert_eq!(decision, Err(()));
}

#[test]
fn a_packet_is_charged_once() {
    let decision = decide_and_store_state(
        |_: TenantKey, _: u64, _: Policy| Some(true),
        |_: TenantKey, _: LockedTokenState| panic!("there is a bucket"),
        |_: TenantKey, _: u64, _: Policy| panic!("the packet was charged"),
        key(1, 0, 0, 0, b""),
        1,
        &Policy::plain(1, 1, true),
    );
    assert_eq!(decision, Ok(true));
}

/// Two packets that both found no bucket, one step of each after the other.
#[test]
fn first_touch_parallel_updates_require_noexist_insert_semantics() {
    let policy = Policy {
        rate_tokens_per_sec: 0,
        burst_tokens: 1,
        enabled: 1,
        _pad: [0; 7],
    };
    let now_ns = 123_u64;

    let mut overwritten: Option<TokenState> = None;
    let mut old_passes = 0;
    for _ in 0..2 {
        let mut local = initial_state(&policy, now_ns);
        old_passes += usize::from(apply_token_bucket(now_ns, &policy, &mut local));
        overwritten = Some(local);
    }
    assert!(overwritten.is_some());
    assert_eq!(
        old_passes, 2,
        "legacy overwrite path can over-admit on first touch"
    );

    let buckets = Buckets::new();
    let tenant = key(1, 0, 0, 0, b"");
    let mut new_passes = 0;
    for _ in 0..2 {
        assert_eq!(buckets.apply(tenant, now_ns, policy), None);
    }
    for _ in 0..2 {
        buckets.insert_if_absent(tenant, initial_locked_state(&policy, now_ns));
    }
    for _ in 0..2 {
        new_passes += usize::from(buckets.apply(tenant, now_ns, policy) == Some(true));
    }
    assert_eq!(
        new_passes, 1,
        "BPF_NOEXIST-style insert prevents first-touch leakage"
    );
}

fn judge(config: Option<GlobalConfig>, bytes: &[u8], policy: Option<Policy>) -> PacketOutcome {
    let buckets = Buckets::new();
    try_vantage_tc(
        config,
        50,
        7,
        bytes,
        bytes.len(),
        ChainReads::each(|_: TenantKey| None),
        ChainReads::each(|_: TenantKey| policy),
        |k: TenantKey, t: u64, p: Policy| buckets.apply(k, t, p),
        |k: TenantKey, fresh: LockedTokenState| buckets.insert_if_absent(k, fresh),
        |k: TenantKey, t: u64, p: Policy| buckets.apply(k, t, p),
    )
}

#[test]
fn packets_pass_unless_an_enabled_policy_stops_them() {
    let bytes = packet(5, IPPROTO_TCP, &tcp(22, 5, b""));
    let found = key(7, 6, 22, 0, b"");
    let off = GlobalConfig {
        enabled: 0,
        flow_keys_live: 1,
        _pad: [0; 6],
    };
    assert_eq!(judge(Some(off), &bytes, None), PacketOutcome::Ignored);
    assert_eq!(judge(None, &bytes[..10], None), PacketOutcome::Unparsed);
    assert_eq!(judge(None, &bytes, None), PacketOutcome::Unmatched(found));
    assert_eq!(
        judge(None, &bytes, Some(Policy::plain(0, 0, false))),
        PacketOutcome::Unlimited(found)
    );
    assert_eq!(
        judge(None, &bytes, Some(Policy::plain(1, 1, true))),
        PacketOutcome::Admitted(found)
    );
    assert_eq!(
        judge(None, &bytes, Some(Policy::plain(1, 0, true))),
        PacketOutcome::Limited(found)
    );
    for outcome in [
        PacketOutcome::Ignored,
        PacketOutcome::Unparsed,
        PacketOutcome::Unmatched(found),
        PacketOutcome::Unlimited(found),
        PacketOutcome::Admitted(found),
    ] {
        assert_eq!(outcome.verdict(), TC_ACT_OK);
    }
    assert_eq!(PacketOutcome::Limited(found).verdict(), TC_ACT_SHOT);
    assert_eq!(PacketOutcome::StoreFailed(found).verdict(), TC_ACT_SHOT);
    assert_eq!(PacketOutcome::Unparsed.key(), None);
    assert_eq!(PacketOutcome::StoreFailed(found).key(), Some(found));
}

fn no_stats() -> GlobalStats {
    GlobalStats {
        pass_pkts: 0,
        drop_pkts: 0,
        pass_bytes: 0,
        drop_bytes: 0,
        reasons: ReasonBuckets {
            no_tokens: 0,
            no_policy: 0,
            parse_fail: 0,
        },
    }
}

#[test]
fn counters_hold_at_the_largest_value() {
    let counters = update_counters(None, 60, true);
    assert_eq!((counters.pass_pkts, counters.pass_bytes), (1, 60));
    let full = Counters {
        pass_pkts: 1,
        drop_pkts: u64::MAX,
        pass_bytes: 2,
        drop_bytes: u64::MAX - 1,
    };
    let counters = update_counters(Some(full), 60, false);
    assert_eq!((counters.drop_pkts, counters.drop_bytes), (u64::MAX, u64::MAX));
    assert_eq!((counters.pass_pkts, counters.pass_bytes), (1, 2));
    let mut stats = no_stats();
    update_global_stats(&mut stats, 10, false, Some(DropReason::StateStoreFail));
    update_global_stats(&mut stats, 10, true, Some(DropReason::NoPolicy));
    update_global_stats(&mut stats, 10, true, Some(DropReason::ParseFail));
    update_global_stats(&mut stats, 10, false, Some(DropReason::NoTokens));
    assert_eq!((stats.pass_pkts, stats.drop_pkts), (2, 2));
    assert_eq!((stats.pass_bytes, stats.drop_bytes), (20, 20));
    assert_eq!(
        (stats.reasons.no_tokens, stats.reasons.no_policy, stats.reasons.parse_fail),
        (1, 1, 1)
    );
}

#[test]
fn one_drop_in_many_is_reported() {
    let tenant = key(7, 0, 0, 0, b"");
    assert!(maybe_emit_drop_event(tenant, 1, DropReason::NoTokens, 0).is_none());
    assert!(maybe_emit_drop_event(tenant, 1, DropReason::NoTokens, 63).is_none());
    let Some(event) = maybe_emit_drop_event(tenant, 1, DropReason::NoTokens, 128) else {
        panic!("the event is due");
    };
    assert_eq!(event.tenant_key, tenant);
    assert_eq!(event.reason, DropReason::NoTokens.as_u8());
}

#[test]
fn outcomes_are_recorded() {
    let tenant = key(7, 0, 0, 0, b"");
    let mut stats = no_stats();
    let record = record_outcome(PacketOutcome::Ignored, 1, 60, None, &mut stats);
    assert_eq!((record.verdict, record.counters.is_some()), (TC_ACT_OK, false));
    assert_eq!(stats.pass_pkts, 0);
    let record = record_outcome(PacketOutcome::Unparsed, 1, 60, None, &mut stats);
    assert!(record.counters.is_none());
    assert_eq!(stats.reasons.parse_fail, 1);
    let record = record_outcome(PacketOutcome::Unmatched(tenant), 1, 60, None, &mut stats);
    assert_eq!(record.counters.map(|c| c.pass_pkts), Some(1));
    assert_eq!(stats.reasons.no_policy, 1);
    let before = Counters {
        pass_pkts: 0,
        drop_pkts: 63,
        pass_bytes: 0,
        drop_bytes: 0,
    };
    let record = record_outcome(PacketOutcome::Limited(tenant), 9, 60, Some(before), &mut stats);
    assert_eq!(record.verdict, TC_ACT_SHOT);
    assert_eq!(record.event.map(|e| (e.ts_ns, e.reason)), Some((9, DropReason::NoTokens.as_u8())));
    assert_eq!(stats.reasons.no_tokens, 1);
    let record =
        record_outcome(PacketOutcome::StoreFailed(tenant), 9, 60, Some(before), &mut stats);
    assert_eq!(
        record.event.map(|e| e.reason),
        Some(DropReason::StateStoreFail.as_u8())
    );
    assert_eq!(stats.drop_pkts, 2);
    let record = record_outcome(PacketOutcome::Admitted(tenant), 9, 60, Some(before), &mut stats);
    assert_eq!(record.counters.map(|c| (c.pass_pkts, c.drop_pkts)), Some((1, 63)));
    assert!(record.event.is_none());
}

fn in_force(
    runtime: &BTreeMap<TenantKey, Policy>,
    base: &BTreeMap<TenantKey, Policy>,
    requested: TenantKey,
) -> Option<Policy> {
    read_policy_with_dual_fallback(
        ChainReads::each(|k: TenantKey| runtime.get(&k).copied()),
        ChainReads::each(|k: TenantKey| base.get(&k).copied()),
        requested,
    )
}

#[test]
fn policies_of_one_tenant_leave_others_alone() {
    let mine = key(7, 6, 443, 1, b"/a");
    let theirs = key(8, 6, 443, 1, b"/a");
    let their_default = key(8, 0, 0, 0, b"");
    let mut runtime = BTreeMap::new();
    let mut base = BTreeMap::new();
    base.insert(key(7, 6, 0, 0, b""), Policy::plain(5, 5, true));
    assert_eq!(in_force(&runtime, &base, theirs), None);
    for changed in [theirs, their_default] {
        runtime.insert(changed, Policy::plain(1, 1, true));
        base.insert(changed, Policy::plain(2, 2, true));
        assert_eq!(in_force(&runtime, &base, mine), Some(Policy::plain(5, 5, true)));
        assert_eq!(in_force(&runtime, &base, theirs), Some(Policy::plain(1, 1, true)));
    }
    runtime.clear();
    base.remove(&theirs);
    assert_eq!(in_force(&runtime, &base, mine), Some(Policy::plain(5, 5, true)));
    assert_eq!(in_force(&runtime, &base, theirs), Some(Policy::plain(2, 2, true)));
}

#[test]
fn a_deleted_policy_falls_back_along_the_chain() {
    let requested = key(7, 6, 443, 1, b"/a");
    let chain = [
        requested,
        key(7, 6, 443, 1, b""),
        key(7, 6, 443, 0, b""),
        key(7, 6, 0, 0, b""),
        key(7, 0, 0, 0, b""),
    ];
    let runtime = BTreeMap::new();
    let mut base = BTreeMap::new();
    for (rate, entry) in (1..).zip(chain) {
        base.insert(entry, Policy::plain(rate, 1, true));
    }
    for (rate, entry) in (1..).zip(chain) {
        assert_eq!(
            in_force(&runtime, &base, requested),
            Some(Policy::plain(rate, 1, true))
        );
        base.remove(&entry);
    }
    assert_eq!(in_force(&runtime, &base, requested), None);
}

#[test]
fn a_rested_bucket_is_full_again() {
    let policy = Policy::plain(10, 4, true);
    let token = NANOS_PER_SEC / 10;
    let empty = TokenState {
        tokens: 0,
        last_refill_ns: 1_000,
    };
    let mut early = empty;
    assert!(!apply_token_bucket(1_000 + token - 1, &policy, &mut early));
    let mut one = empty;
    assert!(apply_token_bucket(1_000 + token, &policy, &mut one));
    assert_eq!(one.tokens, 0);
    let mut rested = empty;
    assert!(apply_token_bucket(1_000 + 4 * token, &policy, &mut rested));
    assert_eq!(
        rested,
        TokenState {
            tokens: 3,
            last_refill_ns: 1_000 + 4 * token
        }
    );
}

#[test]
fn a_path_policy_is_found_by_requests_for_the_path() {
    for (method, line) in [
        ("get", &b"GET /predict HTTP/1.1\r\nHost: a"[..]),
        ("POST", &b"POST /predict HTTP/1.1\r\n"[..]),
    ] {
        let selectors = FlowSelectors {
            proto: Some("tcp".to_string()),
            dst_port: Some(443),
            http_method: Some(method.to_string()),
            http_path: Some("/predict".to_string()),
            http_path_hash: None,
        };
        let stored = request_key("7", &selectors).expect("selectors are valid");
        let bytes = packet(5, IPPROTO_TCP, &tcp(443, 5, line));
        assert_eq!(read_key(&bytes), Some(stored));
    }
}
