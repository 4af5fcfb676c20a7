//! Values shared by the packet path and the control daemon: flow keys,
//! policies, token state, counters, and the policy fallback chain.

use vstd::prelude::*;

verus! {

/// Flow-aware identity key: a cgroup identity plus optional selectors.
///
/// `http_path_hash`, `dst_port`, `proto` and `http_method` are wildcards when
/// they are zero.
#[derive(Clone, Copy, Debug, PartialEq, Eq, Structural, PartialOrd, Ord, Hash)]
pub struct TenantKey {
    pub cgroup_id: u64,
    pub http_path_hash: u32,
    pub dst_port: u16,
    pub proto: u8,
    pub http_method: u8,
}

pub const HTTP_METHOD_ANY: u8 = 0;

pub const HTTP_METHOD_GET: u8 = 1;

pub const HTTP_METHOD_POST: u8 = 2;

pub const HTTP_METHOD_PUT: u8 = 3;

pub const HTTP_METHOD_DELETE: u8 = 4;

pub const HTTP_METHOD_PATCH: u8 = 5;

pub const HTTP_METHOD_HEAD: u8 = 6;

pub const HTTP_METHOD_OPTIONS: u8 = 7;

pub const FNV1A_OFFSET_BASIS: u32 = 0x811c_9dc5;

pub const FNV1A_PRIME: u32 = 0x0100_0193;

/// One FNV-1a round: fold `byte` into `hash`.
pub open spec fn fnv1a_round(hash: u32, byte: u8) -> u32 {
    ((((hash ^ (byte as u32)) as int) * FNV1A_PRIME) % 0x1_0000_0000) as u32
}

/// The 32-bit FNV-1a hash of `bytes`.
pub open spec fn fnv1a(bytes: Seq<u8>) -> u32
    decreases bytes.len(),
{
    if bytes.len() == 0 {
        FNV1A_OFFSET_BASIS
    } else {
        fnv1a_round(fnv1a(bytes.drop_last()), bytes.last())
    }
}

/// Folds one more byte into a running FNV-1a hash.
pub fn fnv1a_fold(hash: u32, byte: u8) -> (r: u32)
    ensures
        r == fnv1a_round(hash, byte),
        r == ((hash ^ (byte as u32)) * 0x0100_0193) % 0x1_0000_0000,
{
    let mixed: u32 = hash ^ (byte as u32);
    mixed.wrapping_mul(FNV1A_PRIME)
}

/// The hash of nothing is the FNV-1a offset basis, and one more byte is mixed in by
/// an exclusive or and a product with the FNV-1a prime, modulo two to the
/// thirty-second.
pub proof fn fnv1a_grows_by_one_byte(bytes: Seq<u8>, byte: u8)
    ensures
        fnv1a(Seq::empty()) == 0x811c_9dc5u32,
        fnv1a(bytes.push(byte)) == ((fnv1a(bytes) ^ (byte as u32)) * 0x0100_0193) % 0x1_0000_0000,
{
    assert(bytes.push(byte).drop_last() =~= bytes);
}

/// Computes the 32-bit FNV-1a hash used to key HTTP paths.
pub fn fnv1a_32(bytes: &[u8]) -> (hash: u32)
    ensures
        hash == fnv1a(bytes@),
{
    let mut hash: u32 = FNV1A_OFFSET_BASIS;
    let mut idx: usize = 0;
    while idx < bytes.len()
        invariant
            idx <= bytes@.len(),
            hash == fnv1a(bytes@.take(idx as int)),
        decreases bytes@.len() - idx,
    {
        proof {
            let next = bytes@.take(idx + 1);
            assert(next.drop_last() =~= bytes@.take(idx as int));
            assert(next.last() == bytes@[idx as int]);
        }
        hash = fnv1a_fold(hash, bytes[idx]);
        idx += 1;
    }
    assert(bytes@.take(idx as int) =~= bytes@);
    hash
}

/// How specific the policy entry that matched a flow is.
#[derive(Clone, Copy, Debug, PartialEq, Eq, Structural)]
pub enum PolicyMatchLevel {
    Exact,
    PathWildcard,
    MethodPathWildcard,
    PortMethodPathWildcard,
    FullWildcard,
}

impl TenantKey {
    /// The key with its path selector cleared.
    pub open spec fn without_path(self) -> TenantKey {
        TenantKey { http_path_hash: 0, ..self }
    }

    /// The key with its path and method selectors cleared.
    pub open spec fn without_method(self) -> TenantKey {
        TenantKey { http_method: 0, ..self.without_path() }
    }

    /// The key with its path, method and port selectors cleared.
    pub open spec fn without_port(self) -> TenantKey {
        TenantKey { dst_port: 0, ..self.without_method() }
    }

    /// The key with every selector cleared.
    pub open spec fn without_proto(self) -> TenantKey {
        TenantKey { proto: 0, ..self.without_port() }
    }
}

/// A single chain entry when `present`, else nothing.
pub open spec fn chain_step(present: bool, key: TenantKey, level: PolicyMatchLevel) -> Seq<
    (TenantKey, PolicyMatchLevel),
> {
    if present {
        seq![(key, level)]
    } else {
        seq![]
    }
}

/// The keys under which the policy of `key` is looked up, most specific first,
/// each with its match level. A selector that is a wildcard already adds no
/// entry.
pub open spec fn fallback_chain(key: TenantKey) -> Seq<(TenantKey, PolicyMatchLevel)> {
    seq![(key, PolicyMatchLevel::Exact)] + chain_step(
        key.http_path_hash != 0,
        key.without_path(),
        PolicyMatchLevel::PathWildcard,
    ) + chain_step(
        key.http_method != 0,
        key.without_method(),
        PolicyMatchLevel::MethodPathWildcard,
    ) + chain_step(
        key.dst_port != 0,
        key.without_port(),
        PolicyMatchLevel::PortMethodPathWildcard,
    ) + chain_step(key.proto != 0, key.without_proto(), PolicyMatchLevel::FullWildcard)
}

/// One lookup for each place of a fallback chain, which has five at most. Each can be
/// made once.
pub struct ChainReads<F> {
    pub first: F,
    pub second: F,
    pub third: F,
    pub fourth: F,
    pub fifth: F,
}

impl<F> ChainReads<F> {
    /// The lookup for the place at `i`.
    pub open spec fn at(self, i: int) -> F {
        if i == 0 {
            self.first
        } else if i == 1 {
            self.second
        } else if i == 2 {
            self.third
        } else if i == 3 {
            self.fourth
        } else {
            self.fifth
        }
    }
}

impl<F: Copy> ChainReads<F> {
    /// The same lookup at every place.
    pub fn each(read: F) -> (reads: Self)
        ensures
            forall|i: int| #[trigger] reads.at(i) == read,
    {
        ChainReads { first: read, second: read, third: read, fourth: read, fifth: read }
    }
}

/// Builds the policy fallback candidates in precedence order:
/// 1. exact `(cgroup_id, proto, dst_port, http_method, http_path_hash)`
/// 2. path wildcard `(cgroup_id, proto, dst_port, http_method, 0)`
/// 3. method and path wildcard `(cgroup_id, proto, dst_port, 0, 0)`
/// 4. port, method and path wildcard `(cgroup_id, proto, 0, 0, 0)`
/// 5. full wildcard `(cgroup_id, 0, 0, 0, 0)`
///
/// The third component counts the candidates; the slots after them repeat the
/// key itself.
pub fn fallback_policy_keys(key: TenantKey) -> (r: (
    [TenantKey; 5],
    [PolicyMatchLevel; 5],
    usize,
))
    ensures
        r.2 == fallback_chain(key).len(),
        1 <= r.2 <= 5,
        forall|i: int| 0 <= i < r.2 ==> #[trigger] r.0@[i] == fallback_chain(key)[i].0,
        forall|i: int| 0 <= i < r.2 ==> #[trigger] r.1@[i] == fallback_chain(key)[i].1,
        forall|i: int| r.2 <= i < 5 ==> #[trigger] r.0@[i] == key,
        forall|i: int| r.2 <= i < 5 ==> #[trigger] r.1@[i] == PolicyMatchLevel::Exact,
{
    let path_wildcard = TenantKey {
        cgroup_id: key.cgroup_id,
        http_path_hash: 0,
        dst_port: key.dst_port,
        proto: key.proto,
        http_method: key.http_method,
    };
    let method_path_wildcard = TenantKey {
        cgroup_id: key.cgroup_id,
        http_path_hash: 0,
        dst_port: key.dst_port,
        proto: key.proto,
        http_method: 0,
    };
    let port_method_path_wildcard = TenantKey {
        cgroup_id: key.cgroup_id,
        http_path_hash: 0,
        dst_port: 0,
        proto: key.proto,
        http_method: 0,
    };
    let full_wildcard = TenantKey {
        cgroup_id: key.cgroup_id,
        http_path_hash: 0,
        dst_port: 0,
        proto: 0,
        http_method: 0,
    };
    let mut candidates = [key, key, key, key, key];
    let mut levels = [
        PolicyMatchLevel::Exact,
        PolicyMatchLevel::Exact,
        PolicyMatchLevel::Exact,
        PolicyMatchLevel::Exact,
        PolicyMatchLevel::Exact,
    ];
    let mut len: usize = 1;
    if key.http_path_hash != 0 {
        candidates[len] = path_wildcard;
        levels[len] = PolicyMatchLevel::PathWildcard;
        len += 1;
    }
    if key.http_method != 0 {
        candidates[len] = method_path_wildcard;
        levels[len] = PolicyMatchLevel::MethodPathWildcard;
        len += 1;
    }
    if key.dst_port != 0 {
        candidates[len] = port_method_path_wildcard;
        levels[len] = PolicyMatchLevel::PortMethodPathWildcard;
        len += 1;
    }
    if key.proto != 0 {
        candidates[len] = full_wildcard;
        levels[len] = PolicyMatchLevel::FullWildcard;
        len += 1;
    }
    (candidates, levels, len)
}

/// The level at which `matched` stands in the chain of `requested`, if it does.
pub open spec fn match_level(requested: TenantKey, matched: TenantKey) -> Option<
    PolicyMatchLevel,
> {
    if matched == requested {
        Some(PolicyMatchLevel::Exact)
    } else if matched == requested.without_path() {
        Some(PolicyMatchLevel::PathWildcard)
    } else if requested.http_method != 0 && matched == requested.without_method() {
        Some(PolicyMatchLevel::MethodPathWildcard)
    } else if requested.dst_port != 0 && matched == requested.without_port() {
        Some(PolicyMatchLevel::PortMethodPathWildcard)
    } else if requested.proto != 0 && matched == requested.without_proto() {
        Some(PolicyMatchLevel::FullWildcard)
    } else {
        None
    }
}

/// The level at which `matched` stands in the fallback chain of `requested`.
pub fn policy_match_level(requested: TenantKey, matched: TenantKey) -> (r: Option<
    PolicyMatchLevel,
>)
    ensures
        r == match_level(requested, matched),
        r is Some <==> exists|i: int|
            0 <= i < fallback_chain(requested).len() && (#[trigger] fallback_chain(requested)[i]).0
                == matched,
{
    proof {
        match_level_reads_the_chain(requested, matched);
    }
    let (candidates, levels, candidate_count) = fallback_policy_keys(requested);
    let mut index: usize = 0;
    while index < candidate_count
        invariant
            index <= candidate_count <= 5,
            candidate_count == fallback_chain(requested).len(),
            forall|i: int|
                0 <= i < candidate_count ==> #[trigger] candidates@[i] == fallback_chain(
                    requested,
                )[i].0,
            forall|i: int|
                0 <= i < candidate_count ==> #[trigger] levels@[i] == fallback_chain(
                    requested,
                )[i].1,
            forall|i: int|
                0 <= i < index ==> (#[trigger] fallback_chain(requested)[i]).0 != matched,
            forall|i: int|
                0 <= i < fallback_chain(requested).len() ==> match_level(
                    requested,
                    (#[trigger] fallback_chain(requested)[i]).0,
                ) == Some(fallback_chain(requested)[i].1),
        decreases candidate_count - index,
    {
        let candidate = candidates[index];
        assert(candidate == fallback_chain(requested)[index as int].0);
        if matched == candidate {
            return Some(levels[index]);
        }
        index += 1;
    }
    None
}

/// `match_level` finds each chain entry at its own level, and nothing else.
proof fn match_level_reads_the_chain(requested: TenantKey, matched: TenantKey)
    ensures
        forall|i: int|
            0 <= i < fallback_chain(requested).len() ==> match_level(
                requested,
                (#[trigger] fallback_chain(requested)[i]).0,
            ) == Some(fallback_chain(requested)[i].1),
        match_level(requested, matched) is Some ==> exists|i: int|
            0 <= i < fallback_chain(requested).len() && (#[trigger] fallback_chain(requested)[i]).0
                == matched,
{
    let chain = fallback_chain(requested);
    let at_method: int = if requested.http_path_hash != 0 {
        2
    } else {
        1
    };
    let at_port: int = if requested.http_method != 0 {
        at_method + 1
    } else {
        at_method
    };
    let at_proto: int = if requested.dst_port != 0 {
        at_port + 1
    } else {
        at_port
    };
    assert(chain[0] == (requested, PolicyMatchLevel::Exact));
    assert(requested.http_path_hash != 0 ==> chain[1] == (
        requested.without_path(),
        PolicyMatchLevel::PathWildcard,
    ));
    assert(requested.http_method != 0 ==> chain[at_method] == (
        requested.without_method(),
        PolicyMatchLevel::MethodPathWildcard,
    ));
    assert(requested.dst_port != 0 ==> chain[at_port] == (
        requested.without_port(),
        PolicyMatchLevel::PortMethodPathWildcard,
    ));
    assert(requested.proto != 0 ==> chain[at_proto] == (
        requested.without_proto(),
        PolicyMatchLevel::FullWildcard,
    ));
}

/// No key occurs twice in a fallback chain, and each stands there at the level
/// that `policy_match_level` reports for it.
pub proof fn fallback_chain_has_no_duplicates(key: TenantKey)
    ensures
        forall|i: int, j: int|
            0 <= i < j < fallback_chain(key).len() ==> (#[trigger] fallback_chain(key)[i]).0 != (
            #[trigger] fallback_chain(key)[j]).0,
        forall|i: int|
            0 <= i < fallback_chain(key).len() ==> match_level(
                key,
                (#[trigger] fallback_chain(key)[i]).0,
            ) == Some(fallback_chain(key)[i].1),
{
    match_level_reads_the_chain(key, key);
}

/// A fallback chain starts at the key itself, never leaves the key's tenant,
/// and ends at the tenant-wide wildcard.
pub proof fn fallback_chain_stays_within_the_tenant(key: TenantKey)
    ensures
        fallback_chain(key).first() == (key, PolicyMatchLevel::Exact),
        fallback_chain(key).last().0 == key.without_proto(),
        forall|i: int|
            0 <= i < fallback_chain(key).len() ==> (#[trigger] fallback_chain(key)[i]).0.cgroup_id
                == key.cgroup_id,
{
}

/// A fallback chain holds the key, the key without its path, without its method too,
/// without its port too, and the tenant alone, and nothing else.
pub proof fn fallback_chain_holds_every_wildcard(key: TenantKey, other: TenantKey)
    ensures
        (exists|i: int|
            0 <= i < fallback_chain(key).len() && (#[trigger] fallback_chain(key)[i]).0 == other)
            == (other == key || other.cgroup_id == key.cgroup_id && other.http_path_hash == 0 && {
            ||| other.proto == key.proto && other.dst_port == key.dst_port && other.http_method
                == key.http_method
            ||| other.proto == key.proto && other.dst_port == key.dst_port && other.http_method == 0
            ||| other.proto == key.proto && other.dst_port == 0 && other.http_method == 0
            ||| other.proto == 0 && other.dst_port == 0 && other.http_method == 0
        }),
{
    match_level_reads_the_chain(key, other);
    if key.http_path_hash == 0 {
        assert(key.without_path() == key);
    }
    if key.http_method == 0 {
        assert(key.without_method() == key.without_path());
    }
    if key.dst_port == 0 {
        assert(key.without_port() == key.without_method());
    }
    if key.proto == 0 {
        assert(key.without_proto() == key.without_port());
    }
    assert(fallback_chain(key)[0].0 == key);
    if key.http_path_hash != 0 {
        assert(match_level(key, key.without_path()) is Some);
    }
    match_level_reads_the_chain(key, key.without_path());
    match_level_reads_the_chain(key, key.without_method());
    match_level_reads_the_chain(key, key.without_port());
    match_level_reads_the_chain(key, key.without_proto());
}

/// A fallback chain goes from the specific to the general: a later entry has no
/// selector that an earlier one lacks.
pub proof fn fallback_chain_only_clears_selectors(key: TenantKey, i: int, j: int)
    requires
        0 <= i < j < fallback_chain(key).len(),
    ensures
        ({
            let earlier = fallback_chain(key)[i].0;
            let later = fallback_chain(key)[j].0;
            &&& later != earlier
            &&& later.http_path_hash == 0
            &&& later.http_method == earlier.http_method || later.http_method == 0
            &&& later.dst_port == earlier.dst_port || later.dst_port == 0
            &&& later.proto == earlier.proto || later.proto == 0
        }),
{
}

/// The level of a match says which selectors of the request the entry left out: it is
/// named after the last of them, in the order path, method, port, protocol.
pub proof fn match_level_names_what_is_left_out(requested: TenantKey, matched: TenantKey)
    ensures
        match_level(requested, matched) is Some == (exists|i: int|
            0 <= i < fallback_chain(requested).len() && (#[trigger] fallback_chain(requested)[i]).0
                == matched),
        match_level(requested, matched) matches Some(level) ==> {
            &&& level == PolicyMatchLevel::Exact <==> matched == requested
            &&& level == PolicyMatchLevel::FullWildcard <==> matched.proto != requested.proto
            &&& level == PolicyMatchLevel::PortMethodPathWildcard <==> matched.proto
                == requested.proto && matched.dst_port != requested.dst_port
            &&& level == PolicyMatchLevel::MethodPathWildcard <==> matched.proto == requested.proto
                && matched.dst_port == requested.dst_port && matched.http_method
                != requested.http_method
            &&& level == PolicyMatchLevel::PathWildcard <==> matched.proto == requested.proto
                && matched.dst_port == requested.dst_port && matched.http_method
                == requested.http_method && matched.http_path_hash != requested.http_path_hash
        },
{
    match_level_reads_the_chain(requested, matched);
}

/// Kernel drop-event emission sampling ratio (`1/N`).
pub const KERNEL_DROP_EVENT_SAMPLE_EVERY: u64 = 64;

/// Token-bucket policy of one key.
#[derive(Clone, Copy, Debug, Eq)]
pub struct Policy {
    pub rate_tokens_per_sec: u64,
    pub burst_tokens: u64,
    pub enabled: u8,
    pub _pad: [u8; 7],
}

impl PartialEq for Policy {
    fn eq(&self, other: &Self) -> (r: bool) {
        if self.rate_tokens_per_sec != other.rate_tokens_per_sec || self.burst_tokens
            != other.burst_tokens || self.enabled != other.enabled {
            return false;
        }
        let mut i: usize = 0;
        while i < 7
            invariant
                i <= 7,
                forall|j: int| 0 <= j < i ==> self._pad@[j] == other._pad@[j],
            decreases 7 - i,
        {
            if self._pad[i] != other._pad[i] {
                return false;
            }
            i += 1;
        }
        assert(self._pad@ =~= other._pad@);
        assert(self._pad =~= other._pad);
        true
    }
}

impl vstd::std_specs::cmp::PartialEqSpecImpl for Policy {
    open spec fn obeys_eq_spec() -> bool {
        true
    }

    open spec fn eq_spec(&self, other: &Self) -> bool {
        *self == *other
    }
}

/// A policy with zeroed padding.
pub open spec fn plain_policy(
    rate_tokens_per_sec: u64,
    burst_tokens: u64,
    enabled: bool,
) -> Policy {
    Policy {
        rate_tokens_per_sec,
        burst_tokens,
        enabled: if enabled {
            1
        } else {
            0
        },
        _pad: [0, 0, 0, 0, 0, 0, 0],
    }
}

impl Policy {
    /// A policy with zeroed padding.
    pub fn plain(rate_tokens_per_sec: u64, burst_tokens: u64, enabled: bool) -> (policy: Policy)
        ensures
            policy == plain_policy(rate_tokens_per_sec, burst_tokens, enabled),
            policy.rate_tokens_per_sec == rate_tokens_per_sec,
            policy.burst_tokens == burst_tokens,
            policy.enabled == (if enabled {
                1u8
            } else {
                0u8
            }),
            policy._pad@ == seq![0u8, 0, 0, 0, 0, 0, 0],
    {
        let policy = Policy {
            rate_tokens_per_sec,
            burst_tokens,
            enabled: if enabled {
                1
            } else {
                0
            },
            _pad: [0, 0, 0, 0, 0, 0, 0],
        };
        policy
    }
}

/// Tokens left in a bucket and the time of its last refill.
#[derive(Clone, Copy, Debug, PartialEq, Eq, Structural)]
pub struct TokenState {
    pub tokens: u64,
    pub last_refill_ns: u64,
}

/// Lock word that the kernel keeps beside a map value.
#[allow(non_camel_case_types)]
#[derive(Clone, Copy, Debug, PartialEq, Eq, Structural)]
pub struct bpf_spin_lock {
    pub val: u32,
}

/// Token state together with its lock word.
#[derive(Clone, Copy, Debug, PartialEq, Eq, Structural)]
pub struct LockedTokenState {
    pub lock: bpf_spin_lock,
    pub _pad: u32,
    pub state: TokenState,
}

impl LockedTokenState {
    /// Wraps `state` with a released lock.
    pub fn from_state(state: TokenState) -> (r: Self)
        ensures
            r == (LockedTokenState { lock: bpf_spin_lock { val: 0 }, _pad: 0, state }),
    {
        LockedTokenState { lock: bpf_spin_lock { val: 0 }, _pad: 0, state }
    }
}

/// Packets and bytes that one key passed and dropped.
#[derive(Clone, Copy, Debug, PartialEq, Eq, Structural)]
pub struct Counters {
    pub pass_pkts: u64,
    pub drop_pkts: u64,
    pub pass_bytes: u64,
    pub drop_bytes: u64,
}

/// How often each reason was recorded.
#[derive(Clone, Copy, Debug, PartialEq, Eq, Structural)]
pub struct ReasonBuckets {
    pub no_tokens: u64,
    pub no_policy: u64,
    pub parse_fail: u64,
}

/// Totals over all keys.
#[derive(Clone, Copy, Debug, PartialEq, Eq, Structural)]
pub struct GlobalStats {
    pub pass_pkts: u64,
    pub drop_pkts: u64,
    pub pass_bytes: u64,
    pub drop_bytes: u64,
    pub reasons: ReasonBuckets,
}

/// Counters together with a lock word.
#[derive(Clone, Copy, Debug, PartialEq, Eq, Structural)]
pub struct LockedCounters {
    pub lock: u32,
    pub _pad: u32,
    pub counters: Counters,
}

/// Global totals together with a lock word.
#[derive(Clone, Copy, Debug, PartialEq, Eq, Structural)]
pub struct LockedGlobalStats {
    pub lock: u32,
    pub _pad: u32,
    pub stats: GlobalStats,
}

/// Switches of the packet path.
#[derive(Clone, Copy, Debug, PartialEq, Eq)]
pub struct GlobalConfig {
    /// Zero lets every packet pass unexamined.
    pub enabled: u8,
    /// Zero matches by cgroup alone, non-zero by flow.
    pub flow_keys_live: u8,
    pub _pad: [u8; 6],
}

/// Why a packet was dropped, or passed unlimited.
#[derive(Clone, Copy, Debug, PartialEq, Eq, Structural)]
pub enum DropReason {
    NoTokens,
    NoPolicy,
    ParseFail,
    StateStoreFail,
}

/// The code under which a reason is recorded in drop events.
pub open spec fn reason_code(reason: DropReason) -> u8 {
    match reason {
        DropReason::NoTokens => 1,
        DropReason::NoPolicy => 2,
        DropReason::ParseFail => 3,
        DropReason::StateStoreFail => 4,
    }
}

impl DropReason {
    /// The code under which the reason is recorded in drop events.
    pub fn as_u8(self) -> (code: u8)
        ensures
            code == reason_code(self),
            self is NoTokens ==> code == 1,
            self is NoPolicy ==> code == 2,
            self is ParseFail ==> code == 3,
            self is StateStoreFail ==> code == 4,
    {
        match self {
            DropReason::NoTokens => 1,
            DropReason::NoPolicy => 2,
            DropReason::ParseFail => 3,
            DropReason::StateStoreFail => 4,
        }
    }
}

/// One sampled drop, as it travels through the event ring.
#[derive(Clone, Copy, Debug, PartialEq, Eq)]
pub struct DropEvent {
    pub ts_ns: u64,
    pub tenant_key: TenantKey,
    pub reason: u8,
    pub _pad: [u8; 7],
}

/// Length of an encoded `DropEvent`.
pub const DROP_EVENT_LEN: usize = 32;

/// Byte offset of `ts_ns` within an encoded `DropEvent`.
pub const DROP_EVENT_TS_NS_OFFSET: usize = 0;

/// Byte offset of `tenant_key` within an encoded `DropEvent`.
pub const DROP_EVENT_TENANT_KEY_OFFSET: usize = 8;

/// Byte offset of `reason` within an encoded `DropEvent`.
pub const DROP_EVENT_REASON_OFFSET: usize = 24;

} // verus!
