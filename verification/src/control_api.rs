//! The control interface: requests, what they do, and what they answer.
//!
//! A change goes to the desired state first and to the kernel maps second. When
//! the maps refuse it, the desired state is put back.

use vstd::prelude::*;

use crate::adaptive::{AdaptiveRuntimeSnapshot, AdaptiveState};
use crate::common::{
    plain_policy, ChainReads, Counters, GlobalStats, Policy, PolicyMatchLevel, ReasonBuckets,
    TenantKey,
};
use crate::config::{AdaptiveConfig, MetricsDimensions, PolicyValidationMode};
use crate::datapath::effective_policy;
use crate::map_client::{
    all_read_map, chains_resolve, map_error_text, may_resolve,
    resolution_agrees_with_packet_path, resolve_chains, MapError, PolicySource, ResolvedPolicy,
};
use crate::metrics::{
    metrics_error_text, render_metrics_payload, tenant_text, CpuWindowSample, MetricsError,
    MetricsState,
};
use crate::order::{in_order, sort_rows, Placed};
use crate::packet::{
    holds_path, http_selector, request_line_selects_its_path, starts_get, starts_post,
    HTTP_PATH_HASH_MAX_BYTES,
};
use crate::state_store::{
    lookup, may_persist, moved, persisted, state_store_error_text, DesiredState, PersistedStateV1, StateStore,
    StateStoreError,
};
use crate::table::Ranked;
use crate::tenancy::TenancyState;
use crate::tenant::{
    flow_text, http_method_label, http_method_name, methods_are_named_by_their_letters,
    normalized_flow_key, proto_label, proto_name, protocols_are_named_by_their_letters, spells3,
    spells4, tenant_error_text, FlowProto, HttpMethod, TenantParseError, TenantRef,
};
use crate::text::{hex8, push_hex8};

verus! {

pub const DEBUG_SNAPSHOT_SCHEMA_VERSION: u16 = 3;

pub const PARTIAL_L7_POLICY_WARNING: &'static str = "partial L7 policy accepted with wildcard L4 selectors; set proto and dst_port for strict specificity";

/// Why a request failed.
#[derive(Debug)]
pub enum ApiError {
    MapOperation(MapError),
    Tenant(TenantParseError),
    Metrics(MetricsError),
    StateStore(StateStoreError),
}

impl ApiError {
    /// The HTTP status of the answer: the request's fault or the daemon's.
    pub fn status(&self) -> (status: u16)
        ensures
            status == (if self is Tenant {
                400u16
            } else {
                500
            }),
    {
        match self {
            ApiError::Tenant(_) => 400,
            _ => 500,
        }
    }

    /// The body of the answer, given the wording of the metrics encoder where the
    /// error is one of the encoder's.
    pub open spec fn body_text(self, encoder: Seq<char>) -> Seq<char> {
        match self {
            ApiError::Tenant(error) => tenant_error_text(error),
            ApiError::MapOperation(error) => "map operation failed: "@ + map_error_text(error),
            ApiError::Metrics(error) => "metrics operation failed: "@ + metrics_error_text(
                error,
                encoder,
            ),
            ApiError::StateStore(error) => "state store operation failed: "@
                + state_store_error_text(error),
        }
    }

    /// The body of the answer.
    pub fn body(&self) -> (text: String)
        ensures
            exists|encoder: Seq<char>|
                (*self matches ApiError::Metrics(error) ==> error.encoder_says(encoder)) && text@
                    == #[trigger] self.body_text(encoder),
    {
        let mut text = String::new();
        let ghost mut encoder: Seq<char> = seq![];
        match self {
            ApiError::Tenant(error) => {
                text.append(error.message());
            },
            ApiError::MapOperation(error) => {
                text.append("map operation failed: ");
                text.append(error.message().as_str());
            },
            ApiError::Metrics(error) => {
                let wording = error.message();
                text.append("metrics operation failed: ");
                text.append(wording.as_str());
                proof {
                    encoder = choose|e: Seq<char>|
                        error.encoder_says(e) && wording@ == #[trigger] metrics_error_text(
                            *error,
                            e,
                        );
                }
            },
            ApiError::StateStore(error) => {
                text.append("state store operation failed: ");
                text.append(error.message().as_str());
            },
        }
        assert(text@ =~= self.body_text(encoder));
        text
    }
}

/// The body of an answer says which part of the daemon failed and how; a refused request
/// is told its fault alone.
pub proof fn answers_to_failures_are_worded(
    tenant: TenantParseError,
    map: MapError,
    store: StateStoreError,
    metrics: MetricsError,
    encoder: Seq<char>,
)
    ensures
        ApiError::Tenant(tenant).body_text(encoder) == tenant_error_text(tenant),
        ApiError::MapOperation(map).body_text(encoder) == "map operation failed: "@
            + map_error_text(map),
        ApiError::StateStore(store).body_text(encoder) == "state store operation failed: "@
            + state_store_error_text(store),
        ApiError::Metrics(metrics).body_text(encoder) == "metrics operation failed: "@
            + metrics_error_text(metrics, encoder),
{
}

/// The selectors of a request that narrow a tenant down.
#[derive(Debug)]
pub struct FlowSelectors {
    pub proto: Option<String>,
    pub dst_port: Option<u16>,
    pub http_method: Option<String>,
    pub http_path: Option<String>,
    pub http_path_hash: Option<u32>,
}

impl Default for FlowSelectors {
    fn default() -> (selectors: Self)
        ensures
            selectors == (FlowSelectors {
                proto: None,
                dst_port: None,
                http_method: None,
                http_path: None,
                http_path_hash: None,
            }),
    {
        FlowSelectors {
            proto: None,
            dst_port: None,
            http_method: None,
            http_path: None,
            http_path_hash: None,
        }
    }
}

/// A request to set a policy.
#[derive(Debug)]
pub struct PutPolicyRequest {
    pub rate_tokens_per_sec: u64,
    pub burst_tokens: u64,
    pub enabled: bool,
    pub selectors: FlowSelectors,
}

fn opt_str(value: &Option<String>) -> (r: Option<&str>)
    ensures
        match value {
            Some(text) => r matches Some(s) && s@ == text@,
            None => r is None,
        },
{
    match value {
        Some(text) => Some(text.as_str()),
        None => None,
    }
}

/// The protocol that a request names, if it names one.
pub open spec fn named_proto(proto: Option<Seq<char>>) -> Result<
    Option<FlowProto>,
    TenantParseError,
> {
    match proto {
        None => Ok(None),
        Some(raw) => match FlowProto::named(raw) {
            Ok(proto) => Ok(Some(proto)),
            Err(error) => Err(error),
        },
    }
}

/// Reads the protocol that a request names, if it names one.
pub fn parse_proto(proto: Option<&str>) -> (r: Result<Option<FlowProto>, TenantParseError>)
    ensures
        r == named_proto(
            match proto {
                Some(raw) => Some(raw@),
                None => None,
            },
        ),
{
    match proto {
        Some(raw) => match FlowProto::parse(raw) {
            Ok(proto) => Ok(Some(proto)),
            Err(error) => Err(error),
        },
        None => Ok(None),
    }
}

/// Reads the cgroup that a request names.
pub fn parse_tenant_cgroup_id(raw: &str) -> (r: Result<u64, TenantParseError>)
    ensures
        r == (match crate::tenant::tenant_number(raw@) {
            Ok(id) => Ok(id),
            Err(_) => Err(TenantParseError::Invalid),
        }),
{
    match TenantRef::parse(raw) {
        Ok(tenant) => Ok(tenant.to_tenant_key().cgroup_id),
        Err(error) => Err(error),
    }
}

/// The text of an optional string.
pub open spec fn text_of(value: Option<String>) -> Option<Seq<char>> {
    match value {
        Some(text) => Some(text@),
        None => None,
    }
}

/// The hash selector that a path and a hash given directly make up.
pub open spec fn selected_hash(path: Option<Seq<char>>, hash: Option<u32>) -> Result<
    u32,
    TenantParseError,
> {
    match (path, hash) {
        (Some(p), Some(explicit)) => if crate::common::fnv1a(vstd::utf8::encode_utf8(p))
            != explicit {
            Err(TenantParseError::PathHashMismatch)
        } else {
            Ok(explicit)
        },
        (Some(p), None) => Ok(crate::common::fnv1a(vstd::utf8::encode_utf8(p))),
        (None, Some(explicit)) => Ok(explicit),
        (None, None) => Ok(0),
    }
}

/// A path policy meets the requests for that path: the hash that a request with
/// `http_path` selects by is the hash that the packet path reads off a request line
/// with the same path, for every path that the packet path can read.
pub proof fn path_selector_meets_request_line(path: Seq<char>, bytes: Seq<u8>, read_len: int)
    requires
        ({
            let raw = vstd::utf8::encode_utf8(path);
            &&& read_len <= bytes.len()
            &&& 1 <= raw.len() < HTTP_PATH_HASH_MAX_BYTES
            &&& raw[0] == 0x2f
            &&& forall|i: int| 0 <= i < raw.len() ==> raw[i] != 0x20
            &&& starts_get(bytes) && holds_path(bytes, raw, 4, read_len) || starts_post(bytes)
                && holds_path(bytes, raw, 5, read_len)
        }),
    ensures
        http_selector(bytes, read_len) matches Some((method, hash)) && selected_hash(
            Some(path),
            None,
        ) == Ok::<u32, TenantParseError>(hash) && method == (if starts_get(bytes) {
            HttpMethod::Get.number()
        } else {
            HttpMethod::Post.number()
        }),
{
    request_line_selects_its_path(bytes, vstd::utf8::encode_utf8(path), read_len);
    if starts_get(bytes) && starts_post(bytes) {
        assert(bytes.take(4)[0] == bytes[0]);
        assert(bytes.take(5)[0] == bytes[0]);
    }
}

/// The method number that a request selects; zero for any.
pub open spec fn selected_method(method: Option<Seq<char>>) -> Result<u8, TenantParseError> {
    match method {
        None => Ok(0),
        Some(raw) => match HttpMethod::named(raw) {
            Ok(method) => Ok(method.number()),
            Err(error) => Err(error),
        },
    }
}

/// The flow key that a request is about, or why it is refused. Of several faults
/// the first counts in the order: protocol name, tenant, protocol and port
/// together, method name, path and hash together.
pub open spec fn selected_key(tenant: Seq<char>, selectors: FlowSelectors) -> Result<
    TenantKey,
    TenantParseError,
> {
    match named_proto(text_of(selectors.proto)) {
        Err(error) => Err(error),
        Ok(proto) => match crate::tenant::tenant_number(tenant) {
            Err(_) => Err(TenantParseError::Invalid),
            Ok(cgroup_id) => if proto is Some && selectors.dst_port is None {
                Err(TenantParseError::MissingDstPort)
            } else if proto is None && selectors.dst_port is Some {
                Err(TenantParseError::MissingProto)
            } else {
                match selected_method(text_of(selectors.http_method)) {
                    Err(error) => Err(error),
                    Ok(http_method) => match selected_hash(
                        text_of(selectors.http_path),
                        selectors.http_path_hash,
                    ) {
                        Err(error) => Err(error),
                        Ok(http_path_hash) => Ok(
                            TenantKey {
                                cgroup_id,
                                http_path_hash,
                                dst_port: match selectors.dst_port {
                                    Some(port) => port,
                                    None => 0,
                                },
                                proto: match proto {
                                    Some(proto) => proto.number(),
                                    None => 0,
                                },
                                http_method,
                            },
                        ),
                    },
                }
            },
        },
    }
}

/// The key that a request is about is made of what the request says, selector by
/// selector; what it does not say is a wildcard.
pub proof fn a_request_selects_what_it_says(tenant: Seq<char>, selectors: FlowSelectors)
    ensures
        selected_key(tenant, selectors) matches Ok(key) ==> {
            &&& crate::tenant::tenant_number(tenant) == Ok::<u64, crate::text::NumberError>(
                key.cgroup_id,
            )
            &&& selectors.proto is None ==> key.proto == 0
            &&& selectors.proto matches Some(name) ==> {
                ||| spells3(name@, 't', 'c', 'p') && key.proto == 6
                ||| spells3(name@, 'u', 'd', 'p') && key.proto == 17
            }
            &&& selectors.dst_port is None ==> key.dst_port == 0
            &&& selectors.dst_port matches Some(port) ==> key.dst_port == port
            &&& selectors.http_method is None ==> key.http_method == 0
            &&& selectors.http_method matches Some(name) ==> {
                ||| spells3(name@, 'g', 'e', 't') && key.http_method == 1
                ||| spells4(name@, 'p', 'o', 's', 't') && key.http_method == 2
            }
            &&& selectors.http_path_hash matches Some(hash) ==> key.http_path_hash == hash
            &&& selectors.http_path matches Some(path) ==> key.http_path_hash
                == crate::common::fnv1a(vstd::utf8::encode_utf8(path@))
            &&& selectors.http_path is None && selectors.http_path_hash is None
                ==> key.http_path_hash == 0
        },
{
    if let Some(name) = selectors.proto {
        protocols_are_named_by_their_letters(name@);
    }
    if let Some(name) = selectors.http_method {
        methods_are_named_by_their_letters(name@);
    }
}

/// A request is refused exactly for a fault, and of several for the first in this
/// order: a protocol that is none, a tenant that is none, a protocol without a port or
/// a port without a protocol, a method that is none, a path that does not have the
/// hash given along with it.
pub proof fn a_request_is_refused_for_its_first_fault(
    tenant: Seq<char>,
    selectors: FlowSelectors,
)
    ensures
        ({
            let bad_proto = selectors.proto matches Some(name) && !spells3(name@, 't', 'c', 'p')
                && !spells3(name@, 'u', 'd', 'p');
            let bad_tenant = crate::tenant::tenant_number(tenant) is Err;
            let no_port = selectors.proto is Some && selectors.dst_port is None;
            let no_proto = selectors.proto is None && selectors.dst_port is Some;
            let bad_method = selectors.http_method matches Some(name) && !spells3(
                name@,
                'g',
                'e',
                't',
            ) && !spells4(name@, 'p', 'o', 's', 't');
            let mismatch = selectors.http_path matches Some(path)
                && selectors.http_path_hash matches Some(hash) && crate::common::fnv1a(
                vstd::utf8::encode_utf8(path@),
            ) != hash;
            match selected_key(tenant, selectors) {
                Ok(_) => !bad_proto && !bad_tenant && !no_port && !no_proto && !bad_method
                    && !mismatch,
                Err(TenantParseError::InvalidProto) => bad_proto,
                Err(TenantParseError::Invalid) => !bad_proto && bad_tenant,
                Err(TenantParseError::MissingDstPort) => !bad_proto && !bad_tenant && no_port,
                Err(TenantParseError::MissingProto) => !bad_proto && !bad_tenant && no_proto,
                Err(TenantParseError::InvalidHttpMethod) => !bad_proto && !bad_tenant && !no_port
                    && !no_proto && bad_method,
                Err(TenantParseError::PathHashMismatch) => !bad_proto && !bad_tenant && !no_port
                    && !no_proto && !bad_method && mismatch,
                Err(TenantParseError::PartialL7SelectorsRequireFlow) => false,
            }
        }),
{
    if let Some(name) = selectors.proto {
        protocols_are_named_by_their_letters(name@);
    }
    if let Some(name) = selectors.http_method {
        methods_are_named_by_their_letters(name@);
    }
}

/// Reads the flow key that a request is about.
pub fn request_key(tenant: &str, selectors: &FlowSelectors) -> (r: Result<
    TenantKey,
    TenantParseError,
>)
    ensures
        r == selected_key(tenant@, *selectors),
{
    let proto = match parse_proto(opt_str(&selectors.proto)) {
        Ok(proto) => proto,
        Err(error) => return Err(error),
    };
    let parsed = match TenantRef::parse(tenant) {
        Ok(parsed) => parsed,
        Err(error) => return Err(error),
    };
    let with_flow = match parsed.with_flow(proto, selectors.dst_port) {
        Ok(with_flow) => with_flow,
        Err(error) => return Err(error),
    };
    match with_flow.with_http_selectors(
        opt_str(&selectors.http_method),
        opt_str(&selectors.http_path),
        selectors.http_path_hash,
    ) {
        Ok(selected) => Ok(selected.to_tenant_key()),
        Err(error) => Err(error),
    }
}

/// Whether a key selects HTTP requests without selecting protocol and port.
pub open spec fn is_partial_l7(key: TenantKey) -> bool {
    (key.http_method != 0 || key.http_path_hash != 0) && (key.proto == 0 || key.dst_port == 0)
}

/// Tells whether a key selects HTTP requests without protocol and port.
pub fn partial_l7_policy_key(key: TenantKey) -> (r: bool)
    ensures
        r == is_partial_l7(key),
{
    let has_l7_selector: bool = key.http_method != 0 || key.http_path_hash != 0;
    has_l7_selector && (key.proto == 0 || key.dst_port == 0)
}

/// A key is partial exactly if it has a method or a path but lacks a protocol or a
/// port.
pub proof fn partial_keys_lack_protocol_or_port(key: TenantKey)
    ensures
        is_partial_l7(key) <==> !(key.http_method == 0 && key.http_path_hash == 0) && !(key.proto
            != 0 && key.dst_port != 0),
{
}

/// How specific a key is by its first wildcard, from protocol to path.
pub open spec fn scope_of(key: TenantKey) -> PolicyMatchLevel {
    if key.proto == 0 {
        PolicyMatchLevel::FullWildcard
    } else if key.dst_port == 0 {
        PolicyMatchLevel::PortMethodPathWildcard
    } else if key.http_method == 0 {
        PolicyMatchLevel::MethodPathWildcard
    } else if key.http_path_hash == 0 {
        PolicyMatchLevel::PathWildcard
    } else {
        PolicyMatchLevel::Exact
    }
}

/// The scope of a key is named after the first selector that it leaves open, in the
/// order protocol, port, method, path; a key that leaves none open is exact. It is the
/// level at which a flow with every selector falls back to it.
pub proof fn scope_names_the_first_wildcard(key: TenantKey, flow: TenantKey)
    ensures
        scope_of(key) == PolicyMatchLevel::FullWildcard <==> key.proto == 0,
        scope_of(key) == PolicyMatchLevel::PortMethodPathWildcard <==> key.proto != 0
            && key.dst_port == 0,
        scope_of(key) == PolicyMatchLevel::MethodPathWildcard <==> key.proto != 0 && key.dst_port
            != 0 && key.http_method == 0,
        scope_of(key) == PolicyMatchLevel::PathWildcard <==> key.proto != 0 && key.dst_port != 0
            && key.http_method != 0 && key.http_path_hash == 0,
        scope_of(key) == PolicyMatchLevel::Exact <==> key.proto != 0 && key.dst_port != 0
            && key.http_method != 0 && key.http_path_hash != 0,
        flow.proto != 0 && flow.dst_port != 0 && flow.http_method != 0 && flow.http_path_hash != 0
            && crate::common::match_level(flow, key) is Some ==> crate::common::match_level(
            flow,
            key,
        ) == Some(scope_of(key)),
{
}

/// Tells how specific a key is.
pub fn policy_scope_from_key(key: TenantKey) -> (scope: PolicyMatchLevel)
    ensures
        scope == scope_of(key),
{
    if key.proto == 0 {
        return PolicyMatchLevel::FullWildcard;
    }
    if key.dst_port == 0 {
        return PolicyMatchLevel::PortMethodPathWildcard;
    }
    if key.http_method == 0 {
        return PolicyMatchLevel::MethodPathWildcard;
    }
    if key.http_path_hash == 0 {
        return PolicyMatchLevel::PathWildcard;
    }
    PolicyMatchLevel::Exact
}

pub const POLICY_PRECEDENCE: &'static str = "runtime_override:[exact(cgroup_id,proto,dst_port,http_method,http_path_hash) > path_wildcard(cgroup_id,proto,dst_port,http_method,0) > method_path_wildcard(cgroup_id,proto,dst_port,0,0) > port_method_path_wildcard(cgroup_id,proto,0,0,0) > full_wildcard(cgroup_id,0,0,0,0)] > base:[exact(cgroup_id,proto,dst_port,http_method,http_path_hash) > path_wildcard(cgroup_id,proto,dst_port,http_method,0) > method_path_wildcard(cgroup_id,proto,dst_port,0,0) > port_method_path_wildcard(cgroup_id,proto,0,0,0) > full_wildcard(cgroup_id,0,0,0,0)]";

/// The order in which policies are looked up, in words.
pub fn policy_precedence_contract() -> (text: &'static str)
    ensures
        text@ == POLICY_PRECEDENCE@,
{
    POLICY_PRECEDENCE
}

/// A policy as it is shown.
#[derive(Clone, Copy, Debug, PartialEq, Eq, Structural)]
pub struct PolicyView {
    pub rate_tokens_per_sec: u64,
    pub burst_tokens: u64,
    pub enabled: bool,
}

/// A policy as it is shown.
pub open spec fn policy_view(policy: Policy) -> PolicyView {
    PolicyView {
        rate_tokens_per_sec: policy.rate_tokens_per_sec,
        burst_tokens: policy.burst_tokens,
        enabled: policy.enabled != 0,
    }
}

impl PolicyView {
    /// Shows a policy.
    pub fn from_policy(policy: Policy) -> (view: Self)
        ensures
            view == policy_view(policy),
            view.rate_tokens_per_sec == policy.rate_tokens_per_sec,
            view.burst_tokens == policy.burst_tokens,
            view.enabled == (policy.enabled != 0),
    {
        PolicyView {
            rate_tokens_per_sec: policy.rate_tokens_per_sec,
            burst_tokens: policy.burst_tokens,
            enabled: policy.enabled != 0,
        }
    }
}

/// The selectors of a key as they are shown; wildcards are absent.
#[derive(Debug)]
pub struct SelectorView {
    pub proto: &'static str,
    pub dst_port: Option<u16>,
    pub http_method: &'static str,
    pub http_path_hash: Option<u32>,
    pub http_path_hash_hex: Option<String>,
    pub normalized: String,
}

impl SelectorView {
    /// Whether the view shows `key`.
    pub open spec fn shows(self, key: TenantKey) -> bool {
        &&& self.proto@ == proto_name(key.proto)
        &&& self.dst_port == (if key.dst_port != 0 {
            Some(key.dst_port)
        } else {
            None
        })
        &&& self.http_method@ == http_method_name(key.http_method)
        &&& self.http_path_hash == (if key.http_path_hash != 0 {
            Some(key.http_path_hash)
        } else {
            None
        })
        &&& match self.http_path_hash_hex {
            Some(hex) => key.http_path_hash != 0 && hex@ == hex8(key.http_path_hash),
            None => key.http_path_hash == 0,
        }
        &&& self.normalized@ == flow_text(key)
    }

    /// Shows the selectors of a key.
    pub fn from_tenant(tenant: TenantKey) -> (view: Self)
        ensures
            view.shows(tenant),
            view.proto@ == proto_name(tenant.proto),
            view.http_method@ == http_method_name(tenant.http_method),
            tenant.dst_port == 0 ==> view.dst_port is None,
            tenant.dst_port != 0 ==> view.dst_port == Some(tenant.dst_port),
            tenant.http_path_hash == 0 ==> view.http_path_hash is None && view.http_path_hash_hex is None,
            tenant.http_path_hash != 0 ==> view.http_path_hash == Some(tenant.http_path_hash) && (
            view.http_path_hash_hex matches Some(hex) && hex@ == hex8(tenant.http_path_hash)),
            view.normalized@ == flow_text(tenant),
    {
        let http_path_hash: Option<u32> = if tenant.http_path_hash != 0 {
            Some(tenant.http_path_hash)
        } else {
            None
        };
        let http_path_hash_hex: Option<String> = match http_path_hash {
            Some(hash) => {
                let mut hex = String::new();
                push_hex8(&mut hex, hash);
                assert(hex@ =~= hex8(hash));
                Some(hex)
            },
            None => None,
        };
        SelectorView {
            proto: proto_label(tenant.proto),
            dst_port: if tenant.dst_port != 0 {
                Some(tenant.dst_port)
            } else {
                None
            },
            http_method: http_method_label(tenant.http_method),
            http_path_hash,
            http_path_hash_hex,
            normalized: normalized_flow_key(tenant),
        }
    }
}

/// A view of selectors tells the key apart from any key that reads differently: it has
/// the names of protocol and method, port and path hash where they are set and nothing
/// where they are not, the hash in hexadecimal too, and the flow as one line.
pub proof fn a_selector_view_tells_the_key(view: SelectorView, key: TenantKey)
    requires
        view.shows(key),
    ensures
        view.proto@ == proto_name(key.proto),
        view.http_method@ == http_method_name(key.http_method),
        key.dst_port == 0 ==> view.dst_port is None,
        key.dst_port != 0 ==> view.dst_port == Some(key.dst_port),
        key.http_path_hash == 0 ==> view.http_path_hash is None && view.http_path_hash_hex is None,
        key.http_path_hash != 0 ==> view.http_path_hash == Some(key.http_path_hash) && (
        view.http_path_hash_hex matches Some(hex) && hex@ == hex8(key.http_path_hash)),
        view.normalized@ == flow_text(key),
{
}

/// A resolved policy as it is shown.
#[derive(Debug)]
pub struct ResolvedPolicyView {
    pub requested: TenantKey,
    pub matched: TenantKey,
    pub requested_selector: SelectorView,
    pub matched_selector: SelectorView,
    pub match_level: PolicyMatchLevel,
    pub source: PolicySource,
    pub requested_flow: String,
    pub matched_flow: String,
    pub policy: PolicyView,
}

impl ResolvedPolicyView {
    /// Whether the view shows `resolved`.
    pub open spec fn shows(self, resolved: ResolvedPolicy) -> bool {
        &&& self.requested == resolved.requested
        &&& self.matched == resolved.matched
        &&& self.requested_selector.shows(resolved.requested)
        &&& self.matched_selector.shows(resolved.matched)
        &&& self.match_level == resolved.match_level
        &&& self.source == resolved.source
        &&& self.requested_flow@ == flow_text(resolved.requested)
        &&& self.matched_flow@ == flow_text(resolved.matched)
        &&& self.policy == policy_view(resolved.policy)
    }

    /// Shows a resolved policy.
    pub fn from_resolved(resolved: ResolvedPolicy) -> (view: Self)
        ensures
            view.shows(resolved),
            view.requested == resolved.requested,
            view.matched == resolved.matched,
            view.match_level == resolved.match_level,
            view.source == resolved.source,
            view.policy.rate_tokens_per_sec == resolved.policy.rate_tokens_per_sec,
            view.policy.burst_tokens == resolved.policy.burst_tokens,
            view.policy.enabled == (resolved.policy.enabled != 0),
    {
        ResolvedPolicyView {
            requested: resolved.requested,
            matched: resolved.matched,
            requested_selector: SelectorView::from_tenant(resolved.requested),
            matched_selector: SelectorView::from_tenant(resolved.matched),
            match_level: resolved.match_level,
            source: resolved.source,
            requested_flow: normalized_flow_key(resolved.requested),
            matched_flow: normalized_flow_key(resolved.matched),
            policy: PolicyView::from_policy(resolved.policy),
        }
    }
}

/// A view of a resolved policy tells both keys, the requested one and the one that it was
/// found under, the level and the map, and the policy's rate, burst and switch.
pub proof fn a_resolved_view_tells_both_keys(view: ResolvedPolicyView, resolved: ResolvedPolicy)
    requires
        view.shows(resolved),
    ensures
        view.requested == resolved.requested,
        view.matched == resolved.matched,
        view.requested_selector.shows(resolved.requested),
        view.matched_selector.shows(resolved.matched),
        view.requested_flow@ == flow_text(resolved.requested),
        view.matched_flow@ == flow_text(resolved.matched),
        view.match_level == resolved.match_level,
        view.source == resolved.source,
        view.policy.rate_tokens_per_sec == resolved.policy.rate_tokens_per_sec,
        view.policy.burst_tokens == resolved.policy.burst_tokens,
        view.policy.enabled == (resolved.policy.enabled != 0),
{
}

/// The answer to a request that set a policy.
#[derive(Debug)]
pub struct PolicyUpsertResponse {
    pub stored: TenantKey,
    pub scope: PolicyMatchLevel,
    pub stored_selector: SelectorView,
    pub stored_flow: String,
    pub precedence: &'static str,
    pub effective_for_stored: ResolvedPolicyView,
    pub warnings: Vec<&'static str>,
}

/// What is said to be in force for a key whose policy was just set: what it
/// resolves to, or the policy itself where it resolves to nothing.
pub open spec fn effective_or_stored(
    found: Option<ResolvedPolicy>,
    key: TenantKey,
    policy: Policy,
) -> ResolvedPolicy {
    match found {
        Some(resolved) => resolved,
        None => ResolvedPolicy {
            requested: key,
            matched: key,
            match_level: PolicyMatchLevel::Exact,
            policy,
            source: PolicySource::Base,
        },
    }
}

impl PolicyUpsertResponse {
    /// Whether the answer is the one for a policy set under `key` that now
    /// resolves to `found`.
    pub open spec fn answers(
        self,
        key: TenantKey,
        policy: Policy,
        found: Option<ResolvedPolicy>,
    ) -> bool {
        &&& self.stored == key
        &&& self.scope == scope_of(key)
        &&& self.stored_selector.shows(key)
        &&& self.stored_flow@ == flow_text(key)
        &&& self.precedence@ == POLICY_PRECEDENCE@
        &&& self.effective_for_stored.shows(effective_or_stored(found, key, policy))
        &&& if is_partial_l7(key) {
            self.warnings@.len() == 1 && self.warnings@[0]@ == PARTIAL_L7_POLICY_WARNING@
        } else {
            self.warnings@.len() == 0
        }
    }
}

/// The answer to a request that deleted a policy.
#[derive(Debug)]
pub struct PolicyDeleteResponse {
    pub deleted: bool,
    pub deleted_key: TenantKey,
    pub deleted_selector: SelectorView,
    pub deleted_flow: String,
    pub precedence: &'static str,
    pub effective_after_delete: Option<ResolvedPolicyView>,
}

/// Whether `view` shows `found`.
pub open spec fn shows_found(
    view: Option<ResolvedPolicyView>,
    found: Option<ResolvedPolicy>,
) -> bool {
    match found {
        Some(resolved) => view matches Some(v) && v.shows(resolved),
        None => view is None,
    }
}

fn view_found(found: Option<ResolvedPolicy>) -> (view: Option<ResolvedPolicyView>)
    ensures
        shows_found(view, found),
{
    match found {
        Some(resolved) => Some(ResolvedPolicyView::from_resolved(resolved)),
        None => None,
    }
}

impl PolicyDeleteResponse {
    /// Whether the answer is the one for a policy deleted under `key`.
    pub open spec fn answers(
        self,
        key: TenantKey,
        deleted: bool,
        found: Option<ResolvedPolicy>,
    ) -> bool {
        &&& self.deleted == deleted
        &&& self.deleted_key == key
        &&& self.deleted_selector.shows(key)
        &&& self.deleted_flow@ == flow_text(key)
        &&& self.precedence@ == POLICY_PRECEDENCE@
        &&& shows_found(self.effective_after_delete, found)
    }
}

/// The answer to a request for the policy in force.
#[derive(Debug)]
pub struct ResolvePolicyResponse {
    pub requested: TenantKey,
    pub requested_selector: SelectorView,
    pub requested_flow: String,
    pub precedence: &'static str,
    pub effective: Option<ResolvedPolicyView>,
}

/// Resolves the policy in force for a request.
pub fn resolve_policy<
    R: FnOnce(TenantKey) -> Result<Option<Policy>, MapError>,
    B: FnOnce(TenantKey) -> Result<Option<Policy>, MapError>,
>(
    tenant: &str,
    selectors: &FlowSelectors,
    get_runtime: ChainReads<R>,
    get_base: ChainReads<B>,
) -> (r: Result<ResolvePolicyResponse, ApiError>)
    requires
        selected_key(tenant@, *selectors) matches Ok(key) ==> may_resolve(
            get_runtime,
            get_base,
            key,
        ),
    ensures
        match selected_key(tenant@, *selectors) {
            Err(error) => r == Err::<ResolvePolicyResponse, ApiError>(ApiError::Tenant(error)),
            Ok(key) => match r {
                Ok(response) => {
                    &&& response.requested == key
                    &&& response.requested_selector.shows(key)
                    &&& response.requested_flow@ == flow_text(key)
                    &&& response.precedence@ == POLICY_PRECEDENCE@
                    &&& exists|found: Option<ResolvedPolicy>| #[trigger]
                        chains_resolve(
                            get_runtime,
                            get_base,
                            key,
                            Ok::<Option<ResolvedPolicy>, MapError>(found),
                        ) && shows_found(response.effective, found)
                },
                Err(ApiError::MapOperation(error)) => chains_resolve(
                    get_runtime,
                    get_base,
                    key,
                    Err::<Option<ResolvedPolicy>, MapError>(error),
                ),
                Err(_) => false,
            },
        },
{
    let requested = match request_key(tenant, selectors) {
        Ok(key) => key,
        Err(error) => return Err(ApiError::Tenant(error)),
    };
    match resolve_chains(requested, get_runtime, get_base) {
        Err(error) => Err(ApiError::MapOperation(error)),
        Ok(found) => {
            let effective = view_found(found);
            Ok(
                ResolvePolicyResponse {
                    requested,
                    requested_selector: SelectorView::from_tenant(requested),
                    requested_flow: normalized_flow_key(requested),
                    precedence: policy_precedence_contract(),
                    effective,
                },
            )
        },
    }
}

/// The state with a base policy for `key`.
pub open spec fn with_base(state: DesiredState, key: TenantKey, policy: Policy) -> DesiredState {
    DesiredState { base_policies: state.base_policies.insert(key, policy), ..state }
}

/// The state without a base policy for `key`.
pub open spec fn without_base(state: DesiredState, key: TenantKey) -> DesiredState {
    DesiredState { base_policies: state.base_policies.remove(key), ..state }
}

/// Setting and deleting a base policy touch nothing else of the desired state.
pub proof fn base_policies_change_alone(state: DesiredState, key: TenantKey, policy: Policy)
    ensures
        with_base(state, key, policy).runtime_overrides == state.runtime_overrides,
        with_base(state, key, policy).essential_tenants == state.essential_tenants,
        with_base(state, key, policy).global_enabled == state.global_enabled,
        with_base(state, key, policy).flow_keys_live == state.flow_keys_live,
        with_base(state, key, policy).version == state.version,
        without_base(state, key).runtime_overrides == state.runtime_overrides,
        without_base(state, key).essential_tenants == state.essential_tenants,
        without_base(state, key).global_enabled == state.global_enabled,
        without_base(state, key).flow_keys_live == state.flow_keys_live,
        without_base(state, key).version == state.version,
{
}

/// What setting a policy works with: persisting the desired state, writing the
/// kernel map, persisting the desired state once more to put it back, and reading
/// the maps along a fallback chain. Each can be called once.
pub struct PutAccess<P, A, Q, R, B> {
    pub persist: P,
    pub apply: A,
    pub restore: Q,
    pub get_runtime: ChainReads<R>,
    pub get_base: ChainReads<B>,
}

/// Whether `policy` may be stored and applied under `key`: the state with it may be
/// persisted; once it was, it may be written to the map; only where the map refused
/// it, the state before may be persisted again; and only where the map took it, the
/// key may be resolved.
pub open spec fn may_put<
    P: FnOnce(&PersistedStateV1) -> Result<(), StateStoreError>,
    A: FnOnce(TenantKey, Policy) -> Result<(), MapError>,
    Q: FnOnce(&PersistedStateV1) -> Result<(), StateStoreError>,
    R: FnOnce(TenantKey) -> Result<Option<Policy>, MapError>,
    B: FnOnce(TenantKey) -> Result<Option<Policy>, MapError>,
>(
    access: PutAccess<P, A, Q, R, B>,
    before: DesiredState,
    key: TenantKey,
    policy: Policy,
) -> bool {
    let stored = with_base(before, key, policy);
    let was_stored = persisted(access.persist, stored, Ok::<(), StateStoreError>(()));
    &&& may_persist(access.persist, stored)
    &&& was_stored ==> call_requires(access.apply, (key, policy))
    &&& was_stored && (exists|refused: MapError| #[trigger]
        call_ensures(access.apply, (key, policy), Err::<(), MapError>(refused))) ==> may_persist(
        access.restore,
        before,
    )
    &&& was_stored && call_ensures(access.apply, (key, policy), Ok::<(), MapError>(()))
        ==> may_resolve(access.get_runtime, access.get_base, key)
}

/// Whether `r`, with the store at `after`, is how storing and applying `policy`
/// under `key` can have come out.
pub open spec fn put_outcome<
    P: FnOnce(&PersistedStateV1) -> Result<(), StateStoreError>,
    A: FnOnce(TenantKey, Policy) -> Result<(), MapError>,
    Q: FnOnce(&PersistedStateV1) -> Result<(), StateStoreError>,
    R: FnOnce(TenantKey) -> Result<Option<Policy>, MapError>,
    B: FnOnce(TenantKey) -> Result<Option<Policy>, MapError>,
>(
    access: PutAccess<P, A, Q, R, B>,
    before: &StateStore,
    after: &StateStore,
    key: TenantKey,
    policy: Policy,
    r: Result<PolicyUpsertResponse, ApiError>,
) -> bool {
    let stored = with_base(before.desired(), key, policy);
    let was_stored = persisted(access.persist, stored, Ok::<(), StateStoreError>(()));
    match r {
        Ok(response) => {
            &&& moved(before, after, 1, stored)
            &&& was_stored
            &&& call_ensures(access.apply, (key, policy), Ok::<(), MapError>(()))
            &&& exists|found: Option<ResolvedPolicy>| #[trigger]
                chains_resolve(
                    access.get_runtime,
                    access.get_base,
                    key,
                    Ok::<Option<ResolvedPolicy>, MapError>(found),
                ) && response.answers(key, policy, found)
        },
        Err(ApiError::MapOperation(error)) => {
            // The map refused the policy, and the desired state was put back; or it
            // took the policy, and resolving the key failed.
            ||| moved(before, after, 2, before.desired()) && was_stored && persisted(
                access.restore,
                before.desired(),
                Ok::<(), StateStoreError>(()),
            ) && call_ensures(access.apply, (key, policy), Err::<(), MapError>(error))
            ||| moved(before, after, 1, stored) && was_stored && call_ensures(
                access.apply,
                (key, policy),
                Ok::<(), MapError>(()),
            ) && chains_resolve(
                access.get_runtime,
                access.get_base,
                key,
                Err::<Option<ResolvedPolicy>, MapError>(error),
            )
        },
        Err(ApiError::StateStore(error)) => {
            // Nothing was stored; or it was, the map refused it, and putting the
            // desired state back failed.
            ||| moved(before, after, 0, before.desired()) && persisted(
                access.persist,
                stored,
                Err::<(), StateStoreError>(error),
            )
            ||| moved(before, after, 1, stored) && was_stored && persisted(
                access.restore,
                before.desired(),
                Err::<(), StateStoreError>(error),
            ) && exists|refused: MapError| #[trigger]
                call_ensures(access.apply, (key, policy), Err::<(), MapError>(refused))
        },
        Err(_) => false,
    }
}

/// Stores and applies `policy` under `key`, and puts the desired state back when
/// the map refuses it.
fn store_and_apply<
    P: FnOnce(&PersistedStateV1) -> Result<(), StateStoreError>,
    A: FnOnce(TenantKey, Policy) -> Result<(), MapError>,
    Q: FnOnce(&PersistedStateV1) -> Result<(), StateStoreError>,
    R: FnOnce(TenantKey) -> Result<Option<Policy>, MapError>,
    B: FnOnce(TenantKey) -> Result<Option<Policy>, MapError>,
>(
    store: &mut StateStore,
    access: PutAccess<P, A, Q, R, B>,
    key: TenantKey,
    policy: Policy,
) -> (r: Result<PolicyUpsertResponse, ApiError>)
    requires
        may_put(access, old(store).desired(), key, policy),
    ensures
        put_outcome(access, old(store), final(store), key, policy, r),
{
    let ghost before = store.desired();
    let ghost stored = with_base(before, key, policy);
    let PutAccess { persist, apply, restore, get_runtime, get_base } = access;
    let previous = match store.upsert_base_policy(key, policy, persist) {
        Ok(previous) => previous,
        Err(error) => return Err(ApiError::StateStore(error)),
    };
    match apply(key, policy) {
        Ok(unit) => {
            assert(unit == ());
        },
        Err(error) => {
            let rollback: Result<(), StateStoreError> = match previous {
                Some(previous_policy) => {
                    assert(with_base(stored, key, previous_policy).base_policies
                        =~= before.base_policies);
                    match store.upsert_base_policy(key, previous_policy, restore) {
                        Ok(_) => Ok(()),
                        Err(failure) => Err(failure),
                    }
                },
                None => {
                    assert(without_base(stored, key).base_policies =~= before.base_policies);
                    match store.delete_base_policy(key, restore) {
                        Ok(_) => Ok(()),
                        Err(failure) => Err(failure),
                    }
                },
            };
            if let Err(failure) = rollback {
                return Err(ApiError::StateStore(failure));
            }
            return Err(ApiError::MapOperation(error));
        },
    }
    let found = match resolve_chains(key, get_runtime, get_base) {
        Ok(found) => found,
        Err(error) => return Err(ApiError::MapOperation(error)),
    };
    let effective = match found {
        Some(resolved) => resolved,
        None => ResolvedPolicy {
            requested: key,
            matched: key,
            match_level: PolicyMatchLevel::Exact,
            policy,
            source: PolicySource::Base,
        },
    };
    let mut warnings: Vec<&'static str> = Vec::new();
    if partial_l7_policy_key(key) {
        warnings.push(PARTIAL_L7_POLICY_WARNING);
    }
    let response = PolicyUpsertResponse {
        stored: key,
        scope: policy_scope_from_key(key),
        stored_selector: SelectorView::from_tenant(key),
        stored_flow: normalized_flow_key(key),
        precedence: policy_precedence_contract(),
        effective_for_stored: ResolvedPolicyView::from_resolved(effective),
        warnings,
    };
    assert(response.answers(key, policy, found));
    Ok(response)
}

/// The key and policy that a request sets, or why it is refused. In strict mode a
/// key with HTTP selectors but without protocol and port is.
pub open spec fn accepted_put(
    tenant: Seq<char>,
    req: PutPolicyRequest,
    mode: PolicyValidationMode,
) -> Result<(TenantKey, Policy), TenantParseError> {
    match selected_key(tenant, req.selectors) {
        Err(error) => Err(error),
        Ok(key) => if is_partial_l7(key) && mode == PolicyValidationMode::Strict {
            Err(TenantParseError::PartialL7SelectorsRequireFlow)
        } else {
            Ok((key, plain_policy(req.rate_tokens_per_sec, req.burst_tokens, req.enabled)))
        },
    }
}

/// A request that is accepted sets what it asks for: under the key that it selects, the
/// rate and the burst that it gives, and switched on exactly if it says so. Refused is
/// a request without a key, and in strict mode one whose key has a method or a path but
/// lacks a protocol or a port.
pub proof fn a_put_sets_what_it_asks_for(
    tenant: Seq<char>,
    req: PutPolicyRequest,
    mode: PolicyValidationMode,
)
    ensures
        accepted_put(tenant, req, mode) matches Ok((key, policy)) ==> {
            &&& selected_key(tenant, req.selectors) == Ok::<TenantKey, TenantParseError>(key)
            &&& policy.rate_tokens_per_sec == req.rate_tokens_per_sec
            &&& policy.burst_tokens == req.burst_tokens
            &&& (policy.enabled != 0) == req.enabled
            &&& policy.enabled <= 1
        },
        selected_key(tenant, req.selectors) matches Err(error) ==> accepted_put(tenant, req, mode)
            == Err::<(TenantKey, Policy), TenantParseError>(error),
        selected_key(tenant, req.selectors) matches Ok(key) ==> {
            let partial = (key.http_method != 0 || key.http_path_hash != 0) && (key.proto == 0
                || key.dst_port == 0);
            if partial && mode == PolicyValidationMode::Strict {
                accepted_put(tenant, req, mode) == Err::<(TenantKey, Policy), TenantParseError>(
                    TenantParseError::PartialL7SelectorsRequireFlow,
                )
            } else {
                accepted_put(tenant, req, mode) is Ok
            }
        },
{
}

/// Sets a tenant's policy. A key with HTTP selectors but without protocol and
/// port is counted, refused in strict mode, and answered with a warning else. A
/// request that is refused persists nothing and writes nothing.
pub fn put_policy<
    P: FnOnce(&PersistedStateV1) -> Result<(), StateStoreError>,
    A: FnOnce(TenantKey, Policy) -> Result<(), MapError>,
    Q: FnOnce(&PersistedStateV1) -> Result<(), StateStoreError>,
    R: FnOnce(TenantKey) -> Result<Option<Policy>, MapError>,
    B: FnOnce(TenantKey) -> Result<Option<Policy>, MapError>,
>(
    tenant: &str,
    req: &PutPolicyRequest,
    mode: PolicyValidationMode,
    metrics: &mut MetricsState,
    store: &mut StateStore,
    access: PutAccess<P, A, Q, R, B>,
) -> (r: Result<PolicyUpsertResponse, ApiError>)
    requires
        accepted_put(tenant@, *req, mode) matches Ok((key, policy)) ==> may_put(
            access,
            old(store).desired(),
            key,
            policy,
        ),
    ensures
        *final(metrics) == (match selected_key(tenant@, req.selectors) {
            Ok(key) => if is_partial_l7(key) {
                MetricsState {
                    partial_l7_policy_keys_total: old(
                        metrics,
                    ).partial_l7_policy_keys_total.wrapping_add(1),
                    ..*old(metrics)
                }
            } else {
                *old(metrics)
            },
            Err(_) => *old(metrics),
        }),
        match accepted_put(tenant@, *req, mode) {
            Err(error) => {
                &&& r == Err::<PolicyUpsertResponse, ApiError>(ApiError::Tenant(error))
                &&& moved(old(store), final(store), 0, old(store).desired())
            },
            Ok((key, policy)) => put_outcome(access, old(store), final(store), key, policy, r),
        },
{
    let key = match request_key(tenant, &req.selectors) {
        Ok(key) => key,
        Err(error) => return Err(ApiError::Tenant(error)),
    };
    if partial_l7_policy_key(key) {
        metrics.count_partial_l7_policy_key();
        if mode.strict() {
            return Err(ApiError::Tenant(TenantParseError::PartialL7SelectorsRequireFlow));
        }
    }
    let policy = Policy::plain(req.rate_tokens_per_sec, req.burst_tokens, req.enabled);
    store_and_apply(store, access, key, policy)
}

/// What deleting a policy works with: reading the kernel map before, persisting the
/// desired state, deleting from the kernel map, persisting the desired state once
/// more to put it back, and reading the maps along a fallback chain. Each can be
/// called once.
pub struct DeleteAccess<F, P, D, Q, R, B> {
    pub present: F,
    pub persist: P,
    pub delete: D,
    pub restore: Q,
    pub get_runtime: ChainReads<R>,
    pub get_base: ChainReads<B>,
}

/// Whether the policy of `key` may be deleted: whether the map holds it may be read;
/// after that, the state without it may be persisted; once it was, it may be deleted
/// from the map; only where the map refused, and the state had one, the state before
/// may be persisted again; and only once it is gone, the key may be resolved.
pub open spec fn may_delete_policy<
    F: FnOnce(TenantKey) -> Result<Option<Policy>, MapError>,
    P: FnOnce(&PersistedStateV1) -> Result<(), StateStoreError>,
    D: FnOnce(TenantKey) -> Result<(), MapError>,
    Q: FnOnce(&PersistedStateV1) -> Result<(), StateStoreError>,
    R: FnOnce(TenantKey) -> Result<Option<Policy>, MapError>,
    B: FnOnce(TenantKey) -> Result<Option<Policy>, MapError>,
>(access: DeleteAccess<F, P, D, Q, R, B>, before: DesiredState, key: TenantKey) -> bool {
    let removed = without_base(before, key);
    let was_removed = persisted(access.persist, removed, Ok::<(), StateStoreError>(()));
    let was_read = exists|present: Option<Policy>| #[trigger]
        call_ensures(access.present, (key,), Ok::<Option<Policy>, MapError>(present));
    &&& call_requires(access.present, (key,))
    &&& was_read ==> may_persist(access.persist, removed)
    &&& was_read && was_removed ==> call_requires(access.delete, (key,))
    &&& was_read && was_removed && before.base_policies.dom().contains(key) && (exists|
        refused: MapError,
    | #[trigger]
        call_ensures(access.delete, (key,), Err::<(), MapError>(refused))) ==> may_persist(
        access.restore,
        before,
    )
    &&& was_read && was_removed && call_ensures(access.delete, (key,), Ok::<(), MapError>(()))
        ==> may_resolve(access.get_runtime, access.get_base, key)
}

/// Whether `r`, with the store at `after`, is how deleting the policy of `key` can
/// have come out.
pub open spec fn delete_outcome<
    F: FnOnce(TenantKey) -> Result<Option<Policy>, MapError>,
    P: FnOnce(&PersistedStateV1) -> Result<(), StateStoreError>,
    D: FnOnce(TenantKey) -> Result<(), MapError>,
    Q: FnOnce(&PersistedStateV1) -> Result<(), StateStoreError>,
    R: FnOnce(TenantKey) -> Result<Option<Policy>, MapError>,
    B: FnOnce(TenantKey) -> Result<Option<Policy>, MapError>,
>(
    access: DeleteAccess<F, P, D, Q, R, B>,
    before: &StateStore,
    after: &StateStore,
    key: TenantKey,
    r: Result<PolicyDeleteResponse, ApiError>,
) -> bool {
    let removed = without_base(before.desired(), key);
    let was_removed = persisted(access.persist, removed, Ok::<(), StateStoreError>(()));
    let was_read = exists|present: Option<Policy>| #[trigger]
        call_ensures(access.present, (key,), Ok::<Option<Policy>, MapError>(present));
    let had_policy = before.desired().base_policies.dom().contains(key);
    match r {
        Ok(response) => {
            &&& moved(before, after, 1, removed)
            &&& was_removed
            &&& call_ensures(access.delete, (key,), Ok::<(), MapError>(()))
            &&& exists|present: Option<Policy>, found: Option<ResolvedPolicy>|
                {
                    &&& #[trigger] call_ensures(
                        access.present,
                        (key,),
                        Ok::<Option<Policy>, MapError>(present),
                    )
                    &&& #[trigger] chains_resolve(
                        access.get_runtime,
                        access.get_base,
                        key,
                        Ok::<Option<ResolvedPolicy>, MapError>(found),
                    )
                    &&& response.answers(key, present is Some, found)
                }
        },
        Err(ApiError::MapOperation(error)) => {
            // The map could not be read; or it refused the deletion, and the policy
            // was put back where there had been one; or it was deleted, and resolving
            // the key failed.
            ||| moved(before, after, 0, before.desired()) && call_ensures(
                access.present,
                (key,),
                Err::<Option<Policy>, MapError>(error),
            )
            ||| {
                &&& moved(
                    before,
                    after,
                    if had_policy {
                        2
                    } else {
                        1
                    },
                    before.desired(),
                )
                &&& was_read
                &&& was_removed
                &&& had_policy ==> persisted(
                    access.restore,
                    before.desired(),
                    Ok::<(), StateStoreError>(()),
                )
                &&& call_ensures(access.delete, (key,), Err::<(), MapError>(error))
            }
            ||| moved(before, after, 1, removed) && was_read && was_removed && call_ensures(
                access.delete,
                (key,),
                Ok::<(), MapError>(()),
            ) && chains_resolve(
                access.get_runtime,
                access.get_base,
                key,
                Err::<Option<ResolvedPolicy>, MapError>(error),
            )
        },
        Err(ApiError::StateStore(error)) => {
            // Nothing was removed; or it was, the map refused the deletion, and
            // putting the policy back failed.
            ||| moved(before, after, 0, before.desired()) && was_read && persisted(
                access.persist,
                removed,
                Err::<(), StateStoreError>(error),
            )
            ||| had_policy && moved(before, after, 1, removed) && was_read && was_removed
                && persisted(
                access.restore,
                before.desired(),
                Err::<(), StateStoreError>(error),
            ) && exists|refused: MapError| #[trigger]
                call_ensures(access.delete, (key,), Err::<(), MapError>(refused))
        },
        Err(_) => false,
    }
}

/// Deletes a tenant's policy. A request that is refused reads nothing and changes
/// nothing; whether the map held the policy is read before it is deleted.
pub fn delete_policy<
    F: FnOnce(TenantKey) -> Result<Option<Policy>, MapError>,
    P: FnOnce(&PersistedStateV1) -> Result<(), StateStoreError>,
    D: FnOnce(TenantKey) -> Result<(), MapError>,
    Q: FnOnce(&PersistedStateV1) -> Result<(), StateStoreError>,
    R: FnOnce(TenantKey) -> Result<Option<Policy>, MapError>,
    B: FnOnce(TenantKey) -> Result<Option<Policy>, MapError>,
>(
    tenant: &str,
    selectors: &FlowSelectors,
    store: &mut StateStore,
    access: DeleteAccess<F, P, D, Q, R, B>,
) -> (r: Result<PolicyDeleteResponse, ApiError>)
    requires
        selected_key(tenant@, *selectors) matches Ok(key) ==> may_delete_policy(
            access,
            old(store).desired(),
            key,
        ),
    ensures
        match selected_key(tenant@, *selectors) {
            Err(error) => {
                &&& r == Err::<PolicyDeleteResponse, ApiError>(ApiError::Tenant(error))
                &&& moved(old(store), final(store), 0, old(store).desired())
            },
            Ok(key) => delete_outcome(access, old(store), final(store), key, r),
        },
{
    let ghost before = store.desired();
    let key = match request_key(tenant, selectors) {
        Ok(key) => key,
        Err(error) => return Err(ApiError::Tenant(error)),
    };
    let DeleteAccess { present, persist, delete, restore, get_runtime, get_base } = access;
    let found_before = match present(key) {
        Ok(found_before) => found_before,
        Err(error) => return Err(ApiError::MapOperation(error)),
    };
    let previous = match store.delete_base_policy(key, persist) {
        Ok(previous) => previous,
        Err(error) => return Err(ApiError::StateStore(error)),
    };
    match delete(key) {
        Ok(unit) => {
            assert(unit == ());
        },
        Err(error) => {
            match previous {
                Some(previous_policy) => {
                    assert(with_base(
                        without_base(before, key),
                        key,
                        previous_policy,
                    ).base_policies =~= before.base_policies);
                    match store.upsert_base_policy(key, previous_policy, restore) {
                        Ok(_) => {},
                        Err(failure) => return Err(ApiError::StateStore(failure)),
                    }
                },
                None => {
                    assert(without_base(before, key).base_policies =~= before.base_policies);
                },
            }
            return Err(ApiError::MapOperation(error));
        },
    }
    let found = match resolve_chains(key, get_runtime, get_base) {
        Ok(found) => found,
        Err(error) => return Err(ApiError::MapOperation(error)),
    };
    let response = PolicyDeleteResponse {
        deleted: found_before.is_some(),
        deleted_key: key,
        deleted_selector: SelectorView::from_tenant(key),
        deleted_flow: normalized_flow_key(key),
        precedence: policy_precedence_contract(),
        effective_after_delete: view_found(found),
    };
    Ok(response)
}

/// The answer to a deletion tells what was there and what is in force now: where the
/// base map held `base` before and holds it without the key after, `deleted` says
/// whether it held the key, and what is said to be in force is the policy by which
/// packets of the key are judged.
pub proof fn deletion_is_answered_truly<
    F: FnOnce(TenantKey) -> Result<Option<Policy>, MapError>,
    P: FnOnce(&PersistedStateV1) -> Result<(), StateStoreError>,
    D: FnOnce(TenantKey) -> Result<(), MapError>,
    Q: FnOnce(&PersistedStateV1) -> Result<(), StateStoreError>,
    R: FnOnce(TenantKey) -> Result<Option<Policy>, MapError>,
    B: FnOnce(TenantKey) -> Result<Option<Policy>, MapError>,
>(
    access: DeleteAccess<F, P, D, Q, R, B>,
    before: &StateStore,
    after: &StateStore,
    key: TenantKey,
    runtime: Map<TenantKey, Policy>,
    base: Map<TenantKey, Policy>,
    response: PolicyDeleteResponse,
)
    requires
        delete_outcome(access, before, after, key, Ok::<PolicyDeleteResponse, ApiError>(response)),
        forall|answer: Result<Option<Policy>, MapError>| #[trigger]
            call_ensures(access.present, (key,), answer) ==> answer == Ok::<
                Option<Policy>,
                MapError,
            >(lookup(base, key)),
        all_read_map(access.get_runtime, runtime),
        all_read_map(access.get_base, base.remove(key)),
    ensures
        response.deleted == base.dom().contains(key),
        !after.desired().base_policies.dom().contains(key),
        match effective_policy(runtime, base.remove(key), key) {
            Some(policy) => response.effective_after_delete matches Some(view) && view.policy
                == policy_view(policy),
            None => response.effective_after_delete is None,
        },
{
    let (present, found) = choose|present: Option<Policy>, found: Option<ResolvedPolicy>|
        {
            &&& #[trigger] call_ensures(
                access.present,
                (key,),
                Ok::<Option<Policy>, MapError>(present),
            )
            &&& #[trigger] chains_resolve(
                access.get_runtime,
                access.get_base,
                key,
                Ok::<Option<ResolvedPolicy>, MapError>(found),
            )
            &&& response.answers(key, present is Some, found)
        };
    resolution_agrees_with_packet_path(
        access.get_runtime,
        access.get_base,
        runtime,
        base.remove(key),
        key,
        Ok::<Option<ResolvedPolicy>, MapError>(found),
    );
}

/// Deleting is idempotent: on the maps that a deletion leaves, deleting the key once
/// more says that nothing was deleted, and that the same policy is in force.
pub proof fn deleting_again_deletes_nothing<
    F: FnOnce(TenantKey) -> Result<Option<Policy>, MapError>,
    P: FnOnce(&PersistedStateV1) -> Result<(), StateStoreError>,
    D: FnOnce(TenantKey) -> Result<(), MapError>,
    Q: FnOnce(&PersistedStateV1) -> Result<(), StateStoreError>,
    R: FnOnce(TenantKey) -> Result<Option<Policy>, MapError>,
    B: FnOnce(TenantKey) -> Result<Option<Policy>, MapError>,
>(
    access: DeleteAccess<F, P, D, Q, R, B>,
    before: &StateStore,
    after: &StateStore,
    key: TenantKey,
    runtime: Map<TenantKey, Policy>,
    base: Map<TenantKey, Policy>,
    response: PolicyDeleteResponse,
)
    requires
        delete_outcome(access, before, after, key, Ok::<PolicyDeleteResponse, ApiError>(response)),
        forall|answer: Result<Option<Policy>, MapError>| #[trigger]
            call_ensures(access.present, (key,), answer) ==> answer == Ok::<
                Option<Policy>,
                MapError,
            >(lookup(base.remove(key), key)),
        all_read_map(access.get_runtime, runtime),
        all_read_map(access.get_base, base.remove(key)),
    ensures
        !response.deleted,
        match effective_policy(runtime, base.remove(key), key) {
            Some(policy) => response.effective_after_delete matches Some(view) && view.policy
                == policy_view(policy),
            None => response.effective_after_delete is None,
        },
{
    assert(base.remove(key).remove(key) =~= base.remove(key));
    deletion_is_answered_truly(
        access,
        before,
        after,
        key,
        runtime,
        base.remove(key),
        response,
    );
}

/// The answer to setting a policy tells what is in force: where the maps read as
/// `runtime` and as `base` with the policy, it shows the policy by which packets of
/// the key are judged, which is the one set unless a runtime override covers it.
pub proof fn setting_is_answered_truly<
    P: FnOnce(&PersistedStateV1) -> Result<(), StateStoreError>,
    A: FnOnce(TenantKey, Policy) -> Result<(), MapError>,
    Q: FnOnce(&PersistedStateV1) -> Result<(), StateStoreError>,
    R: FnOnce(TenantKey) -> Result<Option<Policy>, MapError>,
    B: FnOnce(TenantKey) -> Result<Option<Policy>, MapError>,
>(
    access: PutAccess<P, A, Q, R, B>,
    before: &StateStore,
    after: &StateStore,
    key: TenantKey,
    policy: Policy,
    runtime: Map<TenantKey, Policy>,
    base: Map<TenantKey, Policy>,
    response: PolicyUpsertResponse,
)
    requires
        put_outcome(
            access,
            before,
            after,
            key,
            policy,
            Ok::<PolicyUpsertResponse, ApiError>(response),
        ),
        all_read_map(access.get_runtime, runtime),
        all_read_map(access.get_base, base.insert(key, policy)),
    ensures
        effective_policy(runtime, base.insert(key, policy), key) matches Some(in_force)
            && response.effective_for_stored.policy == policy_view(in_force),
        lookup(after.desired().base_policies, key) == Some(policy),
{
    let found = choose|found: Option<ResolvedPolicy>| #[trigger]
        chains_resolve(
            access.get_runtime,
            access.get_base,
            key,
            Ok::<Option<ResolvedPolicy>, MapError>(found),
        ) && response.answers(key, policy, found);
    resolution_agrees_with_packet_path(
        access.get_runtime,
        access.get_base,
        runtime,
        base.insert(key, policy),
        key,
        Ok::<Option<ResolvedPolicy>, MapError>(found),
    );
    let chain = crate::common::fallback_chain(key);
}

/// What a request to set a policy leaves behind: success leaves the policy under its
/// key, in the desired state and in the map, tells which key it stored, how specific
/// it is and what is in force, and warns exactly if the key has a method or a path but
/// lacks a protocol or a port.
pub proof fn a_put_stores_the_policy<
    P: FnOnce(&PersistedStateV1) -> Result<(), StateStoreError>,
    A: FnOnce(TenantKey, Policy) -> Result<(), MapError>,
    Q: FnOnce(&PersistedStateV1) -> Result<(), StateStoreError>,
    R: FnOnce(TenantKey) -> Result<Option<Policy>, MapError>,
    B: FnOnce(TenantKey) -> Result<Option<Policy>, MapError>,
>(
    access: PutAccess<P, A, Q, R, B>,
    before: &StateStore,
    after: &StateStore,
    key: TenantKey,
    policy: Policy,
    other: TenantKey,
    response: PolicyUpsertResponse,
)
    requires
        put_outcome(
            access,
            before,
            after,
            key,
            policy,
            Ok::<PolicyUpsertResponse, ApiError>(response),
        ),
    ensures
        after.desired().base_policies.dom().contains(key),
        after.desired().base_policies[key] == policy,
        other != key ==> lookup(after.desired().base_policies, other) == lookup(
            before.desired().base_policies,
            other,
        ),
        after.desired().runtime_overrides == before.desired().runtime_overrides,
        after.desired().essential_tenants == before.desired().essential_tenants,
        after.desired().global_enabled == before.desired().global_enabled,
        after.desired().flow_keys_live == before.desired().flow_keys_live,
        after.desired().version == before.desired().version,
        call_ensures(access.apply, (key, policy), Ok::<(), MapError>(())),
        persisted(access.persist, after.desired(), Ok::<(), StateStoreError>(())),
        response.stored == key,
        response.stored_selector.shows(key),
        response.stored_flow@ == flow_text(key),
        response.scope == scope_of(key),
        response.warnings@.len() == (if (key.http_method != 0 || key.http_path_hash != 0) && (
        key.proto == 0 || key.dst_port == 0) {
            1nat
        } else {
            0nat
        }),
        response.precedence@ == POLICY_PRECEDENCE@,
        forall|i: int|
            0 <= i < response.warnings@.len() ==> (#[trigger] response.warnings@[i])@
                == PARTIAL_L7_POLICY_WARNING@,
        exists|found: Option<ResolvedPolicy>|
            {
                let told = response.effective_for_stored;
                &&& #[trigger] chains_resolve(
                    access.get_runtime,
                    access.get_base,
                    key,
                    Ok::<Option<ResolvedPolicy>, MapError>(found),
                )
                &&& found matches Some(resolved) ==> told.requested == resolved.requested
                    && told.matched == resolved.matched && told.match_level == resolved.match_level
                    && told.source == resolved.source && told.policy.rate_tokens_per_sec
                    == resolved.policy.rate_tokens_per_sec && told.policy.burst_tokens
                    == resolved.policy.burst_tokens && told.policy.enabled == (
                resolved.policy.enabled != 0)
                &&& found is None ==> told.requested == key && told.matched == key
                    && told.match_level == PolicyMatchLevel::Exact && told.source
                    == PolicySource::Base && told.policy.rate_tokens_per_sec
                    == policy.rate_tokens_per_sec && told.policy.burst_tokens == policy.burst_tokens
                    && told.policy.enabled == (policy.enabled != 0)
            },
{
}

/// A request to set a policy that fails leaves the desired state as it was, unless the
/// map took the policy or could not be made to agree: where the map did not take it
/// and the state before could be persisted again, nothing changed.
pub proof fn a_refused_put_changes_nothing<
    P: FnOnce(&PersistedStateV1) -> Result<(), StateStoreError>,
    A: FnOnce(TenantKey, Policy) -> Result<(), MapError>,
    Q: FnOnce(&PersistedStateV1) -> Result<(), StateStoreError>,
    R: FnOnce(TenantKey) -> Result<Option<Policy>, MapError>,
    B: FnOnce(TenantKey) -> Result<Option<Policy>, MapError>,
>(
    access: PutAccess<P, A, Q, R, B>,
    before: &StateStore,
    after: &StateStore,
    key: TenantKey,
    policy: Policy,
    error: ApiError,
)
    requires
        put_outcome(
            access,
            before,
            after,
            key,
            policy,
            Err::<PolicyUpsertResponse, ApiError>(error),
        ),
        !call_ensures(access.apply, (key, policy), Ok::<(), MapError>(())),
        forall|failure: StateStoreError| #[trigger]
            persisted(access.restore, before.desired(), Err::<(), StateStoreError>(failure))
                ==> false,
    ensures
        after.desired() == before.desired(),
        error is MapOperation || error is StateStore,
        error is MapOperation ==> persisted(
            access.restore,
            before.desired(),
            Ok::<(), StateStoreError>(()),
        ),
        error matches ApiError::MapOperation(failure) ==> call_ensures(
            access.apply,
            (key, policy),
            Err::<(), MapError>(failure),
        ) && persisted(
            access.persist,
            with_base(before.desired(), key, policy),
            Ok::<(), StateStoreError>(()),
        ),
        error matches ApiError::StateStore(failure) ==> persisted(
            access.persist,
            with_base(before.desired(), key, policy),
            Err::<(), StateStoreError>(failure),
        ),
{
}

/// What a request to delete a policy leaves behind: success leaves none under the key
/// and every other as it was, tells which key it was, and says that something was
/// deleted exactly if the map held it.
pub proof fn a_deletion_removes_the_policy<
    F: FnOnce(TenantKey) -> Result<Option<Policy>, MapError>,
    P: FnOnce(&PersistedStateV1) -> Result<(), StateStoreError>,
    D: FnOnce(TenantKey) -> Result<(), MapError>,
    Q: FnOnce(&PersistedStateV1) -> Result<(), StateStoreError>,
    R: FnOnce(TenantKey) -> Result<Option<Policy>, MapError>,
    B: FnOnce(TenantKey) -> Result<Option<Policy>, MapError>,
>(
    access: DeleteAccess<F, P, D, Q, R, B>,
    before: &StateStore,
    after: &StateStore,
    key: TenantKey,
    other: TenantKey,
    response: PolicyDeleteResponse,
)
    requires
        delete_outcome(access, before, after, key, Ok::<PolicyDeleteResponse, ApiError>(response)),
    ensures
        !after.desired().base_policies.dom().contains(key),
        other != key ==> lookup(after.desired().base_policies, other) == lookup(
            before.desired().base_policies,
            other,
        ),
        after.desired().runtime_overrides == before.desired().runtime_overrides,
        after.desired().essential_tenants == before.desired().essential_tenants,
        after.desired().global_enabled == before.desired().global_enabled,
        after.desired().flow_keys_live == before.desired().flow_keys_live,
        after.desired().version == before.desired().version,
        call_ensures(access.delete, (key,), Ok::<(), MapError>(())),
        persisted(access.persist, after.desired(), Ok::<(), StateStoreError>(())),
        response.deleted_key == key,
        response.deleted_selector.shows(key),
        response.deleted_flow@ == flow_text(key),
        exists|present: Option<Policy>| #[trigger]
            call_ensures(access.present, (key,), Ok::<Option<Policy>, MapError>(present))
                && response.deleted == (present is Some),
        response.precedence@ == POLICY_PRECEDENCE@,
        exists|found: Option<ResolvedPolicy>|
            {
                &&& #[trigger] chains_resolve(
                    access.get_runtime,
                    access.get_base,
                    key,
                    Ok::<Option<ResolvedPolicy>, MapError>(found),
                )
                &&& found is None <==> response.effective_after_delete is None
                &&& found matches Some(resolved) ==> (
                response.effective_after_delete matches Some(told) && told.requested
                    == resolved.requested && told.matched == resolved.matched && told.match_level
                    == resolved.match_level && told.source == resolved.source)
            },
{
}

/// A request to delete a policy that fails leaves the desired state as it was, unless
/// the map deleted it or the state before could not be persisted again.
pub proof fn a_refused_deletion_changes_nothing<
    F: FnOnce(TenantKey) -> Result<Option<Policy>, MapError>,
    P: FnOnce(&PersistedStateV1) -> Result<(), StateStoreError>,
    D: FnOnce(TenantKey) -> Result<(), MapError>,
    Q: FnOnce(&PersistedStateV1) -> Result<(), StateStoreError>,
    R: FnOnce(TenantKey) -> Result<Option<Policy>, MapError>,
    B: FnOnce(TenantKey) -> Result<Option<Policy>, MapError>,
>(
    access: DeleteAccess<F, P, D, Q, R, B>,
    before: &StateStore,
    after: &StateStore,
    key: TenantKey,
    error: ApiError,
)
    requires
        delete_outcome(access, before, after, key, Err::<PolicyDeleteResponse, ApiError>(error)),
        !call_ensures(access.delete, (key,), Ok::<(), MapError>(())),
        forall|failure: StateStoreError| #[trigger]
            persisted(access.restore, before.desired(), Err::<(), StateStoreError>(failure))
                ==> false,
    ensures
        after.desired() == before.desired(),
        error is MapOperation || error is StateStore,
        error matches ApiError::MapOperation(failure) ==> {
            ||| call_ensures(access.present, (key,), Err::<Option<Policy>, MapError>(failure))
            ||| {
                &&& call_ensures(access.delete, (key,), Err::<(), MapError>(failure))
                &&& exists|present: Option<Policy>| #[trigger]
                    call_ensures(access.present, (key,), Ok::<Option<Policy>, MapError>(present))
                &&& persisted(
                    access.persist,
                    without_base(before.desired(), key),
                    Ok::<(), StateStoreError>(()),
                )
                &&& before.desired().base_policies.dom().contains(key) ==> persisted(
                    access.restore,
                    before.desired(),
                    Ok::<(), StateStoreError>(()),
                )
            }
        },
        error matches ApiError::StateStore(failure) ==> persisted(
            access.persist,
            without_base(before.desired(), key),
            Err::<(), StateStoreError>(failure),
        ),
{
}

/// Switches filtering on or off, in the desired state first and in the kernel map
/// once that was persisted; the desired state is put back when the map refuses, and
/// only then.
pub fn put_admin_enabled<
    P: FnOnce(&PersistedStateV1) -> Result<(), StateStoreError>,
    A: FnOnce(bool) -> Result<(), MapError>,
    Q: FnOnce(&PersistedStateV1) -> Result<(), StateStoreError>,
>(enabled: bool, store: &mut StateStore, persist: P, apply: A, restore: Q) -> (r: Result<
    (),
    ApiError,
>)
    requires
        ({
            let before = old(store).desired();
            let switched = DesiredState { global_enabled: enabled, ..before };
            let was_switched = persisted(persist, switched, Ok::<(), StateStoreError>(()));
            &&& may_persist(persist, switched)
            &&& was_switched ==> call_requires(apply, (enabled,))
            &&& was_switched && (exists|refused: MapError| #[trigger]
                call_ensures(apply, (enabled,), Err::<(), MapError>(refused))) ==> may_persist(
                restore,
                before,
            )
        }),
    ensures
        ({
            let before = old(store).desired();
            let switched = DesiredState { global_enabled: enabled, ..before };
            let was_switched = persisted(persist, switched, Ok::<(), StateStoreError>(()));
            match r {
                Ok(_) => {
                    &&& moved(old(store), final(store), 1, switched)
                    &&& was_switched
                    &&& call_ensures(apply, (enabled,), Ok::<(), MapError>(()))
                },
                Err(ApiError::MapOperation(error)) => {
                    &&& moved(old(store), final(store), 2, before)
                    &&& was_switched
                    &&& persisted(restore, before, Ok::<(), StateStoreError>(()))
                    &&& call_ensures(apply, (enabled,), Err::<(), MapError>(error))
                },
                Err(ApiError::StateStore(error)) => {
                    ||| moved(old(store), final(store), 0, before) && persisted(
                        persist,
                        switched,
                        Err::<(), StateStoreError>(error),
                    )
                    ||| moved(old(store), final(store), 1, switched) && was_switched && persisted(
                        restore,
                        before,
                        Err::<(), StateStoreError>(error),
                    ) && exists|refused: MapError| #[trigger]
                        call_ensures(apply, (enabled,), Err::<(), MapError>(refused))
                },
                Err(_) => false,
            }
        }),
{
    let previous: bool = store.snapshot().global_enabled;
    match store.set_global_enabled(enabled, persist) {
        Ok(_) => {},
        Err(error) => return Err(ApiError::StateStore(error)),
    }
    match apply(enabled) {
        Ok(unit) => {
            assert(unit == ());
            Ok(())
        },
        Err(error) => {
            match store.set_global_enabled(previous, restore) {
                Ok(_) => {},
                Err(failure) => return Err(ApiError::StateStore(failure)),
            }
            Err(ApiError::MapOperation(error))
        },
    }
}

/// Whether filtering is on in the kernel map.
pub fn get_admin_enabled<F: FnOnce() -> Result<bool, MapError>>(
    get_global_enabled: F,
) -> (r: Result<bool, ApiError>)
    requires
        call_requires(get_global_enabled, ()),
    ensures
        match r {
            Ok(enabled) => call_ensures(get_global_enabled, (), Ok::<bool, MapError>(enabled)),
            Err(ApiError::MapOperation(error)) => call_ensures(
                get_global_enabled,
                (),
                Err::<bool, MapError>(error),
            ),
            Err(_) => false,
        },
{
    match get_global_enabled() {
        Ok(enabled) => Ok(enabled),
        Err(error) => Err(ApiError::MapOperation(error)),
    }
}

/// The answer to a request about an essential tenant.
#[derive(Clone, Copy, Debug, PartialEq, Eq, Structural)]
pub struct EssentialTenantResponse {
    pub tenant: u64,
    pub essential: bool,
}

/// The state with `id` marked as essential, or unmarked.
pub open spec fn with_essential(state: DesiredState, id: u64, essential: bool) -> DesiredState {
    DesiredState {
        essential_tenants: if essential {
            state.essential_tenants.insert(id)
        } else {
            state.essential_tenants.remove(id)
        },
        ..state
    }
}

/// Marking a tenant makes it essential, unmarking it makes it not, and neither touches
/// another tenant or anything else of the desired state.
pub proof fn marking_changes_one_tenant(
    state: DesiredState,
    id: u64,
    essential: bool,
    other: u64,
)
    ensures
        with_essential(state, id, essential).essential_tenants.contains(id) == essential,
        other != id ==> with_essential(state, id, essential).essential_tenants.contains(other)
            == state.essential_tenants.contains(other),
        with_essential(state, id, essential).base_policies == state.base_policies,
        with_essential(state, id, essential).runtime_overrides == state.runtime_overrides,
        with_essential(state, id, essential).global_enabled == state.global_enabled,
        with_essential(state, id, essential).flow_keys_live == state.flow_keys_live,
        with_essential(state, id, essential).version == state.version,
{
}

/// Marks or unmarks a tenant as essential, in the desired state first. A request
/// that is refused persists nothing.
pub fn put_tenant_essential<P: FnOnce(&PersistedStateV1) -> Result<(), StateStoreError>>(
    tenant: &str,
    essential: bool,
    store: &mut StateStore,
    tenancy: &mut TenancyState,
    persist: P,
) -> (r: Result<EssentialTenantResponse, ApiError>)
    requires
        crate::tenant::tenant_number(tenant@) matches Ok(id) ==> may_persist(
            persist,
            with_essential(old(store).desired(), id, essential),
        ),
    ensures
        match crate::tenant::tenant_number(tenant@) {
            Err(_) => {
                &&& r == Err::<EssentialTenantResponse, ApiError>(
                    ApiError::Tenant(TenantParseError::Invalid),
                )
                &&& moved(old(store), final(store), 0, old(store).desired())
                &&& final(tenancy)@ == old(tenancy)@
            },
            Ok(id) => {
                let before = old(store).desired();
                let marked = with_essential(before, id, essential);
                match r {
                    Ok(response) => {
                        &&& response == (EssentialTenantResponse { tenant: id, essential })
                        &&& moved(old(store), final(store), 1, marked)
                        &&& persisted(persist, marked, Ok::<(), StateStoreError>(()))
                        &&& final(tenancy)@ == (if essential {
                            old(tenancy)@.insert(id)
                        } else {
                            old(tenancy)@.remove(id)
                        })
                    },
                    Err(ApiError::StateStore(error)) => {
                        &&& moved(old(store), final(store), 0, before)
                        &&& final(tenancy)@ == old(tenancy)@
                        &&& persisted(persist, marked, Err::<(), StateStoreError>(error))
                    },
                    Err(_) => false,
                }
            },
        },
{
    let cgroup_id: u64 = match parse_tenant_cgroup_id(tenant) {
        Ok(id) => id,
        Err(error) => return Err(ApiError::Tenant(error)),
    };
    match store.set_essential_tenant(cgroup_id, essential, persist) {
        Ok(_) => {},
        Err(error) => return Err(ApiError::StateStore(error)),
    }
    tenancy.set_essential(cgroup_id, essential);
    Ok(EssentialTenantResponse { tenant: cgroup_id, essential })
}

/// Whether a tenant is essential.
pub fn tenant_essential(tenant: &str, tenancy: &TenancyState) -> (r: Result<
    EssentialTenantResponse,
    ApiError,
>)
    ensures
        r == (match crate::tenant::tenant_number(tenant@) {
            Err(_) => Err(ApiError::Tenant(TenantParseError::Invalid)),
            Ok(id) => Ok(EssentialTenantResponse { tenant: id, essential: tenancy@.contains(id) }),
        }),
{
    match parse_tenant_cgroup_id(tenant) {
        Ok(id) => Ok(EssentialTenantResponse { tenant: id, essential: tenancy.is_essential(id) }),
        Err(error) => Err(ApiError::Tenant(error)),
    }
}

/// A policy that was set is read back under its key, and no other key's changed;
/// one that was deleted is gone, and no other.
pub proof fn base_policies_read_back(
    state: DesiredState,
    key: TenantKey,
    policy: Policy,
    other: TenantKey,
)
    ensures
        lookup(with_base(state, key, policy).base_policies, key) == Some(policy),
        lookup(without_base(state, key).base_policies, key) is None,
        other != key ==> lookup(with_base(state, key, policy).base_policies, other) == lookup(
            state.base_policies,
            other,
        ),
        other != key ==> lookup(without_base(state, key).base_policies, other) == lookup(
            state.base_policies,
            other,
        ),
{
}

/// The content type of the metrics answer.
pub const METRICS_CONTENT_TYPE: &'static str = "text/plain; version=0.0.4; charset=utf-8";

/// Answers a request for metrics.
pub fn metrics<F: FnOnce() -> Result<Vec<(TenantKey, Counters)>, MapError>>(
    state: &mut MetricsState,
    collect: F,
    dimensions: MetricsDimensions,
) -> (r: Result<String, ApiError>)
    requires
        call_requires(collect, ()),
    ensures
        *final(state) == (MetricsState { daemon_up: 1, ..*old(state) }),
        match r {
            Ok(text) => exists|counters: Vec<(TenantKey, Counters)>| #[trigger]
                call_ensures(
                    collect,
                    (),
                    Ok::<Vec<(TenantKey, Counters)>, MapError>(counters),
                ) && text@ == final(state).text() + tenant_text(
                    counters@,
                    dimensions == MetricsDimensions::PerFlow,
                ),
            Err(ApiError::Metrics(MetricsError::MapRead(error))) => call_ensures(
                collect,
                (),
                Err::<Vec<(TenantKey, Counters)>, MapError>(error),
            ),
            Err(_) => false,
        },
{
    match render_metrics_payload(state, collect, dimensions.enabled()) {
        Ok(payload) => Ok(payload),
        Err(error) => Err(ApiError::Metrics(error)),
    }
}

/// A row of the list of tenants with the most drops.
#[derive(Clone, Copy, Debug, PartialEq, Eq, Structural)]
pub struct TopRow {
    pub tenant: TenantKey,
    pub counters: Counters,
}

impl Placed for TopRow {
    /// More dropped packets come first, then more dropped bytes, then the smaller
    /// key.
    open spec fn place(self) -> int {
        ((u64::MAX - self.counters.drop_pkts) * 0x1_0000_0000_0000_0000 + (u64::MAX
            - self.counters.drop_bytes)) * 0x1_0000_0000_0000_0000_0000_0000_0000_0000
            + self.tenant.rank()
    }

    fn goes_before(&self, other: &Self) -> (r: bool) {
        if self.counters.drop_pkts != other.counters.drop_pkts {
            return self.counters.drop_pkts > other.counters.drop_pkts;
        }
        if self.counters.drop_bytes != other.counters.drop_bytes {
            return self.counters.drop_bytes > other.counters.drop_bytes;
        }
        self.tenant.precedes(&other.tenant)
    }
}

/// The counters of a tenant as they are shown.
#[derive(Debug)]
pub struct TenantCounterView {
    pub tenant: TenantKey,
    pub flow: String,
    pub pass_pkts: u64,
    pub drop_pkts: u64,
    pub pass_bytes: u64,
    pub drop_bytes: u64,
}

impl TenantCounterView {
    /// Whether the view shows `row`.
    pub open spec fn shows(self, row: TopRow) -> bool {
        &&& self.tenant == row.tenant
        &&& self.flow@ == flow_text(row.tenant)
        &&& self.pass_pkts == row.counters.pass_pkts
        &&& self.drop_pkts == row.counters.drop_pkts
        &&& self.pass_bytes == row.counters.pass_bytes
        &&& self.drop_bytes == row.counters.drop_bytes
    }
}

/// The rows of `counters`.
pub open spec fn top_rows(counters: Seq<(TenantKey, Counters)>) -> Seq<TopRow> {
    counters.map_values(
        |row: (TenantKey, Counters)| TopRow { tenant: row.0, counters: row.1 },
    )
}

/// Whether `views` show the first `limit` rows of `counters` in their order.
pub open spec fn shows_top(
    views: Seq<TenantCounterView>,
    counters: Seq<(TenantKey, Counters)>,
    limit: int,
) -> bool {
    exists|sorted: Seq<TopRow>|
        {
            &&& #[trigger] in_order(sorted)
            &&& sorted.to_multiset() == top_rows(counters).to_multiset()
            &&& views.len() == (if limit < sorted.len() {
                limit
            } else {
                sorted.len() as int
            })
            &&& forall|i: int| 0 <= i < views.len() ==> (#[trigger] views[i]).shows(sorted[i])
        }
}

/// The tenants with the most drops.
pub fn build_top_tenants(counters: Vec<(TenantKey, Counters)>, limit: usize) -> (views: Vec<
    TenantCounterView,
>)
    ensures
        shows_top(views@, counters@, limit as int),
{
    let mut rows: Vec<TopRow> = Vec::new();
    let mut i: usize = 0;
    while i < counters.len()
        invariant
            i <= counters@.len(),
            rows@.len() == i,
            forall|j: int| 0 <= j < i ==> #[trigger] rows@[j] == top_rows(counters@)[j],
        decreases counters@.len() - i,
    {
        rows.push(TopRow { tenant: counters[i].0, counters: counters[i].1 });
        i += 1;
    }
    assert(rows@ =~= top_rows(counters@));
    let sorted = sort_rows(rows.as_slice());
    let mut views: Vec<TenantCounterView> = Vec::new();
    let mut k: usize = 0;
    while k < sorted.len() && k < limit
        invariant
            k <= sorted@.len(),
            k <= limit,
            views@.len() == k,
            forall|j: int| 0 <= j < k ==> (#[trigger] views@[j]).shows(sorted@[j]),
        decreases sorted@.len() - k,
    {
        let row: TopRow = sorted[k];
        views.push(
            TenantCounterView {
                tenant: row.tenant,
                flow: normalized_flow_key(row.tenant),
                pass_pkts: row.counters.pass_pkts,
                drop_pkts: row.counters.drop_pkts,
                pass_bytes: row.counters.pass_bytes,
                drop_bytes: row.counters.drop_bytes,
            },
        );
        k += 1;
    }
    assert(in_order(sorted@));
    views
}

/// Whether `a` is listed before `b`, or as soon: by more dropped packets, then more
/// dropped bytes, then the smaller key.
pub open spec fn listed_no_later(a: TopRow, b: TopRow) -> bool {
    ||| a.counters.drop_pkts > b.counters.drop_pkts
    ||| a.counters.drop_pkts == b.counters.drop_pkts && a.counters.drop_bytes
        > b.counters.drop_bytes
    ||| a.counters.drop_pkts == b.counters.drop_pkts && a.counters.drop_bytes
        == b.counters.drop_bytes && a.tenant.rank() <= b.tenant.rank()
}

/// The row that a view shows.
pub open spec fn row_of(view: TenantCounterView) -> TopRow {
    TopRow {
        tenant: view.tenant,
        counters: Counters {
            pass_pkts: view.pass_pkts,
            drop_pkts: view.drop_pkts,
            pass_bytes: view.pass_bytes,
            drop_bytes: view.drop_bytes,
        },
    }
}

/// The list of tenants with the most drops is just that: it has as many entries as the
/// limit and the counters allow, each shows one of the counters as it is, they come in
/// order of their drops, and what is left out has no more drops than what is listed.
pub proof fn the_top_is_the_top(
    views: Seq<TenantCounterView>,
    counters: Seq<(TenantKey, Counters)>,
    limit: int,
)
    requires
        shows_top(views, counters, limit),
        limit >= 0,
    ensures
        views.len() == (if limit < counters.len() {
            limit
        } else {
            counters.len() as int
        }),
        forall|k: int|
            0 <= k < views.len() ==> (#[trigger] views[k]).flow@ == flow_text(views[k].tenant)
                && counters.contains((row_of(views[k]).tenant, row_of(views[k]).counters)),
        forall|j: int, k: int|
            0 <= j < k < views.len() ==> listed_no_later(
                row_of(#[trigger] views[j]),
                row_of(#[trigger] views[k]),
            ),
        forall|i: int, k: int|
            0 <= i < counters.len() && 0 <= k < views.len() && (forall|m: int|
                0 <= m < views.len() ==> row_of(#[trigger] views[m]) != (TopRow {
                    tenant: counters[i].0,
                    counters: counters[i].1,
                })) ==> listed_no_later(
                row_of(#[trigger] views[k]),
                TopRow { tenant: (#[trigger] counters[i]).0, counters: counters[i].1 },
            ),
{
    let rows = top_rows(counters);
    let sorted = rows_behind(views, counters, limit);
    assert forall|k: int| 0 <= k < views.len() implies (#[trigger] views[k]).flow@ == flow_text(
        views[k].tenant,
    ) && counters.contains((row_of(views[k]).tenant, row_of(views[k]).counters)) by {
        assert(row_of(views[k]) == sorted[k]);
        assert(rows.contains(sorted[k]));
        let i = choose|i: int| 0 <= i < rows.len() && rows[i] == sorted[k];
        assert(counters[i] == (row_of(views[k]).tenant, row_of(views[k]).counters));
    }
    assert forall|i: int, k: int|
        0 <= i < counters.len() && 0 <= k < views.len() && (forall|m: int|
            0 <= m < views.len() ==> row_of(#[trigger] views[m]) != (TopRow {
                tenant: counters[i].0,
                counters: counters[i].1,
            })) implies listed_no_later(
        row_of(#[trigger] views[k]),
        TopRow { tenant: (#[trigger] counters[i]).0, counters: counters[i].1 },
    ) by {
        let row = TopRow { tenant: counters[i].0, counters: counters[i].1 };
        assert(rows[i] == row);
        assert(rows.contains(row));
        assert(sorted.contains(row));
        let at = choose|at: int| 0 <= at < sorted.len() && sorted[at] == row;
        if at < views.len() {
            assert(row_of(views[at]) == row);
        }
        assert(listed_no_later(sorted[k], sorted[at]));
    }
}

/// The rows of which `views` show the first.
proof fn rows_behind(
    views: Seq<TenantCounterView>,
    counters: Seq<(TenantKey, Counters)>,
    limit: int,
) -> (sorted: Seq<TopRow>)
    requires
        shows_top(views, counters, limit),
        limit >= 0,
    ensures
        sorted.len() == counters.len(),
        views.len() == (if limit < sorted.len() {
            limit
        } else {
            sorted.len() as int
        }),
        forall|row: TopRow| #[trigger]
            sorted.contains(row) == top_rows(counters).contains(row),
        forall|k: int|
            0 <= k < views.len() ==> row_of(#[trigger] views[k]) == sorted[k]
                && top_rows(counters).contains(sorted[k]) && views[k].flow@ == flow_text(
                views[k].tenant,
            ),
        forall|j: int, k: int|
            0 <= j < k < sorted.len() ==> #[trigger] listed_no_later(sorted[j], sorted[k]),
{
    let rows = top_rows(counters);
    let sorted = choose|sorted: Seq<TopRow>|
        {
            &&& #[trigger] in_order(sorted)
            &&& sorted.to_multiset() == rows.to_multiset()
            &&& views.len() == (if limit < sorted.len() {
                limit
            } else {
                sorted.len() as int
            })
            &&& forall|i: int| 0 <= i < views.len() ==> (#[trigger] views[i]).shows(sorted[i])
        };
    sorted.to_multiset_ensures();
    rows.to_multiset_ensures();
    assert forall|row: TopRow| #[trigger] sorted.contains(row) == rows.contains(row) by {
        assert(sorted.contains(row) == (sorted.to_multiset().count(row) > 0));
        assert(rows.contains(row) == (rows.to_multiset().count(row) > 0));
    }
    assert forall|k: int| 0 <= k < views.len() implies row_of(#[trigger] views[k]) == sorted[k]
        && rows.contains(sorted[k]) && views[k].flow@ == flow_text(views[k].tenant) by {
        assert(views[k].shows(sorted[k]));
        assert(sorted.contains(sorted[k]));
    }
    assert forall|j: int, k: int| 0 <= j < k < sorted.len() implies #[trigger] listed_no_later(
        sorted[j],
        sorted[k],
    ) by {
        ordered_rows_are_listed(sorted, j, k);
    }
    sorted
}

proof fn ordered_rows_are_listed(sorted: Seq<TopRow>, j: int, k: int)
    requires
        in_order(sorted),
        0 <= j < k < sorted.len(),
    ensures
        listed_no_later(sorted[j], sorted[k]),
{
    assert(sorted[j].place() <= sorted[k].place());
    place_is_lexicographic(sorted[k], sorted[j]);
}

/// The places of rows compare as dropped packets, dropped bytes and key do.
pub proof fn place_is_lexicographic(a: TopRow, b: TopRow)
    ensures
        a.place() < b.place() <==> {
            ||| a.counters.drop_pkts > b.counters.drop_pkts
            ||| a.counters.drop_pkts == b.counters.drop_pkts && a.counters.drop_bytes
                > b.counters.drop_bytes
            ||| a.counters.drop_pkts == b.counters.drop_pkts && a.counters.drop_bytes
                == b.counters.drop_bytes && a.tenant.rank() < b.tenant.rank()
        },
{
}

/// Reason totals as they are shown.
#[derive(Clone, Copy, Debug, PartialEq, Eq, Structural)]
pub struct ReasonBucketsView {
    pub no_tokens: u64,
    pub no_policy: u64,
    pub parse_fail: u64,
}

/// Global totals as they are shown.
#[derive(Clone, Copy, Debug, PartialEq, Eq, Structural)]
pub struct GlobalStatsView {
    pub pass_pkts: u64,
    pub drop_pkts: u64,
    pub pass_bytes: u64,
    pub drop_bytes: u64,
    pub reasons: ReasonBucketsView,
}

/// Global totals as they are shown.
pub open spec fn stats_view(stats: GlobalStats) -> GlobalStatsView {
    GlobalStatsView {
        pass_pkts: stats.pass_pkts,
        drop_pkts: stats.drop_pkts,
        pass_bytes: stats.pass_bytes,
        drop_bytes: stats.drop_bytes,
        reasons: ReasonBucketsView {
            no_tokens: stats.reasons.no_tokens,
            no_policy: stats.reasons.no_policy,
            parse_fail: stats.reasons.parse_fail,
        },
    }
}

impl GlobalStatsView {
    /// Shows global totals.
    pub fn from_stats(stats: GlobalStats) -> (view: Self)
        ensures
            view == stats_view(stats),
            view.pass_pkts == stats.pass_pkts,
            view.drop_pkts == stats.drop_pkts,
            view.pass_bytes == stats.pass_bytes,
            view.drop_bytes == stats.drop_bytes,
            view.reasons.no_tokens == stats.reasons.no_tokens,
            view.reasons.no_policy == stats.reasons.no_policy,
            view.reasons.parse_fail == stats.reasons.parse_fail,
    {
        let reasons: ReasonBuckets = stats.reasons;
        GlobalStatsView {
            pass_pkts: stats.pass_pkts,
            drop_pkts: stats.drop_pkts,
            pass_bytes: stats.pass_bytes,
            drop_bytes: stats.drop_bytes,
            reasons: ReasonBucketsView {
                no_tokens: reasons.no_tokens,
                no_policy: reasons.no_policy,
                parse_fail: reasons.parse_fail,
            },
        }
    }
}

/// Load, controller state and totals at one moment.
#[derive(Debug)]
pub struct BenchmarkSnapshot {
    pub version: u16,
    pub ts_unix_ms: u64,
    pub cpu: CpuWindowSample,
    pub system_memory_basis_points: u32,
    pub adaptive_state: AdaptiveState,
    pub adaptive_high_watermark_percent: u8,
    pub adaptive_low_watermark_percent: u8,
    pub adaptive_managed_override_count: u64,
    pub global: GlobalStatsView,
    pub top_tenants: Vec<TenantCounterView>,
}

/// Takes a snapshot, given the time, the load and the controller's report. A time
/// past the range is shown as its end.
pub fn debug_snapshot<
    G: FnOnce() -> Result<GlobalStats, MapError>,
    F: FnOnce() -> Result<Vec<(TenantKey, Counters)>, MapError>,
>(
    ts_unix_ms: u128,
    cpu: CpuWindowSample,
    system_memory_basis_points: u32,
    report: AdaptiveRuntimeSnapshot,
    adaptive: &AdaptiveConfig,
    debug_top_tenants: usize,
    read_global_stats: G,
    collect: F,
) -> (r: Result<BenchmarkSnapshot, ApiError>)
    requires
        call_requires(read_global_stats, ()),
        forall|stats: GlobalStats| #[trigger]
            call_ensures(read_global_stats, (), Ok::<GlobalStats, MapError>(stats))
                ==> call_requires(collect, ()),
    ensures
        match r {
            Ok(snapshot) => {
                &&& snapshot.version == DEBUG_SNAPSHOT_SCHEMA_VERSION == 3
                &&& snapshot.ts_unix_ms == (if ts_unix_ms > u64::MAX {
                    u64::MAX as int
                } else {
                    ts_unix_ms as int
                })
                &&& snapshot.cpu == cpu
                &&& snapshot.system_memory_basis_points == system_memory_basis_points
                &&& snapshot.adaptive_state == report.state
                &&& snapshot.adaptive_high_watermark_percent == adaptive.high_watermark_percent
                &&& snapshot.adaptive_low_watermark_percent == adaptive.low_watermark_percent
                &&& snapshot.adaptive_managed_override_count == report.active_override_count
                &&& exists|stats: GlobalStats, counters: Vec<(TenantKey, Counters)>|
                    {
                        &&& #[trigger] call_ensures(
                            read_global_stats,
                            (),
                            Ok::<GlobalStats, MapError>(stats),
                        )
                        &&& #[trigger] call_ensures(
                            collect,
                            (),
                            Ok::<Vec<(TenantKey, Counters)>, MapError>(counters),
                        )
                        &&& snapshot.global == stats_view(stats)
                        &&& shows_top(
                            snapshot.top_tenants@,
                            counters@,
                            debug_top_tenants as int,
                        )
                    }
            },
            Err(ApiError::MapOperation(error)) => {
                ||| call_ensures(
                    read_global_stats,
                    (),
                    Err::<GlobalStats, MapError>(error),
                )
                ||| (exists|stats: GlobalStats| #[trigger]
                    call_ensures(read_global_stats, (), Ok::<GlobalStats, MapError>(stats)))
                    && call_ensures(
                    collect,
                    (),
                    Err::<Vec<(TenantKey, Counters)>, MapError>(error),
                )
            },
            Err(_) => false,
        },
{
    let stats = match read_global_stats() {
        Ok(stats) => stats,
        Err(error) => return Err(ApiError::MapOperation(error)),
    };
    let counters = match collect() {
        Ok(counters) => counters,
        Err(error) => return Err(ApiError::MapOperation(error)),
    };
    let top_tenants = build_top_tenants(counters, debug_top_tenants);
    let ts: u64 = if ts_unix_ms > 0xffff_ffff_ffff_ffff {
        0xffff_ffff_ffff_ffff
    } else {
        ts_unix_ms as u64
    };
    Ok(
        BenchmarkSnapshot {
            version: DEBUG_SNAPSHOT_SCHEMA_VERSION,
            ts_unix_ms: ts,
            cpu,
            system_memory_basis_points,
            adaptive_state: report.state,
            adaptive_high_watermark_percent: adaptive.high_watermark_percent,
            adaptive_low_watermark_percent: adaptive.low_watermark_percent,
            adaptive_managed_override_count: report.active_override_count,
            global: GlobalStatsView::from_stats(stats),
            top_tenants,
        },
    )
}

} // verus!
