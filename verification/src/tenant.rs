//! Tenant references as users write them, and labels for flow keys.

use vstd::prelude::*;
use vstd::utf8::encode_utf8;

use crate::common::{fnv1a, fnv1a_32, TenantKey, HTTP_METHOD_GET, HTTP_METHOD_POST};
use crate::text::{
    decimal, hex8, lower_all, matches_at, number, occurs_at, parse_u64, push_hex8, push_u64,
    same_ignoring_case, slice_chars, starts_with, to_chars, u64_text,
};

verus! {

/// Why a tenant reference was refused.
#[derive(Clone, Copy, Debug, PartialEq, Eq, Structural)]
pub enum TenantParseError {
    Invalid,
    InvalidProto,
    InvalidHttpMethod,
    MissingDstPort,
    MissingProto,
    PathHashMismatch,
    PartialL7SelectorsRequireFlow,
}

/// The wording of a refusal.
pub open spec fn tenant_error_text(error: TenantParseError) -> Seq<char> {
    match error {
        TenantParseError::Invalid => "invalid tenant key"@,
        TenantParseError::InvalidProto => "invalid proto, expected tcp|udp"@,
        TenantParseError::InvalidHttpMethod => "invalid http_method, expected get|post"@,
        TenantParseError::MissingDstPort => "dst_port is required when proto is set"@,
        TenantParseError::MissingProto => "proto is required when dst_port is set"@,
        TenantParseError::PathHashMismatch => "http_path and http_path_hash mismatch"@,
        TenantParseError::PartialL7SelectorsRequireFlow =>
            "http selectors require both proto and dst_port when strict policy validation is enabled"@,
    }
}

/// Each refusal says what was wrong with the request.
pub proof fn refusals_are_worded()
    ensures
        tenant_error_text(TenantParseError::Invalid) == "invalid tenant key"@,
        tenant_error_text(TenantParseError::InvalidProto) == "invalid proto, expected tcp|udp"@,
        tenant_error_text(TenantParseError::InvalidHttpMethod)
            == "invalid http_method, expected get|post"@,
        tenant_error_text(TenantParseError::MissingDstPort)
            == "dst_port is required when proto is set"@,
        tenant_error_text(TenantParseError::MissingProto)
            == "proto is required when dst_port is set"@,
        tenant_error_text(TenantParseError::PathHashMismatch)
            == "http_path and http_path_hash mismatch"@,
        tenant_error_text(TenantParseError::PartialL7SelectorsRequireFlow)
            == "http selectors require both proto and dst_port when strict policy validation is enabled"@,
{
}

impl TenantParseError {
    /// The wording of the refusal.
    pub fn message(self) -> (text: &'static str)
        ensures
            text@ == tenant_error_text(self),
    {
        match self {
            TenantParseError::Invalid => "invalid tenant key",
            TenantParseError::InvalidProto => "invalid proto, expected tcp|udp",
            TenantParseError::InvalidHttpMethod => "invalid http_method, expected get|post",
            TenantParseError::MissingDstPort => "dst_port is required when proto is set",
            TenantParseError::MissingProto => "proto is required when dst_port is set",
            TenantParseError::PathHashMismatch => "http_path and http_path_hash mismatch",
            TenantParseError::PartialL7SelectorsRequireFlow =>
                "http selectors require both proto and dst_port when strict policy validation is enabled",
        }
    }
}

/// A protocol that flows can be selected by.
#[derive(Clone, Copy, Debug, PartialEq, Eq, Structural)]
pub enum FlowProto {
    Tcp,
    Udp,
}

impl FlowProto {
    /// The protocol's number in IP headers.
    pub open spec fn number(self) -> u8 {
        match self {
            FlowProto::Tcp => 6,
            FlowProto::Udp => 17,
        }
    }

    /// The protocol that `raw` names, in any case.
    pub open spec fn named(raw: Seq<char>) -> Result<FlowProto, TenantParseError> {
        if lower_all(raw) == lower_all("tcp"@) {
            Ok(FlowProto::Tcp)
        } else if lower_all(raw) == lower_all("udp"@) {
            Ok(FlowProto::Udp)
        } else {
            Err(TenantParseError::InvalidProto)
        }
    }

    pub fn parse(raw: &str) -> (r: Result<FlowProto, TenantParseError>)
        ensures
            r == FlowProto::named(raw@),
    {
        if same_ignoring_case(raw, "tcp") {
            return Ok(FlowProto::Tcp);
        }
        if same_ignoring_case(raw, "udp") {
            return Ok(FlowProto::Udp);
        }
        Err(TenantParseError::InvalidProto)
    }

    pub fn to_u8(self) -> (n: u8)
        ensures
            n == self.number(),
    {
        match self {
            FlowProto::Tcp => 6,
            FlowProto::Udp => 17,
        }
    }
}

/// Whether `raw` is the three letters `a`, `b`, `c`, each in lower or upper case.
pub open spec fn spells3(raw: Seq<char>, a: char, b: char, c: char) -> bool {
    &&& raw.len() == 3
    &&& raw[0] == a || raw[0] as int == a as int - 32
    &&& raw[1] == b || raw[1] as int == b as int - 32
    &&& raw[2] == c || raw[2] as int == c as int - 32
}

/// Whether `raw` is the four letters `a`, `b`, `c`, `d`, each in lower or upper case.
pub open spec fn spells4(raw: Seq<char>, a: char, b: char, c: char, d: char) -> bool {
    &&& raw.len() == 4
    &&& raw[0] == a || raw[0] as int == a as int - 32
    &&& raw[1] == b || raw[1] as int == b as int - 32
    &&& raw[2] == c || raw[2] as int == c as int - 32
    &&& raw[3] == d || raw[3] as int == d as int - 32
}

/// TCP and UDP can be named, each by its three letters in any case, and nothing else.
pub proof fn protocols_are_named_by_their_letters(raw: Seq<char>)
    ensures
        FlowProto::named(raw) == Ok::<FlowProto, TenantParseError>(FlowProto::Tcp) <==> spells3(
            raw,
            't',
            'c',
            'p',
        ),
        FlowProto::named(raw) == Ok::<FlowProto, TenantParseError>(FlowProto::Udp) <==> spells3(
            raw,
            'u',
            'd',
            'p',
        ),
        FlowProto::named(raw) is Err ==> FlowProto::named(raw) == Err::<
            FlowProto,
            TenantParseError,
        >(TenantParseError::InvalidProto),
        FlowProto::Tcp.number() == 6,
        FlowProto::Udp.number() == 17,
{
    reveal_strlit("tcp");
    reveal_strlit("udp");
    same_letters3(raw, "tcp"@);
    same_letters3(raw, "udp"@);
}

proof fn same_letters3(raw: Seq<char>, word: Seq<char>)
    requires
        word.len() == 3,
        forall|i: int| 0 <= i < 3 ==> 'a' <= #[trigger] word[i] <= 'z',
    ensures
        lower_all(raw) == lower_all(word) <==> spells3(raw, word[0], word[1], word[2]),
{
    if lower_all(raw) == lower_all(word) {
        assert(lower_all(raw).len() == raw.len());
        assert(lower_all(raw)[0] == lower_all(word)[0]);
        assert(lower_all(raw)[1] == lower_all(word)[1]);
        assert(lower_all(raw)[2] == lower_all(word)[2]);
    }
    if spells3(raw, word[0], word[1], word[2]) {
        assert(lower_all(raw) =~= lower_all(word));
    }
}

/// An HTTP method that flows can be selected by: those that packets are parsed
/// for.
#[derive(Clone, Copy, Debug, PartialEq, Eq, Structural)]
pub enum HttpMethod {
    Get,
    Post,
}

impl HttpMethod {
    /// The method's number in flow keys.
    pub open spec fn number(self) -> u8 {
        match self {
            HttpMethod::Get => HTTP_METHOD_GET,
            HttpMethod::Post => HTTP_METHOD_POST,
        }
    }

    /// The method that `raw` names, in any case.
    pub open spec fn named(raw: Seq<char>) -> Result<HttpMethod, TenantParseError> {
        if lower_all(raw) == lower_all("get"@) {
            Ok(HttpMethod::Get)
        } else if lower_all(raw) == lower_all("post"@) {
            Ok(HttpMethod::Post)
        } else {
            Err(TenantParseError::InvalidHttpMethod)
        }
    }

    pub fn parse(raw: &str) -> (r: Result<HttpMethod, TenantParseError>)
        ensures
            r == HttpMethod::named(raw@),
    {
        if same_ignoring_case(raw, "get") {
            return Ok(HttpMethod::Get);
        }
        if same_ignoring_case(raw, "post") {
            return Ok(HttpMethod::Post);
        }
        Err(TenantParseError::InvalidHttpMethod)
    }

    pub fn to_u8(self) -> (n: u8)
        ensures
            n == self.number(),
    {
        match self {
            HttpMethod::Get => HTTP_METHOD_GET,
            HttpMethod::Post => HTTP_METHOD_POST,
        }
    }
}

/// GET and POST can be named, each by its letters in any case, and nothing else.
pub proof fn methods_are_named_by_their_letters(raw: Seq<char>)
    ensures
        HttpMethod::named(raw) == Ok::<HttpMethod, TenantParseError>(HttpMethod::Get) <==> spells3(
            raw,
            'g',
            'e',
            't',
        ),
        HttpMethod::named(raw) == Ok::<HttpMethod, TenantParseError>(HttpMethod::Post)
            <==> spells4(raw, 'p', 'o', 's', 't'),
        HttpMethod::named(raw) is Err ==> HttpMethod::named(raw) == Err::<
            HttpMethod,
            TenantParseError,
        >(TenantParseError::InvalidHttpMethod),
        HttpMethod::Get.number() == 1,
        HttpMethod::Post.number() == 2,
{
    reveal_strlit("get");
    reveal_strlit("post");
    same_letters3(raw, "get"@);
    let post = "post"@;
    if lower_all(raw) == lower_all(post) {
        assert(lower_all(raw).len() == raw.len());
        assert(lower_all(raw)[0] == lower_all(post)[0]);
        assert(lower_all(raw)[1] == lower_all(post)[1]);
        assert(lower_all(raw)[2] == lower_all(post)[2]);
        assert(lower_all(raw)[3] == lower_all(post)[3]);
    }
    if spells4(raw, 'p', 'o', 's', 't') {
        assert(lower_all(raw) =~= lower_all(post));
    }
}

/// A tenant with the selectors that narrow it down.
#[derive(Clone, Copy, Debug, PartialEq, Eq)]
pub struct TenantRef {
    pub cgroup_id: u64,
    pub proto: Option<FlowProto>,
    pub dst_port: Option<u16>,
    pub http_method: Option<HttpMethod>,
    pub http_path_hash: Option<u32>,
}

/// A tenant without selectors.
pub open spec fn bare_tenant(cgroup_id: u64) -> TenantRef {
    TenantRef { cgroup_id, proto: None, dst_port: None, http_method: None, http_path_hash: None }
}

/// The cgroup that a tenant reference names: a decimal number, which `cg:` may
/// precede.
pub open spec fn tenant_number(raw: Seq<char>) -> Result<u64, crate::text::NumberError> {
    if starts_with(raw, "cg:"@) {
        number(raw.skip(3))
    } else {
        number(raw)
    }
}

/// `cg:` before a tenant reference is skipped once, and is not needed.
pub proof fn the_prefix_is_optional(raw: Seq<char>)
    ensures
        tenant_number(seq!['c', 'g', ':'] + raw) == number(raw),
        !(raw.len() >= 3 && raw[0] == 'c' && raw[1] == 'g' && raw[2] == ':') ==> tenant_number(raw)
            == number(raw),
{
    reveal_strlit("cg:");
    let prefix = "cg:"@;
    assert(prefix =~= seq!['c', 'g', ':']);
    let prefixed = prefix + raw;
    assert(prefixed.take(3) =~= prefix);
    assert(prefixed.skip(3) =~= raw);
    if starts_with(raw, prefix) {
        assert(raw.take(3)[0] == raw[0]);
        assert(raw.take(3)[1] == raw[1]);
        assert(raw.take(3)[2] == raw[2]);
    }
}

impl TenantRef {
    pub fn parse(raw: &str) -> (r: Result<TenantRef, TenantParseError>)
        ensures
            r == (match tenant_number(raw@) {
                Ok(cgroup_id) => Ok(bare_tenant(cgroup_id)),
                Err(_) => Err(TenantParseError::Invalid),
            }),
            r matches Ok(tenant) ==> tenant_number(raw@) == Ok::<u64, crate::text::NumberError>(
                tenant.cgroup_id,
            ) && tenant.proto is None && tenant.dst_port is None && tenant.http_method is None
                && tenant.http_path_hash is None,
    {
        let chars = to_chars(raw);
        let prefix = to_chars("cg:");
        proof {
            reveal_strlit("cg:");
            if chars@.len() >= 3 {
                assert(chars@.take(3) =~= chars@.subrange(0, 3));
            }
            assert(starts_with(raw@, "cg:"@) == occurs_at(chars@, prefix@, 0));
        }
        if matches_at(chars.as_slice(), prefix.as_slice(), 0) {
            let value = slice_chars(chars.as_slice(), 3, chars.len());
            assert(value@ =~= raw@.skip(3));
            return parse_cgroup_id(value.as_slice());
        }
        parse_cgroup_id(chars.as_slice())
    }

    /// Selects flows by protocol and destination port; neither goes without the
    /// other.
    pub fn with_flow(self, proto: Option<FlowProto>, dst_port: Option<u16>) -> (r: Result<
        TenantRef,
        TenantParseError,
    >)
        ensures
            r == (match (proto, dst_port) {
                (Some(_), None) => Err(TenantParseError::MissingDstPort),
                (None, Some(_)) => Err(TenantParseError::MissingProto),
                _ => Ok(TenantRef { proto, dst_port, ..self }),
            }),
    {
        if proto.is_some() && dst_port.is_none() {
            return Err(TenantParseError::MissingDstPort);
        }
        if proto.is_none() && dst_port.is_some() {
            return Err(TenantParseError::MissingProto);
        }
        Ok(TenantRef { proto, dst_port, ..self })
    }

    /// Selects flows by HTTP method and path; a path given along with a hash has
    /// to have that hash.
    pub fn with_http_selectors(
        self,
        http_method: Option<&str>,
        http_path: Option<&str>,
        http_path_hash: Option<u32>,
    ) -> (r: Result<TenantRef, TenantParseError>)
        ensures
            r == (match http_method {
                Some(raw) => match HttpMethod::named(raw@) {
                    Err(error) => Err(error),
                    Ok(method) => self.with_method_and_path(
                        Some(method),
                        http_path,
                        http_path_hash,
                    ),
                },
                None => self.with_method_and_path(None, http_path, http_path_hash),
            }),
    {
        let method: Option<HttpMethod> = match http_method {
            Some(raw) => match HttpMethod::parse(raw) {
                Ok(method) => Some(method),
                Err(error) => return Err(error),
            },
            None => None,
        };
        let computed_hash: Option<u32> = match http_path {
            Some(path) => Some(compute_http_path_hash(path)),
            None => None,
        };
        let hash: Option<u32> = match (computed_hash, http_path_hash) {
            (Some(computed), Some(explicit)) => {
                if computed != explicit {
                    return Err(TenantParseError::PathHashMismatch);
                }
                Some(computed)
            },
            (Some(computed), None) => Some(computed),
            (None, Some(explicit)) => Some(explicit),
            (None, None) => None,
        };
        Ok(TenantRef { http_method: method, http_path_hash: hash, ..self })
    }

    /// The tenant with a method and the hash of a path or a hash given directly.
    pub open spec fn with_method_and_path(
        self,
        method: Option<HttpMethod>,
        http_path: Option<&str>,
        http_path_hash: Option<u32>,
    ) -> Result<TenantRef, TenantParseError> {
        match (http_path, http_path_hash) {
            (Some(path), Some(explicit)) => if fnv1a(encode_utf8(path@)) != explicit {
                Err(TenantParseError::PathHashMismatch)
            } else {
                Ok(TenantRef { http_method: method, http_path_hash, ..self })
            },
            (Some(path), None) => Ok(
                TenantRef {
                    http_method: method,
                    http_path_hash: Some(fnv1a(encode_utf8(path@))),
                    ..self
                },
            ),
            (None, _) => Ok(TenantRef { http_method: method, http_path_hash, ..self }),
        }
    }

    /// The flow key of the tenant; an absent selector is a wildcard.
    pub open spec fn key(self) -> TenantKey {
        TenantKey {
            cgroup_id: self.cgroup_id,
            http_path_hash: match self.http_path_hash {
                Some(hash) => hash,
                None => 0,
            },
            dst_port: match self.dst_port {
                Some(port) => port,
                None => 0,
            },
            proto: match self.proto {
                Some(proto) => proto.number(),
                None => 0,
            },
            http_method: match self.http_method {
                Some(method) => method.number(),
                None => 0,
            },
        }
    }

    /// The flow key of the reference.
    pub fn to_tenant_key(self) -> (key: TenantKey)
        ensures
            key == self.key(),
            key.cgroup_id == self.cgroup_id,
            self.proto is None ==> key.proto == 0,
            self.proto == Some(FlowProto::Tcp) ==> key.proto == 6,
            self.proto == Some(FlowProto::Udp) ==> key.proto == 17,
            self.dst_port is None ==> key.dst_port == 0,
            self.dst_port matches Some(port) ==> key.dst_port == port,
            self.http_method is None ==> key.http_method == 0,
            self.http_method == Some(HttpMethod::Get) ==> key.http_method == 1,
            self.http_method == Some(HttpMethod::Post) ==> key.http_method == 2,
            self.http_path_hash is None ==> key.http_path_hash == 0,
            self.http_path_hash matches Some(hash) ==> key.http_path_hash == hash,
    {
        TenantKey {
            cgroup_id: self.cgroup_id,
            http_path_hash: match self.http_path_hash {
                Some(hash) => hash,
                None => 0,
            },
            dst_port: match self.dst_port {
                Some(port) => port,
                None => 0,
            },
            proto: match self.proto {
                Some(proto) => proto.to_u8(),
                None => 0,
            },
            http_method: match self.http_method {
                Some(method) => method.to_u8(),
                None => 0,
            },
        }
    }
}

/// HTTP selectors are taken as they are given: the method, a hash given directly, and
/// else the FNV-1a hash of the path; only a path that does not have the hash given
/// along with it is refused, and nothing else of the reference changes.
pub proof fn http_selectors_are_taken_as_given(
    tenant: TenantRef,
    method: Option<HttpMethod>,
    http_path: Option<&str>,
    http_path_hash: Option<u32>,
)
    ensures
        tenant.with_method_and_path(method, http_path, http_path_hash) is Err <==> (
        http_path matches Some(path) && http_path_hash matches Some(hash) && fnv1a(
            encode_utf8(path@),
        ) != hash),
        tenant.with_method_and_path(method, http_path, http_path_hash) matches Err(error) ==> error
            == TenantParseError::PathHashMismatch,
        tenant.with_method_and_path(method, http_path, http_path_hash) matches Ok(selected) ==> {
            &&& selected.cgroup_id == tenant.cgroup_id
            &&& selected.proto == tenant.proto
            &&& selected.dst_port == tenant.dst_port
            &&& selected.http_method == method
            &&& http_path_hash is Some ==> selected.http_path_hash == http_path_hash
            &&& http_path matches Some(path) ==> selected.http_path_hash == Some(
                fnv1a(encode_utf8(path@)),
            )
            &&& http_path is None && http_path_hash is None ==> selected.http_path_hash is None
        },
{
}

fn parse_cgroup_id(raw: &[char]) -> (r: Result<TenantRef, TenantParseError>)
    ensures
        r == (match number(raw@) {
            Ok(cgroup_id) => Ok(bare_tenant(cgroup_id)),
            Err(_) => Err(TenantParseError::Invalid),
        }),
{
    match parse_u64(raw) {
        Ok(cgroup_id) => Ok(
            TenantRef {
                cgroup_id,
                proto: None,
                dst_port: None,
                http_method: None,
                http_path_hash: None,
            },
        ),
        Err(_) => Err(TenantParseError::Invalid),
    }
}

/// The hash by which an HTTP path is keyed.
pub fn compute_http_path_hash(http_path: &str) -> (hash: u32)
    ensures
        hash == fnv1a(encode_utf8(http_path@)),
{
    fnv1a_32(http_path.as_bytes())
}

/// A cgroup in decimal.
pub fn cgroup_id_label(cgroup_id: u64) -> (label: String)
    ensures
        label@ == decimal(cgroup_id as nat),
{
    u64_text(cgroup_id)
}

/// The name of a protocol number.
pub open spec fn proto_name(proto: u8) -> Seq<char> {
    match proto {
        0 => "*"@,
        6 => "tcp"@,
        17 => "udp"@,
        _ => "other"@,
    }
}

/// The name of a protocol.
pub fn proto_label(proto: u8) -> (label: &'static str)
    ensures
        label@ == proto_name(proto),
{
    match proto {
        0 => "*",
        6 => "tcp",
        17 => "udp",
        _ => "other",
    }
}

/// The name of a method number.
pub open spec fn http_method_name(method: u8) -> Seq<char> {
    match method {
        0 => "*"@,
        1 => "get"@,
        2 => "post"@,
        3 => "put"@,
        4 => "delete"@,
        5 => "patch"@,
        6 => "head"@,
        7 => "options"@,
        _ => "other"@,
    }
}

/// The name of a method.
pub fn http_method_label(method: u8) -> (label: &'static str)
    ensures
        label@ == http_method_name(method),
{
    match method {
        0 => "*",
        1 => "get",
        2 => "post",
        3 => "put",
        4 => "delete",
        5 => "patch",
        6 => "head",
        7 => "options",
        _ => "other",
    }
}

/// A path hash in hexadecimal, or a star for the wildcard.
pub open spec fn path_hash_name(http_path_hash: u32) -> Seq<char> {
    if http_path_hash == 0 {
        "*"@
    } else {
        hex8(http_path_hash)
    }
}

/// A path hash as text.
pub fn path_hash_label(http_path_hash: u32) -> (label: String)
    ensures
        label@ == path_hash_name(http_path_hash),
{
    let mut label = String::new();
    if http_path_hash == 0 {
        label.append("*");
        assert(label@ =~= "*"@);
    } else {
        push_hex8(&mut label, http_path_hash);
        assert(label@ =~= hex8(http_path_hash));
    }
    label
}

/// A port in decimal, or a star for the wildcard.
pub open spec fn port_name(dst_port: u16) -> Seq<char> {
    if dst_port == 0 {
        "*"@
    } else {
        decimal(dst_port as nat)
    }
}

/// A port as text.
pub fn port_label(dst_port: u16) -> (label: String)
    ensures
        label@ == port_name(dst_port),
{
    let mut label = String::new();
    if dst_port == 0 {
        label.append("*");
        assert(label@ =~= "*"@);
    } else {
        push_u64(&mut label, dst_port as u64);
        assert(label@ =~= decimal(dst_port as nat));
    }
    label
}

/// Protocol labels: a star for the wildcard, the names that can be given in requests
/// for TCP and UDP, which read back as what they label, and one name for all others.
pub proof fn protocol_labels_read_back(proto: u8)
    ensures
        proto == 0 ==> proto_name(proto) == seq!['*'],
        proto == 6 ==> proto_name(proto) == seq!['t', 'c', 'p'],
        proto == 17 ==> proto_name(proto) == seq!['u', 'd', 'p'],
        proto != 0 && proto != 6 && proto != 17 ==> proto_name(proto) == seq![
            'o',
            't',
            'h',
            'e',
            'r',
        ],
        FlowProto::named(proto_name(proto)) matches Ok(named) ==> named.number() == proto,
        FlowProto::named(proto_name(proto)) is Ok <==> proto == 6 || proto == 17,
{
    reveal_strlit("*");
    reveal_strlit("tcp");
    reveal_strlit("udp");
    reveal_strlit("other");
    assert(proto_name(proto) =~= (if proto == 0 {
        seq!['*']
    } else if proto == 6 {
        seq!['t', 'c', 'p']
    } else if proto == 17 {
        seq!['u', 'd', 'p']
    } else {
        seq!['o', 't', 'h', 'e', 'r']
    }));
    protocols_are_named_by_their_letters(proto_name(proto));
}

/// Method labels: a star for the wildcard, a name for each method with a number, and
/// one for all others; those that can be given in requests read back as what they
/// label.
pub proof fn method_labels_read_back(method: u8)
    ensures
        http_method_name(method) == (if method == 0 {
            seq!['*']
        } else if method == 1 {
            seq!['g', 'e', 't']
        } else if method == 2 {
            seq!['p', 'o', 's', 't']
        } else if method == 3 {
            seq!['p', 'u', 't']
        } else if method == 4 {
            seq!['d', 'e', 'l', 'e', 't', 'e']
        } else if method == 5 {
            seq!['p', 'a', 't', 'c', 'h']
        } else if method == 6 {
            seq!['h', 'e', 'a', 'd']
        } else if method == 7 {
            seq!['o', 'p', 't', 'i', 'o', 'n', 's']
        } else {
            seq!['o', 't', 'h', 'e', 'r']
        }),
        HttpMethod::named(http_method_name(method)) matches Ok(named) ==> named.number() == method,
        HttpMethod::named(http_method_name(method)) is Ok <==> method == 1 || method == 2,
{
    reveal_strlit("*");
    reveal_strlit("get");
    reveal_strlit("post");
    reveal_strlit("put");
    reveal_strlit("delete");
    reveal_strlit("patch");
    reveal_strlit("head");
    reveal_strlit("options");
    reveal_strlit("other");
    let name = http_method_name(method);
    methods_are_named_by_their_letters(name);
}

/// Port and path labels: a star for the wildcard, else the port in decimal, which
/// reads back as the port, and the hash in hexadecimal.
pub proof fn port_and_path_labels_read_back(dst_port: u16, http_path_hash: u32)
    ensures
        dst_port == 0 ==> port_name(dst_port) == seq!['*'],
        dst_port != 0 ==> number(port_name(dst_port)) == Ok::<u64, crate::text::NumberError>(
            dst_port as u64,
        ) && port_name(dst_port) == decimal(dst_port as nat),
        http_path_hash == 0 ==> path_hash_name(http_path_hash) == seq!['*'],
        http_path_hash != 0 ==> path_hash_name(http_path_hash) == hex8(http_path_hash),
{
    reveal_strlit("*");
    assert("*"@ =~= seq!['*']);
    crate::text::decimal_reads_back(dst_port as u64);
}

/// A flow key as one line of text.
pub open spec fn flow_text(key: TenantKey) -> Seq<char> {
    "cgroup="@ + decimal(key.cgroup_id as nat) + "|proto="@ + proto_name(key.proto) + "|dport="@
        + port_name(key.dst_port) + "|method="@ + http_method_name(key.http_method)
        + "|path_hash="@ + path_hash_name(key.http_path_hash)
}

/// The text of a flow key names the cgroup, the protocol, the port, the method and the
/// path hash, in that order, each behind its own name.
pub proof fn flow_text_names_every_selector(key: TenantKey)
    ensures
        flow_text(key) == seq!['c', 'g', 'r', 'o', 'u', 'p', '='] + decimal(key.cgroup_id as nat)
            + seq!['|', 'p', 'r', 'o', 't', 'o', '='] + proto_name(key.proto) + seq![
            '|',
            'd',
            'p',
            'o',
            'r',
            't',
            '=',
        ] + port_name(key.dst_port) + seq!['|', 'm', 'e', 't', 'h', 'o', 'd', '=']
            + http_method_name(key.http_method) + seq![
            '|',
            'p',
            'a',
            't',
            'h',
            '_',
            'h',
            'a',
            's',
            'h',
            '=',
        ] + path_hash_name(key.http_path_hash),
{
    reveal_strlit("cgroup=");
    reveal_strlit("|proto=");
    reveal_strlit("|dport=");
    reveal_strlit("|method=");
    reveal_strlit("|path_hash=");
    assert("cgroup="@ =~= seq!['c', 'g', 'r', 'o', 'u', 'p', '=']);
    assert("|proto="@ =~= seq!['|', 'p', 'r', 'o', 't', 'o', '=']);
    assert("|dport="@ =~= seq!['|', 'd', 'p', 'o', 'r', 't', '=']);
    assert("|method="@ =~= seq!['|', 'm', 'e', 't', 'h', 'o', 'd', '=']);
    assert("|path_hash="@ =~= seq!['|', 'p', 'a', 't', 'h', '_', 'h', 'a', 's', 'h', '=']);
}

/// A flow key as text.
pub fn normalized_flow_key(tenant: TenantKey) -> (text: String)
    ensures
        text@ == flow_text(tenant),
{
    let mut text = String::new();
    text.append("cgroup=");
    text.append(cgroup_id_label(tenant.cgroup_id).as_str());
    text.append("|proto=");
    text.append(proto_label(tenant.proto));
    text.append("|dport=");
    text.append(port_label(tenant.dst_port).as_str());
    text.append("|method=");
    text.append(http_method_label(tenant.http_method));
    text.append("|path_hash=");
    text.append(path_hash_label(tenant.http_path_hash).as_str());
    assert(text@ =~= flow_text(tenant));
    text
}

/// A cgroup label, with or without `cg:` before it, names its cgroup.
pub proof fn cgroup_label_reads_back(cgroup_id: u64)
    ensures
        tenant_number(decimal(cgroup_id as nat)) == Ok::<u64, crate::text::NumberError>(cgroup_id),
        tenant_number("cg:"@ + decimal(cgroup_id as nat)) == Ok::<u64, crate::text::NumberError>(
            cgroup_id,
        ),
{
    let label = decimal(cgroup_id as nat);
    crate::text::decimal_reads_back(cgroup_id);
    reveal_strlit("cg:");
    crate::text::decimal_is_digits(cgroup_id);
    if starts_with(label, "cg:"@) {
        assert(label.take(3)[0] == 'c');
    }
    let prefixed = "cg:"@ + label;
    assert(prefixed.take(3) =~= "cg:"@);
    assert(prefixed.skip(3) =~= label);
}

} // verus!
