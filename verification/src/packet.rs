//! Bounded parsing of a packet into the flow key that policies are matched by.
//!
//! `packet` holds the bytes that can be read and `packet_len` the length the
//! packet reports. A read past the end of `packet` fails, it never panics.

use vstd::prelude::*;

use crate::common::{
    fnv1a_fold, TenantKey, FNV1A_OFFSET_BASIS, HTTP_METHOD_ANY, HTTP_METHOD_GET, HTTP_METHOD_POST,
};

verus! {

pub const ETHERNET_HEADER_LEN: usize = 14;

pub const ETHER_TYPE_OFFSET: usize = 12;

pub const ETHER_TYPE_IPV4: u16 = 0x0800;

pub const IPV4_MIN_HEADER_LEN: usize = 20;

pub const IPV4_VERSION: u8 = 4;

pub const IPV4_VERSION_IHL_REL_OFFSET: usize = 0;

pub const IPV4_PROTOCOL_REL_OFFSET: usize = 9;

pub const L4_DST_PORT_REL_OFFSET: usize = 2;

pub const TCP_DATA_OFFSET_REL_OFFSET: usize = 12;

pub const TCP_MIN_HEADER_LEN: usize = 20;

pub const UDP_HEADER_LEN: usize = 8;

pub const IPPROTO_TCP: u8 = 6;

pub const IPPROTO_UDP: u8 = 17;

pub const HTTP_PREFIX_MAX_BYTES: usize = 128;

pub const HTTP_PATH_HASH_MAX_BYTES: usize = 64;

/// No packet byte at or beyond this offset influences a flow key: Ethernet
/// header, largest IPv4 header, largest TCP header and HTTP prefix.
pub const FLOW_KEY_WINDOW: usize = 262;

/// The byte at `offset`, when it can be read.
pub open spec fn byte_at(packet: Seq<u8>, offset: int) -> Option<u8> {
    if 0 <= offset < packet.len() {
        Some(packet[offset])
    } else {
        None
    }
}

/// Two bytes in network order as a number.
pub open spec fn be16(hi: u8, lo: u8) -> u16 {
    (hi * 256 + lo) as u16
}

/// Reads one byte.
pub fn load_byte(packet: &[u8], offset: usize) -> (r: Option<u8>)
    ensures
        r == byte_at(packet@, offset as int),
{
    if offset < packet.len() {
        Some(packet[offset])
    } else {
        None
    }
}

/// The cgroup identity of a packet; zero stands for none.
pub fn extract_cgroup_id(raw_cgroup_id: u64) -> (r: Option<u64>)
    ensures
        r == (if raw_cgroup_id == 0 {
            None
        } else {
            Some(raw_cgroup_id)
        }),
{
    if raw_cgroup_id == 0 {
        None
    } else {
        Some(raw_cgroup_id)
    }
}

/// Offset of the IPv4 header, if the Ethernet header announces one and the
/// packet has room for it.
pub open spec fn ipv4_offset(packet: Seq<u8>, packet_len: int) -> Option<usize> {
    if packet_len >= ETHERNET_HEADER_LEN + IPV4_MIN_HEADER_LEN && (byte_at(
        packet,
        ETHER_TYPE_OFFSET as int,
    ) matches Some(hi) && byte_at(packet, ETHER_TYPE_OFFSET + 1) matches Some(lo) && be16(hi, lo)
        == ETHER_TYPE_IPV4) {
        Some(ETHERNET_HEADER_LEN)
    } else {
        None
    }
}

/// Where the IPv4 header starts.
pub fn parse_l2_ipv4(packet: &[u8], packet_len: usize) -> (r: Option<usize>)
    ensures
        r == ipv4_offset(packet@, packet_len as int),
{
    if packet_len < ETHERNET_HEADER_LEN + IPV4_MIN_HEADER_LEN {
        return None;
    }
    let ether_type_hi: u8 = match load_byte(packet, ETHER_TYPE_OFFSET) {
        Some(byte) => byte,
        None => return None,
    };
    let ether_type_lo: u8 = match load_byte(packet, ETHER_TYPE_OFFSET + 1) {
        Some(byte) => byte,
        None => return None,
    };
    let ether_type: u16 = from_network_order([ether_type_hi, ether_type_lo]);
    if ether_type != ETHER_TYPE_IPV4 {
        return None;
    }
    Some(ETHERNET_HEADER_LEN)
}

/// Two bytes in network order as a number.
pub fn from_network_order(bytes: [u8; 2]) -> (r: u16)
    ensures
        r == be16(bytes@[0], bytes@[1]),
{
    (bytes[0] as u16) * 256 + (bytes[1] as u16)
}

/// Protocol and transport offset of the IPv4 header at `l3`, if it is a
/// complete version-4 header.
pub open spec fn transport_of(packet: Seq<u8>, packet_len: int, l3: int) -> Option<(u8, usize)> {
    if packet_len < l3 + IPV4_MIN_HEADER_LEN {
        None
    } else {
        match byte_at(packet, l3 + IPV4_VERSION_IHL_REL_OFFSET) {
            None => None,
            Some(version_ihl) => {
                let header_len = (version_ihl % 16) * 4;
                if version_ihl / 16 != IPV4_VERSION || header_len < IPV4_MIN_HEADER_LEN
                    || packet_len < l3 + header_len {
                    None
                } else {
                    match byte_at(packet, l3 + IPV4_PROTOCOL_REL_OFFSET) {
                        None => None,
                        Some(proto) => Some((proto, (l3 + header_len) as usize)),
                    }
                }
            },
        }
    }
}

/// The protocol, and where its header starts.
pub fn parse_l3_ipv4(packet: &[u8], packet_len: usize, l3_offset: usize) -> (r: Option<
    (u8, usize),
>)
    requires
        l3_offset + IPV4_MIN_HEADER_LEN <= usize::MAX,
    ensures
        r == transport_of(packet@, packet_len as int, l3_offset as int),
{
    if packet_len < l3_offset + IPV4_MIN_HEADER_LEN {
        return None;
    }
    let version_ihl: u8 = match load_byte(packet, l3_offset + IPV4_VERSION_IHL_REL_OFFSET) {
        Some(byte) => byte,
        None => return None,
    };
    assert(version_ihl >> 4 == version_ihl / 16) by (bit_vector);
    assert(version_ihl & 0x0f == version_ihl % 16) by (bit_vector);
    if version_ihl >> 4 != IPV4_VERSION {
        return None;
    }
    let ihl_words: u8 = version_ihl & 0x0f;
    if ihl_words < 5 {
        return None;
    }
    let ip_header_len: usize = (ihl_words as usize) * 4;
    if packet_len - l3_offset < ip_header_len {
        return None;
    }
    let proto: u8 = match load_byte(packet, l3_offset + IPV4_PROTOCOL_REL_OFFSET) {
        Some(byte) => byte,
        None => return None,
    };
    let l4_offset: usize = l3_offset + ip_header_len;
    Some((proto, l4_offset))
}

/// Whether segments of the protocol carry a destination port.
pub open spec fn has_dst_port(proto: u8) -> bool {
    proto == IPPROTO_TCP || proto == IPPROTO_UDP
}

/// Whether a protocol has ports.
pub fn proto_has_dst_port(proto: u8) -> (r: bool)
    ensures
        r == has_dst_port(proto),
{
    proto == IPPROTO_TCP || proto == IPPROTO_UDP
}

/// The destination port, given the two port bytes where they could be read:
/// zero for protocols without one, nothing when the packet is too short.
pub open spec fn dst_port_value(
    proto: u8,
    packet_len: int,
    l4: int,
    dst_port_be: Option<[u8; 2]>,
) -> Option<u16> {
    if !has_dst_port(proto) {
        Some(0)
    } else if packet_len < l4 + L4_DST_PORT_REL_OFFSET + 2 {
        None
    } else {
        match dst_port_be {
            None => None,
            Some(bytes) => Some(be16(bytes@[0], bytes@[1])),
        }
    }
}

/// The port at its place in the transport header.
pub fn parse_l4_dst_port_value(
    proto: u8,
    packet_len: usize,
    l4_offset: usize,
    dst_port_be: Option<[u8; 2]>,
) -> (r: Option<u16>)
    requires
        has_dst_port(proto) ==> l4_offset + L4_DST_PORT_REL_OFFSET + 2 <= usize::MAX,
    ensures
        r == dst_port_value(proto, packet_len as int, l4_offset as int, dst_port_be),
{
    if !proto_has_dst_port(proto) {
        return Some(0);
    }
    if packet_len < l4_offset + L4_DST_PORT_REL_OFFSET + 2 {
        return None;
    }
    match dst_port_be {
        None => None,
        Some(bytes) => Some(from_network_order(bytes)),
    }
}

/// The destination port of the segment at `l4`: zero for protocols without
/// one, nothing when it cannot be read.
pub open spec fn dst_port_of(packet: Seq<u8>, packet_len: int, proto: u8, l4: int) -> Option<u16> {
    if !has_dst_port(proto) {
        Some(0)
    } else if packet_len < l4 + L4_DST_PORT_REL_OFFSET + 2 {
        None
    } else {
        match (
            byte_at(packet, l4 + L4_DST_PORT_REL_OFFSET),
            byte_at(packet, l4 + L4_DST_PORT_REL_OFFSET + 1),
        ) {
            (Some(hi), Some(lo)) => Some(be16(hi, lo)),
            _ => None,
        }
    }
}

/// The destination port; zero for a protocol without ports.
pub fn parse_l4_dst_port(packet: &[u8], packet_len: usize, proto: u8, l4_offset: usize) -> (r:
    Option<u16>)
    requires
        has_dst_port(proto) ==> l4_offset + L4_DST_PORT_REL_OFFSET <= usize::MAX,
    ensures
        r == dst_port_of(packet@, packet_len as int, proto, l4_offset as int),
{
    assert(packet@.len() == packet.len());
    let dst_port_be: Option<[u8; 2]> = if proto_has_dst_port(proto) {
        let hi: u8 = match load_byte(packet, l4_offset + L4_DST_PORT_REL_OFFSET) {
            Some(byte) => byte,
            None => return None,
        };
        let lo: u8 = match load_byte(packet, l4_offset + L4_DST_PORT_REL_OFFSET + 1) {
            Some(byte) => byte,
            None => return None,
        };
        Some([hi, lo])
    } else {
        None
    };
    parse_l4_dst_port_value(proto, packet_len, l4_offset, dst_port_be)
}

/// Where the payload of the TCP segment at `l4` starts, if its header is
/// complete.
pub open spec fn tcp_payload_offset(packet: Seq<u8>, packet_len: int, l4: int) -> Option<usize> {
    if packet_len < l4 + TCP_MIN_HEADER_LEN {
        None
    } else {
        match byte_at(packet, l4 + TCP_DATA_OFFSET_REL_OFFSET) {
            None => None,
            Some(byte) => {
                let header_len = (byte / 16) * 4;
                if header_len < TCP_MIN_HEADER_LEN || packet_len < l4 + header_len {
                    None
                } else {
                    Some((l4 + header_len) as usize)
                }
            },
        }
    }
}

/// Where the payload of a TCP segment starts.
pub fn parse_tcp_payload_offset(packet: &[u8], packet_len: usize, l4_offset: usize) -> (r: Option<
    usize,
>)
    requires
        l4_offset + TCP_MIN_HEADER_LEN <= usize::MAX,
    ensures
        r == tcp_payload_offset(packet@, packet_len as int, l4_offset as int),
{
    if packet_len < l4_offset + TCP_MIN_HEADER_LEN {
        return None;
    }
    let data_offset_byte: u8 = match load_byte(packet, l4_offset + TCP_DATA_OFFSET_REL_OFFSET) {
        Some(byte) => byte,
        None => return None,
    };
    assert(data_offset_byte >> 4 == data_offset_byte / 16) by (bit_vector);
    let data_offset_words: u8 = data_offset_byte >> 4;
    if data_offset_words < 5 {
        return None;
    }
    let tcp_header_len: usize = (data_offset_words as usize) * 4;
    let payload_offset: usize = match l4_offset.checked_add(tcp_header_len) {
        Some(offset) => offset,
        None => return None,
    };
    if packet_len < payload_offset {
        return None;
    }
    Some(payload_offset)
}

/// Where the application payload starts; only TCP and UDP have one.
pub open spec fn payload_offset_of(
    packet: Seq<u8>,
    packet_len: int,
    proto: u8,
    l4: int,
) -> Option<usize> {
    if proto == IPPROTO_TCP {
        tcp_payload_offset(packet, packet_len, l4)
    } else if proto == IPPROTO_UDP && packet_len >= l4 + UDP_HEADER_LEN {
        Some((l4 + UDP_HEADER_LEN) as usize)
    } else {
        None
    }
}

/// Where the payload starts.
pub fn parse_l7_payload_offset(
    packet: &[u8],
    packet_len: usize,
    proto: u8,
    l4_offset: usize,
) -> (r: Option<usize>)
    requires
        proto == IPPROTO_TCP ==> l4_offset + TCP_MIN_HEADER_LEN <= usize::MAX,
    ensures
        r == payload_offset_of(packet@, packet_len as int, proto, l4_offset as int),
{
    if proto == IPPROTO_TCP {
        return parse_tcp_payload_offset(packet, packet_len, l4_offset);
    }
    if proto == IPPROTO_UDP {
        let payload_offset: usize = match l4_offset.checked_add(UDP_HEADER_LEN) {
            Some(offset) => offset,
            None => return None,
        };
        if packet_len < payload_offset {
            return None;
        }
        return Some(payload_offset);
    }
    None
}

/// Whether the `n` bytes of `bytes` from `start` are a request path: they begin
/// with a slash, hold no space, are fewer than
/// `HTTP_PATH_HASH_MAX_BYTES`, and a space before `limit` ends them.
pub open spec fn is_path(bytes: Seq<u8>, start: int, limit: int, n: int) -> bool {
    &&& 1 <= n < HTTP_PATH_HASH_MAX_BYTES
    &&& start + n < limit
    &&& start + n < bytes.len()
    &&& bytes[start] == 0x2f
    &&& bytes[start + n] == 0x20
    &&& forall|i: int| start <= i < start + n ==> bytes[i] != 0x20
}

/// FNV-1a hash of the request path at `start`, if there is one.
pub open spec fn path_hash(bytes: Seq<u8>, start: int, limit: int) -> Option<u32> {
    if exists|n: int| is_path(bytes, start, limit, n) {
        let n = choose|n: int| is_path(bytes, start, limit, n);
        Some(crate::common::fnv1a(bytes.subrange(start, start + n)))
    } else {
        None
    }
}

/// A position holds at most one request path.
proof fn path_is_unique(bytes: Seq<u8>, start: int, limit: int, n: int)
    requires
        0 <= start,
        is_path(bytes, start, limit, n),
    ensures
        path_hash(bytes, start, limit) == Some(
            crate::common::fnv1a(bytes.subrange(start, start + n)),
        ),
{
    let m = choose|m: int| is_path(bytes, start, limit, m);
    assert(is_path(bytes, start, limit, m));
    if m < n {
        assert(bytes[start + m] != 0x20);
    }
    if n < m {
        assert(bytes[start + n] != 0x20);
    }
}

/// Hashes the request path that starts at `path_start` of a payload prefix of
/// which `read_len` bytes were read.
pub fn parse_http_path_hash(
    prefix: &[u8; HTTP_PREFIX_MAX_BYTES],
    read_len: usize,
    path_start: usize,
) -> (r: Option<u32>)
    requires
        path_start < read_len ==> path_start < HTTP_PREFIX_MAX_BYTES && (prefix@[path_start as int]
            != 0x2f || read_len <= HTTP_PREFIX_MAX_BYTES || path_start + HTTP_PATH_HASH_MAX_BYTES
            <= HTTP_PREFIX_MAX_BYTES || exists|i: int|
            path_start <= i < HTTP_PREFIX_MAX_BYTES && prefix@[i] == 0x20),
    ensures
        r == path_hash(prefix@, path_start as int, read_len as int),
{
    if path_start >= read_len {
        return None;
    }
    if prefix[path_start] != 0x2f {
        return None;
    }
    let mut hash: u32 = FNV1A_OFFSET_BASIS;
    let mut idx: usize = 0;
    assert(prefix@.subrange(path_start as int, path_start as int) =~= Seq::empty());
    while idx < HTTP_PATH_HASH_MAX_BYTES
        invariant
            path_start < HTTP_PREFIX_MAX_BYTES,
            path_start < read_len,
            prefix@[path_start as int] == 0x2f,
            read_len <= HTTP_PREFIX_MAX_BYTES || path_start + HTTP_PATH_HASH_MAX_BYTES
                <= HTTP_PREFIX_MAX_BYTES || exists|i: int|
                path_start <= i < HTTP_PREFIX_MAX_BYTES && prefix@[i] == 0x20,
            idx <= HTTP_PATH_HASH_MAX_BYTES,
            path_start + idx <= HTTP_PREFIX_MAX_BYTES,
            forall|i: int| path_start <= i < path_start + idx ==> prefix@[i] != 0x20,
            hash == crate::common::fnv1a(
                prefix@.subrange(path_start as int, path_start as int + idx),
            ),
        decreases HTTP_PATH_HASH_MAX_BYTES - idx,
    {
        let pos: usize = path_start + idx;
        if pos >= read_len {
            assert forall|n: int| !is_path(prefix@, path_start as int, read_len as int, n) by {
                if is_path(prefix@, path_start as int, read_len as int, n) {
                    assert(prefix@[path_start + n] != 0x20);
                }
            }
            return None;
        }
        let byte: u8 = prefix[pos];
        if byte == 0x20 {
            assert(idx > 0);
            proof {
                path_is_unique(prefix@, path_start as int, read_len as int, idx as int);
            }
            return Some(hash);
        }
        proof {
            let next = prefix@.subrange(path_start as int, path_start as int + idx + 1);
            assert(next.drop_last() =~= prefix@.subrange(
                path_start as int,
                path_start as int + idx,
            ));
            assert(next.last() == byte);
        }
        hash = fnv1a_fold(hash, byte);
        idx += 1;
    }
    assert forall|n: int| !is_path(prefix@, path_start as int, read_len as int, n) by {
        if is_path(prefix@, path_start as int, read_len as int, n) {
            assert(prefix@[path_start + n] != 0x20);
        }
    }
    None
}

/// Whether `bytes` starts with `GET` and a space.
pub open spec fn starts_get(bytes: Seq<u8>) -> bool {
    bytes.len() >= 4 && bytes.take(4) =~= seq![0x47u8, 0x45u8, 0x54u8, 0x20u8]
}

/// Whether `bytes` starts with `POST` and a space.
pub open spec fn starts_post(bytes: Seq<u8>) -> bool {
    bytes.len() >= 5 && bytes.take(5) =~= seq![0x50u8, 0x4fu8, 0x53u8, 0x54u8, 0x20u8]
}

/// Method and path hash of the `GET` or `POST` request line at the front of
/// `bytes`, of which the first `read_len` count.
pub open spec fn http_selector(bytes: Seq<u8>, read_len: int) -> Option<(u8, u32)> {
    if read_len < 5 {
        None
    } else if starts_get(bytes) {
        match path_hash(bytes, 4, read_len) {
            Some(hash) => Some((HTTP_METHOD_GET, hash)),
            None => None,
        }
    } else if read_len >= 6 && starts_post(bytes) {
        match path_hash(bytes, 5, read_len) {
            Some(hash) => Some((HTTP_METHOD_POST, hash)),
            None => None,
        }
    } else {
        None
    }
}

/// Method and path hash of a request line.
pub fn parse_http_method_and_path_hash(
    prefix: &[u8; HTTP_PREFIX_MAX_BYTES],
    read_len: usize,
) -> (r: Option<(u8, u32)>)
    ensures
        r == http_selector(prefix@, read_len as int),
{
    if read_len < 5 {
        return None;
    }
    let is_get: bool = prefix[0] == 0x47 && prefix[1] == 0x45 && prefix[2] == 0x54 && prefix[3]
        == 0x20;
    let is_post: bool = prefix[0] == 0x50 && prefix[1] == 0x4f && prefix[2] == 0x53 && prefix[3]
        == 0x54 && prefix[4] == 0x20;
    proof {
        let head4 = prefix@.take(4);
        assert(head4[0] == prefix@[0] && head4[1] == prefix@[1] && head4[2] == prefix@[2]
            && head4[3] == prefix@[3]);
        let head5 = prefix@.take(5);
        assert(head5[0] == prefix@[0] && head5[1] == prefix@[1] && head5[2] == prefix@[2]
            && head5[3] == prefix@[3] && head5[4] == prefix@[4]);
        assert(is_get == starts_get(prefix@));
        assert(is_post == starts_post(prefix@));
    }
    let (http_method, path_start): (u8, usize) = if is_get {
        (HTTP_METHOD_GET, 4)
    } else if read_len >= 6 && is_post {
        (HTTP_METHOD_POST, 5)
    } else {
        return None;
    };
    match parse_http_path_hash(prefix, read_len, path_start) {
        Some(hash) => Some((http_method, hash)),
        None => None,
    }
}

/// A request line selects its own path: a `GET` or `POST`, a path and a space
/// within the bytes that were read give the method and the FNV-1a hash of exactly
/// that path, whatever follows.
pub proof fn request_line_selects_its_path(bytes: Seq<u8>, path: Seq<u8>, read_len: int)
    requires
        read_len <= bytes.len(),
        1 <= path.len() < HTTP_PATH_HASH_MAX_BYTES,
        path[0] == 0x2f,
        forall|i: int| 0 <= i < path.len() ==> path[i] != 0x20,
    ensures
        starts_get(bytes) && holds_path(bytes, path, 4, read_len) ==> http_selector(bytes, read_len)
            == Some((HTTP_METHOD_GET, crate::common::fnv1a(path))),
        starts_post(bytes) && holds_path(bytes, path, 5, read_len) ==> http_selector(
            bytes,
            read_len,
        ) == Some((HTTP_METHOD_POST, crate::common::fnv1a(path))),
{
    let n = path.len() as int;
    if starts_get(bytes) && holds_path(bytes, path, 4, read_len) {
        assert forall|i: int| 4 <= i < 4 + n implies bytes[i] != 0x20 by {
            assert(bytes[i] == bytes.subrange(4, 4 + n)[i - 4]);
        }
        assert(bytes[4] == bytes.subrange(4, 4 + n)[0]);
        assert(is_path(bytes, 4, read_len, n));
        path_is_unique(bytes, 4, read_len, n);
    }
    if starts_post(bytes) && holds_path(bytes, path, 5, read_len) {
        assert(bytes.take(5)[0] == bytes[0]);
        if starts_get(bytes) {
            assert(bytes.take(4)[0] == bytes[0]);
        }
        assert forall|i: int| 5 <= i < 5 + n implies bytes[i] != 0x20 by {
            assert(bytes[i] == bytes.subrange(5, 5 + n)[i - 5]);
        }
        assert(bytes[5] == bytes.subrange(5, 5 + n)[0]);
        assert(is_path(bytes, 5, read_len, n));
        path_is_unique(bytes, 5, read_len, n);
    }
}

/// Whether `path` stands at `start` of `bytes`, with a space after it that was
/// read.
pub open spec fn holds_path(bytes: Seq<u8>, path: Seq<u8>, start: int, read_len: int) -> bool {
    &&& start + path.len() < read_len
    &&& bytes.subrange(start, start + path.len()) == path
    &&& bytes[start + path.len()] == 0x20
}

/// How many payload bytes the HTTP prefix of a packet covers.
pub open spec fn prefix_len(packet_len: int, payload: int) -> int {
    if packet_len - payload <= HTTP_PREFIX_MAX_BYTES {
        packet_len - payload
    } else {
        HTTP_PREFIX_MAX_BYTES as int
    }
}

/// The first `len` bytes of `packet` from `offset` on, padded with zeros to
/// `HTTP_PREFIX_MAX_BYTES`.
pub open spec fn padded_prefix(packet: Seq<u8>, offset: int, len: int) -> Seq<u8> {
    Seq::new(
        HTTP_PREFIX_MAX_BYTES as nat,
        |i: int|
            if i < len {
                packet[offset + i]
            } else {
                0
            },
    )
}

/// Method and path hash of an HTTP request in the payload, each zero when
/// there is none.
pub open spec fn l7_selector(packet: Seq<u8>, packet_len: int, proto: u8, l4: int) -> (u8, u32) {
    match payload_offset_of(packet, packet_len, proto, l4) {
        None => (HTTP_METHOD_ANY, 0),
        Some(payload) => {
            let len = prefix_len(packet_len, payload as int);
            if payload + len > packet.len() {
                (HTTP_METHOD_ANY, 0)
            } else {
                match http_selector(padded_prefix(packet, payload as int, len), len) {
                    Some(selector) => selector,
                    None => (HTTP_METHOD_ANY, 0),
                }
            }
        },
    }
}

/// Copies the bytes of `packet` from `offset` into `prefix`, as many as fit and
/// as the packet has, and returns how many; `None` when they cannot be read.
pub fn load_prefix(
    packet: &[u8],
    packet_len: usize,
    offset: usize,
    prefix: &mut [u8; HTTP_PREFIX_MAX_BYTES],
) -> (r: Option<usize>)
    requires
        offset <= packet_len,
        forall|i: int| 0 <= i < HTTP_PREFIX_MAX_BYTES ==> old(prefix)@[i] == 0,
    ensures
        r == (if offset + prefix_len(packet_len as int, offset as int) > packet@.len() {
            None
        } else {
            Some(prefix_len(packet_len as int, offset as int) as usize)
        }),
        r matches Some(len) ==> final(prefix)@ == padded_prefix(packet@, offset as int, len as int),
        r is None ==> *final(prefix) == *old(prefix),
{
    let remaining: usize = packet_len - offset;
    let len: usize = if remaining < HTTP_PREFIX_MAX_BYTES {
        remaining
    } else {
        HTTP_PREFIX_MAX_BYTES
    };
    if packet.len() < offset || packet.len() - offset < len {
        return None;
    }
    let mut i: usize = 0;
    while i < len
        invariant
            i <= len <= HTTP_PREFIX_MAX_BYTES,
            offset + len <= packet@.len() <= usize::MAX,
            forall|j: int| 0 <= j < i ==> prefix@[j] == packet@[offset + j],
            forall|j: int| i <= j < HTTP_PREFIX_MAX_BYTES ==> prefix@[j] == 0,
        decreases len - i,
    {
        prefix[i] = packet[offset + i];
        i += 1;
    }
    assert(prefix@ =~= padded_prefix(packet@, offset as int, len as int));
    Some(len)
}

/// Method and path hash of a packet; zeros where it holds no request line.
pub fn parse_l7_http_selector(
    packet: &[u8],
    packet_len: usize,
    proto: u8,
    l4_offset: usize,
) -> (r: (u8, u32))
    requires
        proto == IPPROTO_TCP ==> l4_offset + TCP_MIN_HEADER_LEN <= usize::MAX,
    ensures
        r == l7_selector(packet@, packet_len as int, proto, l4_offset as int),
{
    let payload_offset: usize = match parse_l7_payload_offset(packet, packet_len, proto, l4_offset) {
        Some(offset) => offset,
        None => return (HTTP_METHOD_ANY, 0),
    };
    let mut prefix: [u8; HTTP_PREFIX_MAX_BYTES] = [0;HTTP_PREFIX_MAX_BYTES];
    let read_len: usize = match load_prefix(packet, packet_len, payload_offset, &mut prefix) {
        Some(len) => len,
        None => return (HTTP_METHOD_ANY, 0),
    };
    if read_len == 0 {
        return (HTTP_METHOD_ANY, 0);
    }
    match parse_http_method_and_path_hash(&prefix, read_len) {
        Some(selector) => selector,
        None => (HTTP_METHOD_ANY, 0),
    }
}

/// The flow key of a packet: the cgroup alone, or with the selectors read from
/// the headers when `flow_keys_live`. There is none for a packet without a
/// cgroup, or that is not a well-formed IPv4 packet.
pub open spec fn flow_key(
    raw_cgroup_id: u64,
    packet: Seq<u8>,
    packet_len: int,
    flow_keys_live: bool,
) -> Option<TenantKey> {
    if raw_cgroup_id == 0 {
        None
    } else {
        match ipv4_offset(packet, packet_len) {
            None => None,
            Some(l3) => match transport_of(packet, packet_len, l3 as int) {
                None => None,
                Some((proto, l4)) => if !flow_keys_live {
                    Some(
                        TenantKey {
                            cgroup_id: raw_cgroup_id,
                            http_path_hash: 0,
                            dst_port: 0,
                            proto: 0,
                            http_method: 0,
                        },
                    )
                } else {
                    match dst_port_of(packet, packet_len, proto, l4 as int) {
                        None => None,
                        Some(dst_port) => {
                            let selector = l7_selector(packet, packet_len, proto, l4 as int);
                            Some(
                                TenantKey {
                                    cgroup_id: raw_cgroup_id,
                                    http_path_hash: selector.1,
                                    dst_port,
                                    proto,
                                    http_method: selector.0,
                                },
                            )
                        },
                    }
                },
            },
        }
    }
}

/// Reads the flow key of a packet.
pub fn flow_key_from_packet(
    raw_cgroup_id: u64,
    packet: &[u8],
    packet_len: usize,
    flow_keys_live: bool,
) -> (r: Option<TenantKey>)
    ensures
        r == flow_key(raw_cgroup_id, packet@, packet_len as int, flow_keys_live),
{
    let cgroup_id: u64 = match extract_cgroup_id(raw_cgroup_id) {
        Some(id) => id,
        None => return None,
    };
    let l3_offset: usize = match parse_l2_ipv4(packet, packet_len) {
        Some(offset) => offset,
        None => return None,
    };
    let (proto, l4_offset): (u8, usize) = match parse_l3_ipv4(packet, packet_len, l3_offset) {
        Some(transport) => transport,
        None => return None,
    };
    if !flow_keys_live {
        return Some(
            TenantKey { cgroup_id, http_path_hash: 0, dst_port: 0, proto: 0, http_method: 0 },
        );
    }
    let dst_port: u16 = match parse_l4_dst_port(packet, packet_len, proto, l4_offset) {
        Some(port) => port,
        None => return None,
    };
    let (http_method, http_path_hash): (u8, u32) = parse_l7_http_selector(
        packet,
        packet_len,
        proto,
        l4_offset,
    );
    Some(TenantKey { cgroup_id, http_path_hash, dst_port, proto, http_method })
}

/// Whether a packet has a flow key, and what its headers put there, byte by byte:
/// an EtherType of IPv4 at twelve, a version of four and a header length of five
/// words at least at fourteen, the protocol at twenty-three, and for TCP and UDP the
/// destination port, high byte first, two bytes into their header.
pub proof fn flow_key_reads_the_headers(
    raw_cgroup_id: u64,
    packet: Seq<u8>,
    packet_len: int,
    l4: int,
)
    requires
        packet.len() > 14 ==> l4 == 14 + 4 * (packet[14] % 16),
    ensures
        flow_key(raw_cgroup_id, packet, packet_len, false) is Some == (raw_cgroup_id != 0
            && packet_len >= 34 && packet.len() >= 24 && packet[12] == 0x08 && packet[13] == 0x00
            && packet[14] / 16 == 4 && packet[14] % 16 >= 5 && packet_len >= l4),
        flow_key(raw_cgroup_id, packet, packet_len, true) is Some == (flow_key(
            raw_cgroup_id,
            packet,
            packet_len,
            false,
        ) is Some && (packet[23] == 6 || packet[23] == 17 ==> packet_len >= l4 + 4 && packet.len()
            >= l4 + 4)),
        flow_key(raw_cgroup_id, packet, packet_len, false) matches Some(key) ==> key.cgroup_id
            == raw_cgroup_id && key.proto == 0 && key.dst_port == 0 && key.http_method == 0
            && key.http_path_hash == 0,
        flow_key(raw_cgroup_id, packet, packet_len, true) matches Some(key) ==> {
            &&& key.cgroup_id == raw_cgroup_id
            &&& key.proto == packet[23]
            &&& packet[23] == 6 || packet[23] == 17 ==> key.dst_port == packet[l4 + 2] * 256
                + packet[l4 + 3]
            &&& packet[23] != 6 && packet[23] != 17 ==> key.dst_port == 0 && key.http_method == 0
                && key.http_path_hash == 0
        },
{
    if packet.len() >= 14 {
        assert(be16(packet[12], packet[13]) == 0x0800 <==> packet[12] == 0x08 && packet[13] == 0);
    }
}

/// Whether the bytes from `payload` on, within the packet, are `verb` and a path of
/// `n` bytes that a space ends. A path starts with a slash, holds no space and has
/// fewer than sixty-four bytes.
pub open spec fn request_at(
    packet: Seq<u8>,
    packet_len: int,
    payload: int,
    verb: Seq<u8>,
    n: int,
) -> bool {
    let path = payload + verb.len();
    &&& 1 <= n < 64
    &&& path + n < packet_len
    &&& path + n < packet.len()
    &&& packet.subrange(payload, path) =~= verb
    &&& packet[path] == 0x2f
    &&& packet[path + n] == 0x20
    &&& forall|i: int| path <= i < path + n ==> packet[i] != 0x20
}

/// Where the payload of a TCP or UDP packet starts: behind a TCP header of as many
/// words as the upper half of its thirteenth byte says, five at least, or behind the
/// eight bytes of a UDP header.
pub open spec fn payload_at(packet: Seq<u8>, packet_len: int, l4: int, payload: int) -> bool {
    &&& packet[23] == 6 ==> packet_len >= l4 + 20 && packet.len() > l4 + 12 && packet[l4 + 12] / 16
        >= 5 && payload == l4 + 4 * (packet[l4 + 12] / 16)
    &&& packet[23] == 17 ==> payload == l4 + 8
    &&& packet[23] == 6 || packet[23] == 17
    &&& payload <= packet_len
}

/// The bytes of `GET` and a space.
pub open spec fn get_verb() -> Seq<u8> {
    seq![0x47u8, 0x45u8, 0x54u8, 0x20u8]
}

/// The bytes of `POST` and a space.
pub open spec fn post_verb() -> Seq<u8> {
    seq![0x50u8, 0x4fu8, 0x53u8, 0x54u8, 0x20u8]
}

/// A request is carried into the flow key, whatever the port: where live flow keys
/// are read and the payload of a TCP or UDP packet is a `GET` or a `POST` of a path,
/// the key holds the number of that method and the FNV-1a hash of that path.
pub proof fn request_reaches_the_flow_key(
    raw_cgroup_id: u64,
    packet: Seq<u8>,
    packet_len: int,
    l4: int,
    payload: int,
    n: int,
)
    requires
        flow_key(raw_cgroup_id, packet, packet_len, true) is Some,
        l4 == 14 + 4 * (packet[14] % 16),
        payload_at(packet, packet_len, l4, payload),
        packet.len() >= packet_len || packet.len() >= payload + 128,
    ensures
        request_at(packet, packet_len, payload, get_verb(), n) ==> (flow_key(
            raw_cgroup_id,
            packet,
            packet_len,
            true,
        ) matches Some(key) && key.http_method == 1 && key.http_path_hash == crate::common::fnv1a(
            packet.subrange(payload + 4, payload + 4 + n),
        )),
        request_at(packet, packet_len, payload, post_verb(), n) ==> (flow_key(
            raw_cgroup_id,
            packet,
            packet_len,
            true,
        ) matches Some(key) && key.http_method == 2 && key.http_path_hash == crate::common::fnv1a(
            packet.subrange(payload + 5, payload + 5 + n),
        )),
{
    let len = prefix_len(packet_len, payload);
    let bytes = padded_prefix(packet, payload, len);
    if request_at(packet, packet_len, payload, get_verb(), n) {
        let path = packet.subrange(payload + 4, payload + 4 + n);
        prefix_holds_the_request(packet, packet_len, payload, get_verb(), n);
        assert(starts_get(bytes));
        request_line_selects_its_path(bytes, path, len);
    }
    if request_at(packet, packet_len, payload, post_verb(), n) {
        let path = packet.subrange(payload + 5, payload + 5 + n);
        prefix_holds_the_request(packet, packet_len, payload, post_verb(), n);
        assert(starts_post(bytes));
        request_line_selects_its_path(bytes, path, len);
    }
}

proof fn prefix_holds_the_request(
    packet: Seq<u8>,
    packet_len: int,
    payload: int,
    verb: Seq<u8>,
    n: int,
)
    requires
        0 <= payload,
        4 <= verb.len() <= 5,
        request_at(packet, packet_len, payload, verb, n),
    ensures
        ({
            let len = prefix_len(packet_len, payload);
            let bytes = padded_prefix(packet, payload, len);
            let path = packet.subrange(payload + verb.len(), payload + verb.len() + n);
            &&& bytes.take(verb.len() as int) =~= verb
            &&& holds_path(bytes, path, verb.len() as int, len)
            &&& path.len() == n
            &&& path[0] == 0x2f
            &&& forall|i: int| 0 <= i < path.len() ==> path[i] != 0x20
        }),
{
    let len = prefix_len(packet_len, payload);
    let bytes = padded_prefix(packet, payload, len);
    let start = verb.len() as int;
    let path = packet.subrange(payload + start, payload + start + n);
    assert forall|i: int| 0 <= i < start implies bytes.take(start)[i] == verb[i] by {
        assert(packet.subrange(payload, payload + start)[i] == packet[payload + i]);
    }
    assert(bytes.take(start) =~= verb);
    assert(bytes.subrange(start, start + n) =~= path);
}

/// Nothing but a request puts HTTP selectors into a flow key: where the payload holds
/// none, or has no readable start, the key has neither method nor path.
pub proof fn only_a_request_selects(
    raw_cgroup_id: u64,
    packet: Seq<u8>,
    packet_len: int,
    l4: int,
)
    requires
        flow_key(raw_cgroup_id, packet, packet_len, true) is Some,
        l4 == 14 + 4 * (packet[14] % 16),
        forall|payload: int, n: int|
            payload_at(packet, packet_len, l4, payload) ==> !(#[trigger] request_at(
                packet,
                packet_len,
                payload,
                get_verb(),
                n,
            )),
        forall|payload: int, n: int|
            payload_at(packet, packet_len, l4, payload) ==> !(#[trigger] request_at(
                packet,
                packet_len,
                payload,
                post_verb(),
                n,
            )),
    ensures
        flow_key(raw_cgroup_id, packet, packet_len, true) matches Some(key) && key.http_method == 0
            && key.http_path_hash == 0,
{
    if let Some(payload) = payload_offset_of(packet, packet_len, packet[23], l4) {
        let payload = payload as int;
        assert(payload_at(packet, packet_len, l4, payload));
        let len = prefix_len(packet_len, payload);
        let bytes = padded_prefix(packet, payload, len);
        if payload + len <= packet.len() {
            if starts_get(bytes) {
                assert forall|n: int| !is_path(bytes, 4, len, n) by {
                    if is_path(bytes, 4, len, n) {
                        request_was_there(packet, packet_len, payload, get_verb(), n);
                    }
                }
            } else if starts_post(bytes) {
                assert forall|n: int| !is_path(bytes, 5, len, n) by {
                    if is_path(bytes, 5, len, n) {
                        request_was_there(packet, packet_len, payload, post_verb(), n);
                    }
                }
            }
        }
    }
}

/// A payload whose first bytes cannot all be read, up to a hundred and twenty-eight of
/// them, selects nothing.
pub proof fn an_unreadable_payload_selects_nothing(
    raw_cgroup_id: u64,
    packet: Seq<u8>,
    packet_len: int,
    l4: int,
    payload: int,
)
    requires
        flow_key(raw_cgroup_id, packet, packet_len, true) is Some,
        l4 == 14 + 4 * (packet[14] % 16),
        payload_at(packet, packet_len, l4, payload),
        packet.len() < packet_len,
        packet.len() < payload + 128,
    ensures
        flow_key(raw_cgroup_id, packet, packet_len, true) matches Some(key) && key.http_method == 0
            && key.http_path_hash == 0,
{
}

proof fn request_was_there(
    packet: Seq<u8>,
    packet_len: int,
    payload: int,
    verb: Seq<u8>,
    n: int,
)
    requires
        0 <= payload,
        payload + prefix_len(packet_len, payload) <= packet.len(),
        4 <= verb.len() <= 5,
        padded_prefix(packet, payload, prefix_len(packet_len, payload)).take(verb.len() as int)
            =~= verb,
        is_path(
            padded_prefix(packet, payload, prefix_len(packet_len, payload)),
            verb.len() as int,
            prefix_len(packet_len, payload),
            n,
        ),
    ensures
        request_at(packet, packet_len, payload, verb, n),
{
    let len = prefix_len(packet_len, payload);
    let bytes = padded_prefix(packet, payload, len);
    let start = verb.len() as int;
    assert forall|i: int| 0 <= i < start implies packet.subrange(payload, payload + start)[i]
        == verb[i] by {
        assert(bytes.take(start)[i] == bytes[i]);
    }
    assert(packet.subrange(payload, payload + start) =~= verb);
    assert forall|i: int| payload + start <= i < payload + start + n implies packet[i] != 0x20 by {
        assert(bytes[i - payload] == packet[i]);
    }
}

/// All packet reads are bounded: a flow key depends on no byte at or beyond
/// `FLOW_KEY_WINDOW`.
pub proof fn flow_key_reads_are_bounded(
    raw_cgroup_id: u64,
    packet: Seq<u8>,
    other: Seq<u8>,
    packet_len: int,
    flow_keys_live: bool,
)
    requires
        packet.len() >= FLOW_KEY_WINDOW,
        other.len() >= FLOW_KEY_WINDOW,
        forall|i: int| 0 <= i < FLOW_KEY_WINDOW ==> packet[i] == other[i],
    ensures
        flow_key(raw_cgroup_id, packet, packet_len, flow_keys_live) == flow_key(
            raw_cgroup_id,
            other,
            packet_len,
            flow_keys_live,
        ),
{
    match transport_of(packet, packet_len, ETHERNET_HEADER_LEN as int) {
        None => {},
        Some((proto, l4)) => {
            assert(l4 <= 74);
            match payload_offset_of(packet, packet_len, proto, l4 as int) {
                None => {},
                Some(payload) => {
                    let len = prefix_len(packet_len, payload as int);
                    assert(padded_prefix(packet, payload as int, len) =~= padded_prefix(
                        other,
                        payload as int,
                        len,
                    ));
                },
            }
        },
    }
}

/// A flow key carries the packet's cgroup, which is never zero; without live
/// flow keys it is the tenant-wide wildcard; and protocols other than TCP and
/// UDP have neither port nor HTTP selectors.
pub proof fn flow_key_shape(
    raw_cgroup_id: u64,
    packet: Seq<u8>,
    packet_len: int,
    flow_keys_live: bool,
)
    ensures
        flow_key(raw_cgroup_id, packet, packet_len, flow_keys_live) matches Some(key) ==> {
            &&& key.cgroup_id == raw_cgroup_id
            &&& key.cgroup_id != 0
            &&& !flow_keys_live ==> key == key.without_proto()
            &&& !has_dst_port(key.proto) ==> key == key.without_port()
        },
{
}

} // verus!
