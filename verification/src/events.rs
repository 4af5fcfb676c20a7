//! Drop events as they come out of the ring buffer.

use vstd::prelude::*;

use crate::common::{
    reason_code, DropEvent, DropReason, TenantKey, DROP_EVENT_LEN, DROP_EVENT_REASON_OFFSET,
    DROP_EVENT_TENANT_KEY_OFFSET, DROP_EVENT_TS_NS_OFFSET,
};

verus! {

/// How many events are looked at each time the ring buffer is ready.
pub const MAX_EVENTS_PER_WAKE: usize = 1024;

/// `u16::from_ne_bytes` reads two bytes in the byte order of the machine: the
/// first byte is either the low or the high one.
#[verifier::external_body]
fn u16_from_native_bytes(bytes: [u8; 2]) -> (r: u16)
    ensures
        r == bytes@[0] + 256 * bytes@[1] || r == 256 * bytes@[0] + bytes@[1],
{
    u16::from_ne_bytes(bytes)
}

/// Which end of a number is stored first.
#[derive(Clone, Copy, Debug, PartialEq, Eq, Structural)]
pub enum ByteOrder {
    LittleEndian,
    BigEndian,
}

/// Whether `order` is the byte order of the machine: that in which
/// `u16::from_ne_bytes` reads a one followed by a zero.
pub closed spec fn is_native(order: ByteOrder) -> bool {
    exists|bytes: [u8; 2], probe: u16|
        {
            &&& #[trigger] call_ensures(u16_from_native_bytes, (bytes,), probe)
            &&& bytes@ == seq![1u8, 0u8]
            &&& probe == value_in(order, bytes@)
        }
}

/// The byte order of the machine.
fn native_byte_order() -> (order: ByteOrder)
    ensures
        is_native(order),
        exists|bytes: [u8; 2], probe: u16|
            {
                &&& #[trigger] call_ensures(u16_from_native_bytes, (bytes,), probe)
                &&& bytes@ == seq![1u8, 0u8]
                &&& order == ByteOrder::LittleEndian <==> probe == 1
                &&& order == ByteOrder::BigEndian <==> probe == 256
            },
{
    let bytes: [u8; 2] = [1, 0];
    let probe: u16 = u16_from_native_bytes(bytes);
    proof {
        assert(bytes@ =~= seq![1u8, 0u8]);
        reveal_with_fuel(be_value, 3);
        assert(seq![1u8, 0u8].reverse() =~= seq![0u8, 1u8]);
        assert(seq![1u8, 0u8].drop_last() =~= seq![1u8]);
        assert(seq![0u8, 1u8].drop_last() =~= seq![0u8]);
        assert(call_ensures(u16_from_native_bytes, (bytes,), probe));
    }
    if probe == 1 {
        ByteOrder::LittleEndian
    } else {
        ByteOrder::BigEndian
    }
}

/// The number that `bytes` hold, most significant byte first.
pub open spec fn be_value(bytes: Seq<u8>) -> nat
    decreases bytes.len(),
{
    if bytes.len() == 0 {
        0
    } else {
        be_value(bytes.drop_last()) * 256 + bytes.last() as nat
    }
}

/// The number that `bytes` hold in the given order.
pub open spec fn value_in(order: ByteOrder, bytes: Seq<u8>) -> nat {
    match order {
        ByteOrder::BigEndian => be_value(bytes),
        ByteOrder::LittleEndian => be_value(bytes.reverse()),
    }
}

/// The `len` bytes of `payload` from `at` on.
pub open spec fn bytes_at(payload: Seq<u8>, at: int, len: int) -> Seq<u8> {
    payload.subrange(at, at + len)
}

proof fn be_value_bound(bytes: Seq<u8>)
    requires
        bytes.len() <= 8,
    ensures
        bytes.len() == 2 ==> be_value(bytes) < 0x1_0000,
        bytes.len() == 4 ==> be_value(bytes) < 0x1_0000_0000,
        bytes.len() == 8 ==> be_value(bytes) < 0x1_0000_0000_0000_0000,
{
    reveal_with_fuel(be_value, 9);
}

/// Reads `len` bytes from `at` as a number.
fn read_number(order: ByteOrder, payload: &[u8], at: usize, len: usize) -> (value: u64)
    requires
        len == 2 || len == 4 || len == 8,
        at + len <= payload@.len(),
    ensures
        value == value_in(order, bytes_at(payload@, at as int, len as int)),
        len == 2 ==> value < 0x1_0000,
        len == 4 ==> value < 0x1_0000_0000,
{
    let ghost field = bytes_at(payload@, at as int, len as int);
    let ghost ordered = match order {
        ByteOrder::BigEndian => field,
        ByteOrder::LittleEndian => field.reverse(),
    };
    let limit: usize = payload.len();
    let mut value: u64 = 0;
    let mut i: usize = 0;
    assert(ordered.take(0) =~= Seq::<u8>::empty());
    while i < len
        invariant
            i <= len,
            len <= 8,
            at + len <= limit == payload@.len(),
            field == bytes_at(payload@, at as int, len as int),
            ordered == (match order {
                ByteOrder::BigEndian => field,
                ByteOrder::LittleEndian => field.reverse(),
            }),
            value == be_value(ordered.take(i as int)),
            i < 8 ==> value < 0x100_0000_0000_0000,
            value < 0x1_0000_0000_0000_0000,
        decreases len - i,
    {
        let byte: u8 = match order {
            ByteOrder::BigEndian => payload[at + i],
            ByteOrder::LittleEndian => payload[at + (len - 1 - i)],
        };
        proof {
            let next = ordered.take(i + 1);
            assert(next.drop_last() =~= ordered.take(i as int));
            assert(next.last() == byte);
            prefix_bound(next);
        }
        value = value * 256 + byte as u64;
        i += 1;
    }
    assert(ordered.take(i as int) =~= ordered);
    proof {
        be_value_bound(ordered);
    }
    value
}

proof fn prefix_bound(bytes: Seq<u8>)
    requires
        0 < bytes.len() <= 8,
    ensures
        be_value(bytes) < 0x1_0000_0000_0000_0000,
        bytes.len() < 8 ==> be_value(bytes) < 0x100_0000_0000_0000,
{
    reveal_with_fuel(be_value, 9);
}

/// The name of a reason code.
pub open spec fn reason_text(reason: u8) -> Seq<char> {
    if reason == reason_code(DropReason::NoTokens) {
        "no_tokens"@
    } else if reason == reason_code(DropReason::NoPolicy) {
        "no_policy"@
    } else if reason == reason_code(DropReason::ParseFail) {
        "parse_fail"@
    } else if reason == reason_code(DropReason::StateStoreFail) {
        "state_store_fail"@
    } else {
        "unknown"@
    }
}

/// The name of a drop reason.
pub fn reason_name(reason: u8) -> (name: &'static str)
    ensures
        name@ == reason_text(reason),
{
    if reason == DropReason::NoTokens.as_u8() {
        "no_tokens"
    } else if reason == DropReason::NoPolicy.as_u8() {
        "no_policy"
    } else if reason == DropReason::ParseFail.as_u8() {
        "parse_fail"
    } else if reason == DropReason::StateStoreFail.as_u8() {
        "state_store_fail"
    } else {
        "unknown"
    }
}

/// Each reason code has its name, and a code that is none is unknown.
pub proof fn reason_codes_have_names(reason: u8)
    ensures
        reason == 1 ==> reason_text(reason) == "no_tokens"@,
        reason == 2 ==> reason_text(reason) == "no_policy"@,
        reason == 3 ==> reason_text(reason) == "parse_fail"@,
        reason == 4 ==> reason_text(reason) == "state_store_fail"@,
        reason == 0 || reason > 4 ==> reason_text(reason) == "unknown"@,
{
}

/// A drop event, ready for the log.
#[derive(Clone, Copy, Debug, PartialEq, Eq)]
pub struct DecodedDropEvent {
    pub tenant: TenantKey,
    pub ts_ns: u64,
    pub reason: &'static str,
}

/// The flow key that an event payload holds.
pub open spec fn key_in(order: ByteOrder, payload: Seq<u8>) -> TenantKey {
    TenantKey {
        cgroup_id: value_in(order, bytes_at(payload, DROP_EVENT_TENANT_KEY_OFFSET as int, 8))
            as u64,
        http_path_hash: value_in(
            order,
            bytes_at(payload, DROP_EVENT_TENANT_KEY_OFFSET + 8, 4),
        ) as u32,
        dst_port: value_in(order, bytes_at(payload, DROP_EVENT_TENANT_KEY_OFFSET + 12, 2)) as u16,
        proto: payload[DROP_EVENT_TENANT_KEY_OFFSET + 14],
        http_method: payload[DROP_EVENT_TENANT_KEY_OFFSET + 15],
    }
}

/// Whether `r` is what `payload` decodes to; only a payload of the right length
/// decodes.
pub open spec fn decodes_to(
    order: ByteOrder,
    payload: Seq<u8>,
    r: Option<DecodedDropEvent>,
) -> bool {
    match r {
        None => payload.len() != DROP_EVENT_LEN,
        Some(event) => {
            &&& payload.len() == DROP_EVENT_LEN
            &&& event.tenant == key_in(order, payload)
            &&& event.ts_ns == value_in(order, bytes_at(payload, DROP_EVENT_TS_NS_OFFSET as int, 8))
            &&& event.reason@ == reason_text(payload[DROP_EVENT_REASON_OFFSET as int])
        },
    }
}

/// The bytes of an event: thirty-two, of which the first eight are the time, the next
/// eight the cgroup, then four of path hash, two of port, and one each of protocol,
/// method and reason. Numbers stand with their most significant byte first in one byte
/// order and last in the other.
pub proof fn events_are_laid_out_in_bytes(payload: Seq<u8>, event: DecodedDropEvent)
    ensures
        decodes_to(ByteOrder::BigEndian, payload, None) <==> payload.len() != 32,
        decodes_to(ByteOrder::LittleEndian, payload, None) <==> payload.len() != 32,
        decodes_to(ByteOrder::BigEndian, payload, Some(event)) ==> {
            &&& payload.len() == 32
            &&& event.ts_ns == eight(payload, 0, 1)
            &&& event.tenant.cgroup_id == eight(payload, 8, 1)
            &&& event.tenant.http_path_hash == payload[16] * 0x100_0000 + payload[17] * 0x1_0000
                + payload[18] * 0x100 + payload[19]
            &&& event.tenant.dst_port == payload[20] * 0x100 + payload[21]
            &&& event.tenant.proto == payload[22]
            &&& event.tenant.http_method == payload[23]
            &&& event.reason@ == reason_text(payload[24])
        },
        decodes_to(ByteOrder::LittleEndian, payload, Some(event)) ==> {
            &&& payload.len() == 32
            &&& event.ts_ns == eight(payload, 7, -1)
            &&& event.tenant.cgroup_id == eight(payload, 15, -1)
            &&& event.tenant.http_path_hash == payload[19] * 0x100_0000 + payload[18] * 0x1_0000
                + payload[17] * 0x100 + payload[16]
            &&& event.tenant.dst_port == payload[21] * 0x100 + payload[20]
            &&& event.tenant.proto == payload[22]
            &&& event.tenant.http_method == payload[23]
            &&& event.reason@ == reason_text(payload[24])
        },
{
    if payload.len() == 32 {
        eight_bytes_value(bytes_at(payload, 0, 8));
        eight_bytes_value(bytes_at(payload, 8, 8));
        four_bytes_value(bytes_at(payload, 16, 4));
        two_bytes_value(bytes_at(payload, 20, 2));
        eight_bytes_value(bytes_at(payload, 0, 8).reverse());
        eight_bytes_value(bytes_at(payload, 8, 8).reverse());
        four_bytes_value(bytes_at(payload, 16, 4).reverse());
        two_bytes_value(bytes_at(payload, 20, 2).reverse());
    }
}

/// The number that eight bytes of `payload` write from the byte at `first` on, most
/// significant first, each `step` after the last.
pub open spec fn eight(payload: Seq<u8>, first: int, step: int) -> int {
    payload[first] * 0x100_0000_0000_0000 + payload[first + step] * 0x1_0000_0000_0000
        + payload[first + 2 * step] * 0x100_0000_0000 + payload[first + 3 * step] * 0x1_0000_0000
        + payload[first + 4 * step] * 0x100_0000 + payload[first + 5 * step] * 0x1_0000
        + payload[first + 6 * step] * 0x100 + payload[first + 7 * step]
}

proof fn two_bytes_value(bytes: Seq<u8>)
    requires
        bytes.len() == 2,
    ensures
        be_value(bytes) == bytes[0] * 0x100 + bytes[1],
{
    reveal_with_fuel(be_value, 3);
}

proof fn four_bytes_value(bytes: Seq<u8>)
    requires
        bytes.len() == 4,
    ensures
        be_value(bytes) == bytes[0] * 0x100_0000 + bytes[1] * 0x1_0000 + bytes[2] * 0x100
            + bytes[3],
{
    reveal_with_fuel(be_value, 5);
}

proof fn eight_bytes_value(bytes: Seq<u8>)
    requires
        bytes.len() == 8,
    ensures
        be_value(bytes) == eight(bytes, 0, 1),
{
    reveal_with_fuel(be_value, 9);
}

/// Decodes an event payload whose numbers are in the given byte order.
pub fn decode_drop_event_in(order: ByteOrder, payload: &[u8]) -> (r: Option<DecodedDropEvent>)
    ensures
        decodes_to(order, payload@, r),
{
    if payload.len() != DROP_EVENT_LEN {
        return None;
    }
    let cgroup_id: u64 = read_number(order, payload, DROP_EVENT_TENANT_KEY_OFFSET, 8);
    let http_path_hash: u64 = read_number(order, payload, DROP_EVENT_TENANT_KEY_OFFSET + 8, 4);
    let dst_port: u64 = read_number(order, payload, DROP_EVENT_TENANT_KEY_OFFSET + 12, 2);
    let proto: u8 = payload[DROP_EVENT_TENANT_KEY_OFFSET + 14];
    let http_method: u8 = payload[DROP_EVENT_TENANT_KEY_OFFSET + 15];
    let ts_ns: u64 = read_number(order, payload, DROP_EVENT_TS_NS_OFFSET, 8);
    let reason: u8 = payload[DROP_EVENT_REASON_OFFSET];
    Some(
        DecodedDropEvent {
            tenant: TenantKey {
                cgroup_id,
                http_path_hash: http_path_hash as u32,
                dst_port: dst_port as u16,
                proto,
                http_method,
            },
            ts_ns,
            reason: reason_name(reason),
        },
    )
}

/// Decodes an event payload that was written on this machine.
pub fn decode_drop_event(payload: &[u8]) -> (r: Option<DecodedDropEvent>)
    ensures
        exists|order: ByteOrder| is_native(order) && #[trigger] decodes_to(order, payload@, r),
{
    let order = native_byte_order();
    let r = decode_drop_event_in(order, payload);
    assert(decodes_to(order, payload@, r));
    r
}

/// `n` as `len` bytes, most significant byte first.
pub open spec fn be_bytes(n: nat, len: nat) -> Seq<u8>
    decreases len,
{
    if len == 0 {
        seq![]
    } else {
        be_bytes(n / 256, (len - 1) as nat).push((n % 256) as u8)
    }
}

/// `n` as `len` bytes in the given order.
pub open spec fn bytes_in(order: ByteOrder, n: nat, len: nat) -> Seq<u8> {
    match order {
        ByteOrder::BigEndian => be_bytes(n, len),
        ByteOrder::LittleEndian => be_bytes(n, len).reverse(),
    }
}

/// The payload of an event.
pub open spec fn event_bytes(order: ByteOrder, event: DropEvent) -> Seq<u8> {
    bytes_in(order, event.ts_ns as nat, 8) + bytes_in(order, event.tenant_key.cgroup_id as nat, 8)
        + bytes_in(order, event.tenant_key.http_path_hash as nat, 4) + bytes_in(
        order,
        event.tenant_key.dst_port as nat,
        2,
    ) + seq![event.tenant_key.proto, event.tenant_key.http_method, event.reason] + event._pad@
}

proof fn be_bytes_read_back(n: nat, len: nat)
    requires
        len <= 8,
        len == 2 ==> n < 0x1_0000,
        len == 4 ==> n < 0x1_0000_0000,
        len == 8 ==> n < 0x1_0000_0000_0000_0000,
        len == 2 || len == 4 || len == 8,
    ensures
        be_bytes(n, len).len() == len,
        be_value(be_bytes(n, len)) == n,
{
    be_bytes_value(n, len);
    vstd::arithmetic::power::lemma_pow_positive(256, len);
    reveal_with_fuel(vstd::arithmetic::power::pow, 9);
    vstd::arithmetic::div_mod::lemma_small_mod(
        n,
        vstd::arithmetic::power::pow(256, len) as nat,
    );
}

proof fn be_bytes_value(n: nat, len: nat)
    ensures
        be_bytes(n, len).len() == len,
        be_value(be_bytes(n, len)) == n % (vstd::arithmetic::power::pow(256, len) as nat),
    decreases len,
{
    if len > 0 {
        let less = (len - 1) as nat;
        let p = vstd::arithmetic::power::pow(256, less);
        vstd::arithmetic::power::lemma_pow_positive(256, less);
        be_bytes_value(n / 256, less);
        let s = be_bytes(n, len);
        assert(s.drop_last() =~= be_bytes(n / 256, less));
        assert(vstd::arithmetic::power::pow(256, len) == 256 * p) by {
            reveal(vstd::arithmetic::power::pow);
        }
        vstd::arithmetic::div_mod::lemma_mod_breakdown(n as int, 256, p);
    } else {
        assert(vstd::arithmetic::power::pow(256, 0) == 1) by {
            reveal(vstd::arithmetic::power::pow);
        }
    }
}

proof fn bytes_read_back(order: ByteOrder, n: nat, len: nat)
    requires
        len == 2 || len == 4 || len == 8,
        len == 2 ==> n < 0x1_0000,
        len == 4 ==> n < 0x1_0000_0000,
        len == 8 ==> n < 0x1_0000_0000_0000_0000,
    ensures
        bytes_in(order, n, len).len() == len,
        value_in(order, bytes_in(order, n, len)) == n,
{
    be_bytes_read_back(n, len);
    let s = be_bytes(n, len);
    assert(s.reverse().reverse() =~= s);
}

/// Events survive the ring buffer: decoding an event's payload, in the byte order
/// it was written in, gives back its key, its time and the name of its reason.
pub proof fn event_reads_back(
    order: ByteOrder,
    event: DropEvent,
    r: Option<DecodedDropEvent>,
)
    requires
        decodes_to(order, event_bytes(order, event), r),
    ensures
        r matches Some(decoded) && decoded.tenant == event.tenant_key && decoded.ts_ns
            == event.ts_ns && decoded.reason@ == reason_text(event.reason),
{
    let payload = event_bytes(order, event);
    let key = event.tenant_key;
    bytes_read_back(order, event.ts_ns as nat, 8);
    bytes_read_back(order, key.cgroup_id as nat, 8);
    bytes_read_back(order, key.http_path_hash as nat, 4);
    bytes_read_back(order, key.dst_port as nat, 2);
    assert(bytes_at(payload, 0, 8) =~= bytes_in(order, event.ts_ns as nat, 8));
    assert(bytes_at(payload, 8, 8) =~= bytes_in(order, key.cgroup_id as nat, 8));
    assert(bytes_at(payload, 16, 4) =~= bytes_in(order, key.http_path_hash as nat, 4));
    assert(bytes_at(payload, 20, 2) =~= bytes_in(order, key.dst_port as nat, 2));
}

/// Whether the consumer stops after the shutdown signal changed.
pub fn should_stop_after_shutdown_change(channel_closed: bool, shutdown_requested: bool) -> (r:
    bool)
    ensures
        r == (channel_closed || shutdown_requested),
{
    channel_closed || shutdown_requested
}

/// What the consumer does with one item of the ring buffer.
#[derive(Clone, Copy, Debug, PartialEq, Eq)]
pub enum EventAction {
    /// Too many items at once: leave it unread.
    Skip,
    /// The item is no event.
    Malformed { len: usize },
    /// Count the event without logging it.
    Count,
    /// Log the event.
    Log(DecodedDropEvent),
}

/// The state of the drop-event consumer.
#[derive(Clone, Copy, Debug, PartialEq, Eq, Structural)]
pub struct DropEventConsumer {
    /// The byte order that events are written in.
    pub order: ByteOrder,
    pub log_sample_n: u32,
    pub seen_events: u64,
    pub processed: usize,
    pub skipped: usize,
}

impl DropEventConsumer {
    /// A consumer of events of this machine that logs one in `log_sample_n`.
    pub fn new(log_sample_n: u32) -> (consumer: Self)
        ensures
            consumer == (DropEventConsumer {
                order: consumer.order,
                log_sample_n: if log_sample_n < 1 {
                    1
                } else {
                    log_sample_n
                },
                seen_events: 0,
                processed: 0,
                skipped: 0,
            }),
            is_native(consumer.order),
    {
        DropEventConsumer {
            order: native_byte_order(),
            log_sample_n: if log_sample_n < 1 {
                1
            } else {
                log_sample_n
            },
            seen_events: 0,
            processed: 0,
            skipped: 0,
        }
    }

    /// The ring buffer is ready: item counts start over.
    pub fn begin_wake(&mut self)
        ensures
            *final(self) == (DropEventConsumer { processed: 0, skipped: 0, ..*old(self) }),
    {
        self.processed = 0;
        self.skipped = 0;
    }

    /// Takes in one item of the ring buffer. Of those that come at once only the
    /// first `MAX_EVENTS_PER_WAKE` are looked at, and of the events among them
    /// one in `log_sample_n` is logged.
    pub fn on_item(&mut self, payload: &[u8]) -> (action: EventAction)
        requires
            old(self).log_sample_n >= 1,
        ensures
            final(self).order == old(self).order,
            final(self).log_sample_n == old(self).log_sample_n,
            final(self).processed == old(self).processed.saturating_add(1),
            action == EventAction::Skip <==> old(self).processed >= 1024,
            if old(self).processed >= MAX_EVENTS_PER_WAKE {
                &&& action == EventAction::Skip
                &&& final(self).skipped == old(self).skipped.saturating_add(1)
                &&& final(self).seen_events == old(self).seen_events
            } else if payload@.len() != DROP_EVENT_LEN {
                &&& action == (EventAction::Malformed { len: payload@.len() as usize })
                &&& final(self).skipped == old(self).skipped
                &&& final(self).seen_events == old(self).seen_events
            } else {
                &&& final(self).skipped == old(self).skipped
                &&& final(self).seen_events == old(self).seen_events.saturating_add(1)
                &&& if final(self).seen_events as int % old(self).log_sample_n as int == 0 {
                    action matches EventAction::Log(event) && decodes_to(
                        old(self).order,
                        payload@,
                        Some(event),
                    )
                } else {
                    action == EventAction::Count
                }
            },
    {
        let action: EventAction = if self.processed < MAX_EVENTS_PER_WAKE {
            match decode_drop_event_in(self.order, payload) {
                Some(event) => {
                    self.seen_events = self.seen_events.saturating_add(1);
                    if self.seen_events % (self.log_sample_n as u64) == 0 {
                        EventAction::Log(event)
                    } else {
                        EventAction::Count
                    }
                },
                None => EventAction::Malformed { len: payload.len() },
            }
        } else {
            self.skipped = self.skipped.saturating_add(1);
            EventAction::Skip
        };
        self.processed = self.processed.saturating_add(1);
        action
    }
}

} // verus!
