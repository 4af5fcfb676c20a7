//! Drop events as they come out of the ring buffer.

use std::mem::size_of;
use std::time::Duration;

use tokio::sync::watch;
use vantage::common::{
    DropEvent, DropReason, TenantKey, DROP_EVENT_LEN, DROP_EVENT_REASON_OFFSET,
    DROP_EVENT_TENANT_KEY_OFFSET, DROP_EVENT_TS_NS_OFFSET,
};
use vantage::events::{
    decode_drop_event, decode_drop_event_in, reason_name, should_stop_after_shutdown_change,
    ByteOrder, DropEventConsumer, EventAction, MAX_EVENTS_PER_WAKE,
};

fn block_on<F: std::future::Future>(future: F) -> F::Output {
    tokio::runtime::Builder::new_current_thread()
        .enable_time()
        .build()
        .unwrap()
        .block_on(future)
}

#[test]
fn shutdown_channel_stays_open_while_sender_is_retained() {
    let (tx, mut rx) = watch::channel(false);

    let timed = block_on(async { tokio::time::timeout(Duration::from_millis(10), rx.changed()).await });
    assert!(
        timed.is_err(),
        "receiver should remain pending while sender is retained without updates"
    );
    assert!(!should_stop_after_shutdown_change(false, *rx.borrow()));

    drop(tx);
}

#[test]
fn shutdown_channel_reports_closed_when_sender_is_dropped() {
    let (tx, mut rx) = watch::channel(false);
    drop(tx);

    let changed = block_on(async { rx.changed().await });
    assert!(
        should_stop_after_shutdown_change(changed.is_err(), *rx.borrow()),
        "closed shutdown channel should stop the consumer loop"
    );
}

fn sample_event() -> DropEvent {
    DropEvent {
        ts_ns: 1234,
        tenant_key: TenantKey {
            cgroup_id: 0x0a00_0001,
            http_path_hash: 0x1234_abcd,
            dst_port: 443,
            proto: 6,
            http_method: 0,
        },
        reason: DropReason::NoTokens.as_u8(),
        _pad: [0; 7],
    }
}

fn native_payload(event: &DropEvent) -> [u8; DROP_EVENT_LEN] {
    let mut payload = [0_u8; DROP_EVENT_LEN];
    payload[DROP_EVENT_TS_NS_OFFSET..DROP_EVENT_TS_NS_OFFSET + 8]
        .copy_from_slice(&event.ts_ns.to_ne_bytes());
    payload[DROP_EVENT_TENANT_KEY_OFFSET..DROP_EVENT_TENANT_KEY_OFFSET + 8]
        .copy_from_slice(&event.tenant_key.cgroup_id.to_ne_bytes());
    payload[DROP_EVENT_TENANT_KEY_OFFSET + 8..DROP_EVENT_TENANT_KEY_OFFSET + 12]
        .copy_from_slice(&event.tenant_key.http_path_hash.to_ne_bytes());
    payload[DROP_EVENT_TENANT_KEY_OFFSET + 12..DROP_EVENT_TENANT_KEY_OFFSET + 14]
        .copy_from_slice(&event.tenant_key.dst_port.to_ne_bytes());
    payload[DROP_EVENT_TENANT_KEY_OFFSET + 14] = event.tenant_key.proto;
    payload[DROP_EVENT_TENANT_KEY_OFFSET + 15] = event.tenant_key.http_method;
    payload[DROP_EVENT_REASON_OFFSET] = event.reason;
    payload
}

#[test]
fn drop_event_decode_round_trips_contract_layout() {
    let event = sample_event();
    let payload = native_payload(&event);

    let decoded = decode_drop_event(&payload);
    let Some(decoded) = decoded else {
        panic!("drop event payload should decode");
    };

    assert_eq!(decoded.tenant, event.tenant_key);
    assert_eq!(decoded.ts_ns, event.ts_ns);
    assert_eq!(decoded.reason, "no_tokens");
}

#[test]
fn drop_event_offsets_match_shared_contract() {
    assert_eq!(size_of::<DropEvent>(), 32);
    assert_eq!(DROP_EVENT_LEN, size_of::<DropEvent>());
    assert_eq!(DROP_EVENT_TS_NS_OFFSET, 0);
    assert_eq!(DROP_EVENT_TENANT_KEY_OFFSET, 8);
    assert_eq!(
        DROP_EVENT_REASON_OFFSET,
        DROP_EVENT_TENANT_KEY_OFFSET + size_of::<TenantKey>()
    );
}

#[test]
fn both_byte_orders_are_read() {
    let mut payload = [0_u8; DROP_EVENT_LEN];
    payload[0] = 1;
    payload[DROP_EVENT_TENANT_KEY_OFFSET + 12] = 1;
    payload[DROP_EVENT_TENANT_KEY_OFFSET + 13] = 2;
    payload[DROP_EVENT_TENANT_KEY_OFFSET + 15] = 9;
    let Some(little) = decode_drop_event_in(ByteOrder::LittleEndian, &payload) else {
        panic!("payload should decode");
    };
    assert_eq!(little.ts_ns, 1);
    assert_eq!(little.tenant.dst_port, 0x0201);
    assert_eq!(little.tenant.http_method, 9);
    let Some(big) = decode_drop_event_in(ByteOrder::BigEndian, &payload) else {
        panic!("payload should decode");
    };
    assert_eq!(big.ts_ns, 1 << 56);
    assert_eq!(big.tenant.dst_port, 0x0102);
    assert!(decode_drop_event(&payload[1..]).is_none());
}

#[test]
fn reasons_have_names() {
    assert_eq!(reason_name(DropReason::NoTokens.as_u8()), "no_tokens");
    assert_eq!(reason_name(DropReason::NoPolicy.as_u8()), "no_policy");
    assert_eq!(reason_name(DropReason::ParseFail.as_u8()), "parse_fail");
    assert_eq!(reason_name(DropReason::StateStoreFail.as_u8()), "state_store_fail");
    assert_eq!(reason_name(200), "unknown");
}

#[test]
fn one_event_in_n_is_logged() {
    let payload = native_payload(&sample_event());
    let mut consumer = DropEventConsumer::new(3);
    consumer.begin_wake();
    assert_eq!(consumer.on_item(&payload), EventAction::Count);
    assert_eq!(consumer.on_item(&payload[..5]), EventAction::Malformed { len: 5 });
    assert_eq!(consumer.on_item(&payload), EventAction::Count);
    let EventAction::Log(event) = consumer.on_item(&payload) else {
        panic!("the third event should be logged");
    };
    assert_eq!(event.tenant, sample_event().tenant_key);
    assert_eq!(consumer.seen_events, 3);
    assert_eq!(DropEventConsumer::new(0).log_sample_n, 1);
}

#[test]
fn items_over_the_limit_are_skipped() {
    let payload = native_payload(&sample_event());
    let mut consumer = DropEventConsumer::new(1);
    for _ in 0..MAX_EVENTS_PER_WAKE {
        assert!(matches!(consumer.on_item(&payload), EventAction::Log(_)));
    }
    assert_eq!(consumer.on_item(&payload), EventAction::Skip);
    assert_eq!(consumer.skipped, 1);
    assert_eq!(consumer.seen_events, 1024);
    consumer.begin_wake();
    assert!(matches!(consumer.on_item(&payload), EventAction::Log(_)));
    assert_eq!(consumer.skipped, 0);
}
