use wirekvs::{
    ConnectionState, Event, Hub, RecvOutcome, WireKVSDatabase, HUB_CAPACITY,
};

fn num_event(n: u64) -> Event {
    Event::Num(n.to_string().into_bytes())
}

fn handle() -> WireKVSDatabase {
    let mut db = WireKVSDatabase::new("db-1".to_string(), "key-1".to_string());
    db.on_connected();
    db
}

#[test]
fn client_produces_a_connecting_handle() {
    let client = wirekvs::WireKVS::new("tok".to_string());
    let db = client.database("db-2".to_string(), "ak2".to_string());
    assert_eq!(db.state, ConnectionState::Connecting);
    assert_eq!(db.id, "db-2".to_string());
    assert_eq!(db.access_key, "ak2".to_string());
}

#[test]
fn fresh_handle_is_connecting() {
    let db = WireKVSDatabase::new("db-1".to_string(), "key-1".to_string());
    assert_eq!(db.state, ConnectionState::Connecting);
}

#[test]
fn handshake_success_connects() {
    let db = handle();
    assert_eq!(db.state, ConnectionState::Connected);
}

#[test]
fn handshake_failure_is_terminal_and_closes_hub() {
    let mut db = WireKVSDatabase::new("db-1".to_string(), "key-1".to_string());
    let mut sub = db.subscribe();
    db.on_connect_failed("handshake rejected".to_string());
    assert_eq!(
        db.state,
        ConnectionState::Failed("handshake rejected".to_string())
    );
    assert_eq!(db.receive(&mut sub), RecvOutcome::Closed);
}

#[test]
fn subscriber_sees_publishes_in_order() {
    let mut hub = Hub::new();
    let mut sub = hub.subscribe();
    assert!(hub.publish(num_event(1)));
    assert!(hub.publish(num_event(2)));
    assert!(hub.publish(num_event(3)));
    assert_eq!(hub.receive(&mut sub), RecvOutcome::Received(num_event(1)));
    assert_eq!(hub.receive(&mut sub), RecvOutcome::Received(num_event(2)));
    assert_eq!(hub.receive(&mut sub), RecvOutcome::Received(num_event(3)));
    assert_eq!(hub.receive(&mut sub), RecvOutcome::Pending);
}

#[test]
fn two_subscribers_receive_identical_sequences() {
    let mut hub = Hub::new();
    let mut a = hub.subscribe();
    let mut b = hub.subscribe();
    for n in 0..3u64 {
        assert!(hub.publish(num_event(n)));
    }
    let mut seen_a = Vec::new();
    let mut seen_b = Vec::new();
    for _ in 0..3 {
        match hub.receive(&mut a) {
            RecvOutcome::Received(e) => seen_a.push(e),
            other => panic!("subscriber a expected an event, got {:?}", other),
        }
        match hub.receive(&mut b) {
            RecvOutcome::Received(e) => seen_b.push(e),
            other => panic!("subscriber b expected an event, got {:?}", other),
        }
    }
    assert_eq!(seen_a, seen_b);
    assert_eq!(seen_a, vec![num_event(0), num_event(1), num_event(2)]);
}

#[test]
fn late_subscriber_never_sees_earlier_events() {
    let mut hub = Hub::new();
    assert!(hub.publish(num_event(1)));
    let mut late = hub.subscribe();
    assert_eq!(hub.receive(&mut late), RecvOutcome::Pending);
    assert!(hub.publish(num_event(2)));
    assert_eq!(hub.receive(&mut late), RecvOutcome::Received(num_event(2)));
    assert_eq!(hub.receive(&mut late), RecvOutcome::Pending);
}

#[test]
fn overrun_reports_lag_then_oldest_retained() {
    let mut hub = Hub::new();
    let mut slow = hub.subscribe();
    for n in 0..(HUB_CAPACITY as u64 + 50) {
        assert!(hub.publish(num_event(n)));
    }
    assert_eq!(hub.receive(&mut slow), RecvOutcome::Lagged(50));
    assert_eq!(hub.receive(&mut slow), RecvOutcome::Received(num_event(50)));
    assert_eq!(hub.receive(&mut slow), RecvOutcome::Received(num_event(51)));
}

#[test]
fn overrun_by_one_lags_by_one() {
    let mut hub = Hub::new();
    let mut slow = hub.subscribe();
    for n in 0..(HUB_CAPACITY as u64 + 1) {
        assert!(hub.publish(num_event(n)));
    }
    assert_eq!(hub.receive(&mut slow), RecvOutcome::Lagged(1));
    assert_eq!(hub.receive(&mut slow), RecvOutcome::Received(num_event(1)));
}

#[test]
fn exactly_capacity_publishes_do_not_lag() {
    let mut hub = Hub::new();
    let mut sub = hub.subscribe();
    for n in 0..(HUB_CAPACITY as u64) {
        assert!(hub.publish(num_event(n)));
    }
    assert_eq!(hub.receive(&mut sub), RecvOutcome::Received(num_event(0)));
}

#[test]
fn closed_hub_refuses_publish_and_reports_closed() {
    let mut hub = Hub::new();
    let mut sub = hub.subscribe();
    assert!(hub.publish(num_event(1)));
    hub.close();
    assert!(!hub.publish(num_event(2)));
    assert_eq!(hub.receive(&mut sub), RecvOutcome::Closed);
    assert_eq!(hub.receive(&mut sub), RecvOutcome::Closed);
}

#[test]
fn dropping_handle_closes_all_subscriptions() {
    let mut db = handle();
    let mut a = db.subscribe();
    let mut b = db.subscribe();
    assert!(db.on_frame(b"{\"k\":1}"));
    db.close();
    assert_eq!(db.state, ConnectionState::Disconnected);
    assert_eq!(db.receive(&mut a), RecvOutcome::Closed);
    assert_eq!(db.receive(&mut b), RecvOutcome::Closed);
}

#[test]
fn malformed_frame_does_not_stop_delivery() {
    let mut db = handle();
    let mut sub = db.subscribe();
    assert!(!db.on_frame(b"{\"broken\": "));
    assert!(!db.on_frame(b"not json"));
    assert_eq!(db.receive(&mut sub), RecvOutcome::Pending);
    assert!(db.on_frame(b"{\"type\":\"set\"}"));
    let expected = Event::Obj(vec![(b"type".to_vec(), Event::Str(b"set".to_vec()))]);
    assert_eq!(db.receive(&mut sub), RecvOutcome::Received(expected));
}

#[test]
fn set_event_reaches_early_subscriber_and_not_late_one() {
    let mut db = handle();
    let mut early = db.subscribe();
    assert!(db.on_frame(b"{\"type\":\"set\",\"key\":\"greeting\",\"value\":\"Hello\"}"));
    let set_event = Event::Obj(vec![
        (b"type".to_vec(), Event::Str(b"set".to_vec())),
        (b"key".to_vec(), Event::Str(b"greeting".to_vec())),
        (b"value".to_vec(), Event::Str(b"Hello".to_vec())),
    ]);
    assert_eq!(db.receive(&mut early), RecvOutcome::Received(set_event));
    assert_eq!(db.receive(&mut early), RecvOutcome::Pending);

    let mut late = db.subscribe();
    assert!(db.on_frame(b"{\"type\":\"delete\",\"key\":\"greeting\"}"));
    let delete_event = Event::Obj(vec![
        (b"type".to_vec(), Event::Str(b"delete".to_vec())),
        (b"key".to_vec(), Event::Str(b"greeting".to_vec())),
    ]);
    assert_eq!(db.receive(&mut late), RecvOutcome::Received(delete_event));
    assert_eq!(db.receive(&mut late), RecvOutcome::Pending);
}
