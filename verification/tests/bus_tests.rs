use shared_memory_backend::bus::{EventBus, RecvOutcome, BUS_CAPACITY};
use shared_memory_backend::events::WsEvent;

#[test]
fn events_arrive_in_insertion_order() {
    let mut bus = EventBus::new();
    let mut cursor = bus.subscribe();
    bus.send(WsEvent::RpcServerReady { port: 1 });
    bus.send(WsEvent::RpcServerOffline);

    let (out, next) = bus.try_recv(cursor);
    assert!(matches!(out, RecvOutcome::Event(WsEvent::RpcServerReady { port: 1 })));
    cursor = next;
    let (out, next) = bus.try_recv(cursor);
    assert!(matches!(out, RecvOutcome::Event(WsEvent::RpcServerOffline)));
    cursor = next;
    let (out, _) = bus.try_recv(cursor);
    assert!(matches!(out, RecvOutcome::Empty));
}

#[test]
fn a_lagging_subscriber_learns_the_gap_and_continues() {
    let mut bus = EventBus::new();
    let cursor = bus.subscribe();
    for i in 0..(BUS_CAPACITY as i64 + 3) {
        bus.send(WsEvent::RpcServerReady { port: i });
    }
    // the first three entries fell out of the ring
    let (out, next) = bus.try_recv(cursor);
    assert!(matches!(out, RecvOutcome::Lagged(3)));
    let (out, _) = bus.try_recv(next);
    assert!(matches!(out, RecvOutcome::Event(WsEvent::RpcServerReady { port: 3 })));
}

#[test]
fn close_ends_drained_subscribers() {
    let mut bus = EventBus::new();
    let cursor = bus.subscribe();
    bus.send(WsEvent::RpcServerOffline);
    bus.close();
    let (out, next) = bus.try_recv(cursor);
    assert!(matches!(out, RecvOutcome::Event(_)));
    let (out, _) = bus.try_recv(next);
    assert!(matches!(out, RecvOutcome::Closed));
}

#[test]
fn late_subscribers_start_at_the_next_event() {
    let mut bus = EventBus::new();
    bus.send(WsEvent::RpcServerOffline);
    let cursor = bus.subscribe();
    let (out, _) = bus.try_recv(cursor);
    assert!(matches!(out, RecvOutcome::Empty));
}
