//! Heartbeat and teardown behaviour of the connection state machine.
use wim_core::conn::{ConnAction, ConnCtrl, ConnEvent, CLIENT_TIMEOUT_MS};

fn disconnects(actions: &[ConnAction]) -> usize {
    actions
        .iter()
        .filter(|a| matches!(a, ConnAction::NotifyDisconnect))
        .count()
}

#[test]
fn quiet_connection_is_pinged_not_dropped() {
    let mut c = ConnCtrl::new();
    assert!(c.step(ConnEvent::Registered, 1000).is_empty());
    let a = c.step(ConnEvent::HeartbeatTick, 6000);
    assert_eq!(a.len(), 1);
    assert!(matches!(a[0], ConnAction::SendPing));
    // exactly at the timeout boundary the connection survives
    let a = c.step(ConnEvent::HeartbeatTick, 1000 + CLIENT_TIMEOUT_MS);
    assert!(matches!(a[0], ConnAction::SendPing));
}

#[test]
fn heartbeat_eviction_within_timeout() {
    let mut c = ConnCtrl::new();
    c.step(ConnEvent::Registered, 1000);
    c.step(ConnEvent::PongFrame, 2000);
    let a = c.step(ConnEvent::HeartbeatTick, 2000 + CLIENT_TIMEOUT_MS + 1);
    assert_eq!(disconnects(&a), 1);
    assert!(a.iter().any(|x| matches!(x, ConnAction::CloseSocket)));
    // once closing, further stimuli never disconnect again
    let a2 = c.step(ConnEvent::HeartbeatTick, 99_000_000);
    assert_eq!(disconnects(&a2), 0);
    let a3 = c.step(ConnEvent::SocketClosed, 99_000_001);
    assert_eq!(disconnects(&a3), 0);
}

#[test]
fn activity_refreshes_the_deadline() {
    let mut c = ConnCtrl::new();
    c.step(ConnEvent::Registered, 0);
    let a = c.step(ConnEvent::PingFrame, 29_000);
    assert!(matches!(a[0], ConnAction::SendPong));
    // without the ping this tick would have evicted
    let a = c.step(ConnEvent::HeartbeatTick, 31_000);
    assert!(matches!(a[0], ConnAction::SendPing));
}

#[test]
fn client_close_disconnects_exactly_once() {
    let mut c = ConnCtrl::new();
    c.step(ConnEvent::Registered, 0);
    let mut total = 0;
    total += disconnects(&c.step(ConnEvent::ChannelMsg(b"ev".to_vec()), 10));
    total += disconnects(&c.step(ConnEvent::CloseFrame, 20));
    total += disconnects(&c.step(ConnEvent::SocketClosed, 30));
    total += disconnects(&c.step(ConnEvent::StreamEnd, 40));
    assert_eq!(total, 1);
}

#[test]
fn queued_payloads_are_forwarded() {
    let mut c = ConnCtrl::new();
    c.step(ConnEvent::Registered, 0);
    let a = c.step(ConnEvent::ChannelMsg(b"payload".to_vec()), 10);
    assert_eq!(a.len(), 1);
    match &a[0] {
        ConnAction::SendText(m) => assert_eq!(m, &b"payload".to_vec()),
        _ => panic!("expected a text send"),
    }
}
