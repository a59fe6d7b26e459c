//! Membership behaviour of the notification hub.
use wim_core::hub::NotifyServer;

const L1: u128 = 0x1111;
const L2: u128 = 0x2222;
const S1: u128 = 0xaaaa;
const S2: u128 = 0xbbbb;

#[test]
fn fanout_reaches_every_member_once() {
    let mut hub = NotifyServer::new();
    hub.connect(S1, L1, 10);
    hub.connect(S2, L1, 20);
    let msg = b"hello".to_vec();
    let mut ds = hub.send_msg_to_lobby(L1, &msg);
    ds.sort_by_key(|d| d.0);
    assert_eq!(ds.len(), 2);
    assert_eq!(ds[0].0, 10);
    assert_eq!(ds[1].0, 20);
    assert_eq!(ds[0].1, msg);
    assert_eq!(ds[1].1, msg);
}

#[test]
fn unknown_lobby_gets_nothing() {
    let mut hub = NotifyServer::new();
    hub.connect(S1, L1, 10);
    let ds = hub.send_msg_to_lobby(L2, &b"x".to_vec());
    assert!(ds.is_empty());
}

#[test]
fn reconnect_replaces_channel() {
    let mut hub = NotifyServer::new();
    hub.connect(S1, L1, 10);
    hub.connect(S1, L1, 11);
    let ds = hub.send_msg_to_lobby(L1, &b"x".to_vec());
    assert_eq!(ds.len(), 1);
    assert_eq!(ds[0].0, 11);
}

#[test]
fn session_sits_in_one_lobby_at_a_time() {
    let mut hub = NotifyServer::new();
    hub.connect(S1, L1, 10);
    hub.connect(S1, L2, 10);
    assert!(hub.send_msg_to_lobby(L1, &b"x".to_vec()).is_empty());
    assert_eq!(hub.send_msg_to_lobby(L2, &b"x".to_vec()).len(), 1);
}

#[test]
fn disconnect_releases_membership() {
    let mut hub = NotifyServer::new();
    hub.connect(S1, L1, 10);
    hub.connect(S2, L1, 20);
    hub.disconnect(S1);
    let ds = hub.send_msg_to_lobby(L1, &b"x".to_vec());
    assert_eq!(ds.len(), 1);
    assert_eq!(ds[0].0, 20);
    assert!(hub.send_msg_to_user(S1, &b"x".to_vec()).is_none());
    let d = hub.send_msg_to_user(S2, &b"y".to_vec()).unwrap();
    assert_eq!(d.0, 20);
    assert_eq!(d.1, b"y".to_vec());
}

#[test]
fn disconnect_unknown_session_is_harmless() {
    let mut hub = NotifyServer::new();
    hub.connect(S1, L1, 10);
    hub.disconnect(S2);
    assert_eq!(hub.send_msg_to_lobby(L1, &b"x".to_vec()).len(), 1);
}

#[test]
fn membership_settles_after_connect_disconnect_sequence() {
    // a mixed sequence of connects and disconnects leaves exactly the
    // still-connected sessions reachable, each in its last lobby
    let mut hub = NotifyServer::new();
    hub.connect(S1, L1, 1);
    hub.connect(S2, L1, 2);
    hub.connect(S1, L2, 3);
    hub.disconnect(S2);
    hub.connect(S2, L2, 4);
    hub.disconnect(S1);
    assert!(hub.send_msg_to_lobby(L1, &b"x".to_vec()).is_empty());
    let ds = hub.send_msg_to_lobby(L2, &b"x".to_vec());
    assert_eq!(ds.len(), 1);
    assert_eq!(ds[0].0, 4);
}
