//! Exact wire bytes of identifiers, escaping and events.
use wim_core::wire::{u128_uuid, u32_array_json, u64_dec, ChatMessageEvent, ConnectEvent,
    ImageProcessedEvent, LobbyDeletedEvent, RoomDeletedEvent, SystemNotificationEvent};

#[test]
fn decimal_rendering() {
    assert_eq!(u64_dec(0), b"0".to_vec());
    assert_eq!(u64_dec(7), b"7".to_vec());
    assert_eq!(u64_dec(4294967295), b"4294967295".to_vec());
    assert_eq!(u64_dec(1002), b"1002".to_vec());
}

#[test]
fn uuid_rendering() {
    let v: u128 = 0x123e4567e89b12d3a456426614174000;
    assert_eq!(u128_uuid(v), b"123e4567-e89b-12d3-a456-426614174000".to_vec());
    assert_eq!(u128_uuid(0), b"00000000-0000-0000-0000-000000000000".to_vec());
    assert_eq!(
        u128_uuid(u128::MAX),
        b"ffffffff-ffff-ffff-ffff-ffffffffffff".to_vec()
    );
}

#[test]
fn uuid_matches_uuid_crate() {
    let v: u128 = 0x6ba7b8109dad11d180b400c04fd430c8;
    let expect = uuid::Uuid::from_u128(v).hyphenated().to_string();
    assert_eq!(u128_uuid(v), expect.into_bytes());
}

#[test]
fn array_rendering() {
    let empty: Vec<u32> = Vec::new();
    assert_eq!(u32_array_json(&empty), b"[]".to_vec());
    assert_eq!(u32_array_json(&vec![5]), b"[5]".to_vec());
    assert_eq!(u32_array_json(&vec![1, 22, 333]), b"[1,22,333]".to_vec());
}

#[test]
fn image_uploaded_event_json() {
    let ev = ImageProcessedEvent {
        event: String::from("ImageUploaded"),
        room_id: 3,
        img_id: 77,
    };
    assert_eq!(
        ev.to_output_json(),
        b"{\"event\":\"ImageUploaded\",\"room_id\":3,\"img_id\":77}".to_vec()
    );
}

#[test]
fn image_deleted_event_json() {
    let ev = ImageProcessedEvent {
        event: String::from("ImageDeleted"),
        room_id: 12,
        img_id: 4000000000,
    };
    assert_eq!(
        String::from_utf8(ev.to_output_json()).unwrap(),
        "{\"event\":\"ImageDeleted\",\"room_id\":12,\"img_id\":4000000000}"
    );
}

#[test]
fn room_and_lobby_events() {
    let ev = RoomDeletedEvent::new(9);
    assert_eq!(
        ev.to_output_json(),
        b"{\"event\":\"RoomDeleted\",\"room_id\":9}".to_vec()
    );
    let ev = LobbyDeletedEvent::new();
    assert_eq!(ev.to_output_json(), b"{\"event\":\"LobbyDeleted\"}".to_vec());
}

#[test]
fn connect_event() {
    let ev = ConnectEvent::new(0x123e4567e89b12d3a456426614174000);
    assert_eq!(
        ev.to_output_json(),
        b"{\"event\":\"Connected\",\"session_id\":\"123e4567-e89b-12d3-a456-426614174000\"}"
            .to_vec()
    );
}

#[test]
fn chat_event_escapes_json() {
    let ev = ChatMessageEvent::new(
        String::from("User"),
        String::from("a \"quoted\" line\nwith \\ and tab\t"),
    );
    assert_eq!(
        String::from_utf8(ev.to_output_json()).unwrap(),
        "{\"event\":\"ChatMessage\",\"username\":\"User\",\"msg\":\"a \\\"quoted\\\" line\\nwith \\\\ and tab\\t\"}"
    );
}

#[test]
fn chat_event_escapes_control_and_keeps_unicode() {
    let msg = "control \u{1} and unicode ä ☃";
    let ev = ChatMessageEvent::new(String::from("User"), String::from(msg));
    assert_eq!(
        String::from_utf8(ev.to_output_json()).unwrap(),
        "{\"event\":\"ChatMessage\",\"username\":\"User\",\"msg\":\"control \\u0001 and unicode ä ☃\"}"
    );
}

#[test]
fn system_notification_event() {
    let ev = SystemNotificationEvent::new_warning(String::from("not allowed"));
    assert_eq!(
        ev.to_output_json(),
        b"{\"event\":\"SystemNotification\",\"msg\":\"not allowed\",\"msg_type\":\"Warning\"}"
            .to_vec()
    );
}
