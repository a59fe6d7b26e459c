//! The ingestion pipeline end to end: dedup, size bounds, moderation
//! rollback, and the delete operations.
use wim_core::api::{delete_img, delete_lobby, delete_room, get_img, get_room_img_list,
    get_room_list, moderation_verdict, send_chat_message, upload_img, ChatMessageRequest,
    ImgReadOutcome, UploadOutcome};
use wim_core::hub::NotifyServer;
use wim_core::img::{hash_to_u32, img_id_to_filename, read_img, resize_image};
use wim_core::store::ImgStore;

const LOBBY: u128 = 0x123e4567e89b12d3a456426614174000;
const ROOM: u32 = 5;
const MAX_BYTES: usize = 20 * 1024 * 1024;

fn encode(w: u32, h: u32, format: image::ImageFormat, seed: u8) -> Vec<u8> {
    let img = image::RgbImage::from_fn(w, h, |x, y| {
        image::Rgb([
            (x.wrapping_mul(7).wrapping_add(seed as u32) % 256) as u8,
            (y % 256) as u8,
            seed,
        ])
    });
    let dynimg = image::DynamicImage::ImageRgb8(img);
    let mut buf = std::io::Cursor::new(Vec::new());
    dynimg.write_to(&mut buf, format).unwrap();
    buf.into_inner()
}

fn upload(
    store: &mut ImgStore,
    hub: &NotifyServer,
    bytes: &Vec<u8>,
    mime: &str,
) -> UploadOutcome {
    let m = String::from(mime);
    upload_img(
        store,
        hub,
        MAX_BYTES,
        Ok(()),
        LOBBY,
        ROOM,
        bytes.len(),
        bytes,
        Some(&m),
    )
}

#[test]
fn upload_scenario_with_dedup() {
    // upload an oversized JPEG: accepted, bounded to the configured box,
    // byte-identical content yields the same id without a second entry
    let mut store = ImgStore::new();
    let mut hub = NotifyServer::new();
    hub.connect(1, LOBBY, 42);
    let bytes = encode(500, 2200, image::ImageFormat::Jpeg, 3);

    let first = upload(&mut store, &hub, &bytes, "image/jpeg");
    assert_eq!(first.response.status.code(), 200);
    let stored = first.stored.expect("first upload stores content");
    let x = stored.img_id;
    assert_eq!(
        first.response.body,
        format!("{{\"img_id\":{}}}", x).into_bytes()
    );
    // both dimensions within the bound, aspect ratio preserved:
    // 500x2200 fitted into 4000x2000 is 455x2000, the thumbnail 45x200
    assert_eq!((stored.full.width(), stored.full.height()), (455, 2000));
    assert_eq!((stored.thumb.width(), stored.thumb.height()), (45, 200));
    // the upload was announced to the lobby member
    assert_eq!(first.deliveries.len(), 1);
    assert_eq!(first.deliveries[0].0, 42);
    assert_eq!(
        first.deliveries[0].1,
        format!(
            "{{\"event\":\"ImageUploaded\",\"room_id\":{},\"img_id\":{}}}",
            ROOM, x
        )
        .into_bytes()
    );

    let listing = get_room_img_list(&store, Ok(()), LOBBY, ROOM);
    assert_eq!(listing.status.code(), 200);
    assert_eq!(listing.body, format!("[{}]", x).into_bytes());

    let rooms = get_room_list(&store, Ok(()), LOBBY);
    assert_eq!(rooms.body, format!("[{}]", ROOM).into_bytes());

    // dedup: same bytes again return the same id, store nothing new, and
    // announce nothing
    let second = upload(&mut store, &hub, &bytes, "image/jpeg");
    assert_eq!(second.response.status.code(), 200);
    assert!(second.stored.is_none());
    assert_eq!(
        second.response.body,
        format!("{{\"img_id\":{}}}", x).into_bytes()
    );
    assert!(second.deliveries.is_empty());
    let listing = get_room_img_list(&store, Ok(()), LOBBY, ROOM);
    assert_eq!(listing.body, format!("[{}]", x).into_bytes());
}

#[test]
fn distinct_content_gets_distinct_ids() {
    let mut store = ImgStore::new();
    let hub = NotifyServer::new();
    // visually different patterns: half-black/half-white split along each axis
    let a = {
        let img = image::RgbImage::from_fn(64, 32, |x, _| {
            if x < 32 { image::Rgb([0, 0, 0]) } else { image::Rgb([255, 255, 255]) }
        });
        let mut buf = std::io::Cursor::new(Vec::new());
        image::DynamicImage::ImageRgb8(img)
            .write_to(&mut buf, image::ImageFormat::Png)
            .unwrap();
        buf.into_inner()
    };
    let b = {
        let img = image::RgbImage::from_fn(64, 32, |_, y| {
            if y < 16 { image::Rgb([0, 0, 0]) } else { image::Rgb([255, 255, 255]) }
        });
        let mut buf = std::io::Cursor::new(Vec::new());
        image::DynamicImage::ImageRgb8(img)
            .write_to(&mut buf, image::ImageFormat::Png)
            .unwrap();
        buf.into_inner()
    };
    let ra = upload(&mut store, &hub, &a, "image/png");
    let rb = upload(&mut store, &hub, &b, "image/png");
    let ia = ra.stored.expect("stored").img_id;
    let ib = rb.stored.expect("stored").img_id;
    assert_ne!(ia, ib);
    let listing = get_room_img_list(&store, Ok(()), LOBBY, ROOM);
    // newest first
    assert_eq!(listing.body, format!("[{},{}]", ib, ia).into_bytes());
}

#[test]
fn small_image_is_stored_unchanged() {
    let mut store = ImgStore::new();
    let hub = NotifyServer::new();
    let bytes = encode(320, 200, image::ImageFormat::Png, 9);
    let r = upload(&mut store, &hub, &bytes, "image/png");
    let stored = r.stored.expect("stored");
    assert_eq!((stored.full.width(), stored.full.height()), (320, 200));
    // the thumbnail bound is 600x200, so this one passes through too
    assert_eq!((stored.thumb.width(), stored.thumb.height()), (320, 200));
}

#[test]
fn resize_bounds_and_aspect() {
    let bytes = encode(100, 50, image::ImageFormat::Png, 1);
    let img = read_img(&bytes, Some(&String::from("image/png"))).unwrap();
    assert_eq!((img.width(), img.height()), (100, 50));
    let r = resize_image(img, 10, 10);
    assert_eq!((r.width(), r.height()), (10, 5));

    let bytes = encode(500, 2500, image::ImageFormat::Png, 2);
    let img = read_img(&bytes, Some(&String::from("image/png"))).unwrap();
    let r = resize_image(img, 4000, 2000);
    assert_eq!((r.width(), r.height()), (400, 2000));
}

#[test]
fn upload_rejections() {
    let mut store = ImgStore::new();
    let hub = NotifyServer::new();
    let bytes = encode(16, 16, image::ImageFormat::Png, 4);
    let mime = String::from("image/png");

    // policy denial
    let r = upload_img(
        &mut store,
        &hub,
        MAX_BYTES,
        Err(String::from("Access denied")),
        LOBBY,
        ROOM,
        bytes.len(),
        &bytes,
        Some(&mime),
    );
    assert_eq!(r.response.status.code(), 403);
    assert_eq!(r.response.body, b"Access denied".to_vec());

    // empty upload
    let empty: Vec<u8> = Vec::new();
    let r = upload_img(
        &mut store, &hub, MAX_BYTES, Ok(()), LOBBY, ROOM, 0, &empty, Some(&mime),
    );
    assert_eq!(r.response.status.code(), 400);
    assert_eq!(r.response.body, b"Empty image".to_vec());

    // oversized upload
    let r = upload_img(
        &mut store,
        &hub,
        100,
        Ok(()),
        LOBBY,
        ROOM,
        bytes.len(),
        &bytes,
        Some(&mime),
    );
    assert_eq!(r.response.status.code(), 400);
    assert_eq!(
        r.response.body,
        b"The uploaded file is too large. Maximum size is 100 bytes.".to_vec()
    );

    // missing content type
    let r = upload_img(
        &mut store, &hub, MAX_BYTES, Ok(()), LOBBY, ROOM, bytes.len(), &bytes, None,
    );
    assert_eq!(r.response.status.code(), 400);
    assert_eq!(r.response.body, b"Can't read image format".to_vec());

    // unknown content type
    let odd = String::from("application/x-unknown");
    let r = upload_img(
        &mut store,
        &hub,
        MAX_BYTES,
        Ok(()),
        LOBBY,
        ROOM,
        bytes.len(),
        &bytes,
        Some(&odd),
    );
    assert_eq!(r.response.status.code(), 400);
    assert_eq!(r.response.body, b"Unknown image format".to_vec());

    // undecodable bytes under a valid type
    let garbage = b"not an image at all".to_vec();
    let r = upload_img(
        &mut store,
        &hub,
        MAX_BYTES,
        Ok(()),
        LOBBY,
        ROOM,
        garbage.len(),
        &garbage,
        Some(&mime),
    );
    assert_eq!(r.response.status.code(), 400);
    assert_eq!(r.response.body, b"Image corrupt".to_vec());

    // none of the rejections stored anything
    let listing = get_room_img_list(&store, Ok(()), LOBBY, ROOM);
    assert_eq!(listing.body, b"[]".to_vec());
}

#[test]
fn delete_img_is_idempotent() {
    let mut store = ImgStore::new();
    let hub = NotifyServer::new();
    // deleting an id that was never stored still answers success
    let (resp, deliveries) = delete_img(&mut store, &hub, Ok(()), LOBBY, ROOM, 999);
    assert_eq!(resp.status.code(), 200);
    assert_eq!(resp.body, b"null".to_vec());
    assert!(deliveries.is_empty());
}

#[test]
fn delete_img_removes_and_announces() {
    let mut store = ImgStore::new();
    let mut hub = NotifyServer::new();
    hub.connect(7, LOBBY, 70);
    let bytes = encode(16, 16, image::ImageFormat::Png, 5);
    let x = upload(&mut store, &hub, &bytes, "image/png").stored.unwrap().img_id;
    let (resp, deliveries) = delete_img(&mut store, &hub, Ok(()), LOBBY, ROOM, x);
    assert_eq!(resp.status.code(), 200);
    assert_eq!(deliveries.len(), 1);
    assert_eq!(
        deliveries[0].1,
        format!(
            "{{\"event\":\"ImageDeleted\",\"room_id\":{},\"img_id\":{}}}",
            ROOM, x
        )
        .into_bytes()
    );
    let listing = get_room_img_list(&store, Ok(()), LOBBY, ROOM);
    assert_eq!(listing.body, b"[]".to_vec());
}

#[test]
fn delete_room_and_lobby() {
    let mut store = ImgStore::new();
    let mut hub = NotifyServer::new();
    hub.connect(7, LOBBY, 70);
    let bytes = encode(16, 16, image::ImageFormat::Png, 6);
    upload(&mut store, &hub, &bytes, "image/png");

    // deleting a room that is not there is idempotent: success, and the
    // event is still announced
    let (resp, ds) = delete_room(&mut store, &hub, Ok(()), LOBBY, ROOM + 1);
    assert_eq!(resp.status.code(), 200);
    assert_eq!(resp.body, b"null".to_vec());
    assert_eq!(ds.len(), 1);

    let (resp, ds) = delete_room(&mut store, &hub, Ok(()), LOBBY, ROOM);
    assert_eq!(resp.status.code(), 200);
    assert_eq!(ds.len(), 1);
    assert_eq!(
        ds[0].1,
        format!("{{\"event\":\"RoomDeleted\",\"room_id\":{}}}", ROOM).into_bytes()
    );
    assert_eq!(get_room_list(&store, Ok(()), LOBBY).body, b"[]".to_vec());

    // deleting the now-empty lobby is idempotent too
    let (resp, ds) = delete_lobby(&mut store, &hub, Ok(()), LOBBY);
    assert_eq!(resp.status.code(), 200);
    assert_eq!(resp.body, b"null".to_vec());
    assert_eq!(ds.len(), 1);

    // refill two rooms and cascade
    upload(&mut store, &hub, &bytes, "image/png");
    let m = String::from("image/png");
    upload_img(
        &mut store,
        &hub,
        MAX_BYTES,
        Ok(()),
        LOBBY,
        ROOM + 1,
        bytes.len(),
        &bytes,
        Some(&m),
    );
    let (resp, ds) = delete_lobby(&mut store, &hub, Ok(()), LOBBY);
    assert_eq!(resp.status.code(), 200);
    assert_eq!(ds.len(), 1);
    assert_eq!(ds[0].1, b"{\"event\":\"LobbyDeleted\"}".to_vec());
    assert_eq!(get_room_list(&store, Ok(()), LOBBY).body, b"[]".to_vec());
}

#[test]
fn moderation_rollback() {
    let mut store = ImgStore::new();
    let mut hub = NotifyServer::new();
    let uploader: u128 = 0xcafe;
    hub.connect(uploader, LOBBY, 1);
    hub.connect(0xbeef, LOBBY, 2);
    let bytes = encode(24, 24, image::ImageFormat::Png, 7);
    let x = upload(&mut store, &hub, &bytes, "image/png").stored.unwrap().img_id;

    let warn = String::from("picture removed");
    let ds = moderation_verdict(
        &mut store,
        &hub,
        Ok(false),
        LOBBY,
        ROOM,
        x,
        Some(uploader),
        Some(&warn),
    );
    // the image is gone afterwards
    let listing = get_room_img_list(&store, Ok(()), LOBBY, ROOM);
    assert_eq!(listing.body, b"[]".to_vec());
    // the lobby heard about the deletion, and the uploader got the warning
    assert_eq!(ds.len(), 3);
    assert_eq!(
        ds[0].1,
        format!(
            "{{\"event\":\"ImageDeleted\",\"room_id\":{},\"img_id\":{}}}",
            ROOM, x
        )
        .into_bytes()
    );
    assert_eq!(ds[2].0, 1);
    assert_eq!(
        ds[2].1,
        b"{\"event\":\"SystemNotification\",\"msg\":\"picture removed\",\"msg_type\":\"Warning\"}"
            .to_vec()
    );
}

#[test]
fn moderation_failure_and_approval_leave_the_upload() {
    let mut store = ImgStore::new();
    let hub = NotifyServer::new();
    let bytes = encode(24, 24, image::ImageFormat::Png, 8);
    let x = upload(&mut store, &hub, &bytes, "image/png").stored.unwrap().img_id;

    let ds = moderation_verdict(&mut store, &hub, Ok(true), LOBBY, ROOM, x, None, None);
    assert!(ds.is_empty());
    let ds = moderation_verdict(
        &mut store,
        &hub,
        Err(String::from("authority unreachable")),
        LOBBY,
        ROOM,
        x,
        None,
        None,
    );
    assert!(ds.is_empty());
    let listing = get_room_img_list(&store, Ok(()), LOBBY, ROOM);
    assert_eq!(listing.body, format!("[{}]", x).into_bytes());
}

#[test]
fn chat_fans_out() {
    let mut hub = NotifyServer::new();
    hub.connect(1, LOBBY, 5);
    hub.connect(2, LOBBY, 6);
    let req = ChatMessageRequest { lobby_id: LOBBY, msg: String::from("hi there") };
    let (resp, ds) = send_chat_message(&hub, Ok(()), req);
    assert_eq!(resp.status.code(), 200);
    assert_eq!(resp.body, b"null".to_vec());
    assert_eq!(ds.len(), 2);
    assert_eq!(
        ds[0].1,
        b"{\"event\":\"ChatMessage\",\"username\":\"User\",\"msg\":\"hi there\"}".to_vec()
    );
}

#[test]
fn get_img_maps_read_outcomes() {
    let r = get_img(Ok(()), ImgReadOutcome::Found(b"bytes".to_vec()));
    assert_eq!(r.status.code(), 200);
    assert_eq!(r.body, b"bytes".to_vec());
    let r = get_img(Ok(()), ImgReadOutcome::Missing);
    assert_eq!(r.status.code(), 404);
    assert_eq!(r.body, b"Picture not found".to_vec());
    let r = get_img(Ok(()), ImgReadOutcome::Unreadable);
    assert_eq!(r.status.code(), 204);
    let r = get_img(Err(String::from("no")), ImgReadOutcome::Missing);
    assert_eq!(r.status.code(), 403);
}

#[test]
fn id_derivation_and_filename() {
    assert_eq!(hash_to_u32(&vec![0x12, 0x34, 0x56, 0x78]), 0x78563412);
    assert_eq!(hash_to_u32(&vec![0xff]), 255);
    assert_eq!(hash_to_u32(&vec![]), 0);
    assert_eq!(
        hash_to_u32(&vec![1, 2, 3, 4, 5, 6]),
        0x04030201,
        "only the first four bytes count"
    );
    assert_eq!(img_id_to_filename(42), b"42.webp".to_vec());
    assert_eq!(img_id_to_filename(0), b"0.webp".to_vec());
}
