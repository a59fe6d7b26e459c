//! The operation handlers.
//!
//! One function per mutating or listing operation of the HTTP surface. Each
//! takes the already-settled policy decision (the evaluator, plus the
//! shell's confirmation exchange where one was configured), performs the
//! operation against the store index and the hub, and returns the response
//! together with the exact deliveries to fan out. The shell around them
//! only parses requests, mirrors index changes onto disk, performs the
//! deliveries, and writes the response back.
use vstd::prelude::*;
use vstd::string::{StrSliceExecFns, StringExecFns, StringSliceAdditionalSpecFns};

use crate::hub::NotifyServer;
use crate::img::{clone_raster, image_decodes, mime_format_known, raster_hash, read_img,
    resize_image, save_img, spec_hash_prefix, Raster, SaveImageResult};
use crate::store::{seq_unique, spec_insert_img, spec_remove_img, ImgStore};
use crate::wire::{chat_event_json, dec_digits, image_event_json, json_u32_array, lit_into,
    lobby_deleted_json, room_deleted_json, str_bytes, success_json, system_notification_json,
    u32_array_json, u64_dec, upload_result_json, ChatMessageEvent, ImageProcessedEvent,
    LobbyDeletedEvent, RoomDeletedEvent, SystemNotificationEvent};
use crate::{ChannelId, ImgId, LobbyId, RoomId, SessionId};

verus! {

/// Width bound of the stored full variant.
pub const FULL_MAX_WIDTH: u32 = 4000;

/// Height bound of the stored full variant.
pub const FULL_MAX_HEIGHT: u32 = 2000;

/// Width bound of the stored thumbnail.
pub const THUMB_MAX_WIDTH: u32 = 600;

/// Height bound of the stored thumbnail.
pub const THUMB_MAX_HEIGHT: u32 = 200;

/// Status of a handler's response.
pub enum ApiStatus {
    Success,
    BadRequest,
    Forbidden,
    NotFound,
    NoContent,
    InternalServerError,
}

impl ApiStatus {
    pub open spec fn spec_code(self) -> u16 {
        match self {
            ApiStatus::Success => 200,
            ApiStatus::BadRequest => 400,
            ApiStatus::Forbidden => 403,
            ApiStatus::NotFound => 404,
            ApiStatus::NoContent => 204,
            ApiStatus::InternalServerError => 500,
        }
    }

    /// The HTTP status code this response carries.
    pub fn code(&self) -> (r: u16)
        ensures
            r == self.spec_code(),
    {
        match self {
            ApiStatus::Success => 200,
            ApiStatus::BadRequest => 400,
            ApiStatus::Forbidden => 403,
            ApiStatus::NotFound => 404,
            ApiStatus::NoContent => 204,
            ApiStatus::InternalServerError => 500,
        }
    }
}

/// A handler's response: the status and the body bytes to write back.
pub struct ApiResponse {
    pub status: ApiStatus,
    pub body: Vec<u8>,
}

/// The body of `POST /chat`.
pub struct ChatMessageRequest {
    pub lobby_id: LobbyId,
    pub msg: String,
}

/// The body of a successful upload response.
pub struct UploadResult {
    pub img_id: ImgId,
}

impl UploadResult {
    pub fn to_json(&self) -> (r: Vec<u8>)
        ensures
            r@ == upload_result_json(self.img_id),
    {
        let mut out: Vec<u8> = Vec::new();
        lit_into(&mut out, "{\"img_id\":");
        let mut n = u64_dec(self.img_id as u64);
        out.append(&mut n);
        lit_into(&mut out, "}");
        out
    }
}

/// The body of a plain success response.
pub struct Success;

impl Success {
    pub fn to_json(&self) -> (r: Vec<u8>)
        ensures
            r@ == success_json(),
    {
        let mut out: Vec<u8> = Vec::new();
        lit_into(&mut out, "null");
        out
    }
}

fn string_bytes(s: &String) -> (r: Vec<u8>)
    ensures
        r@ == str_bytes(s@),
{
    s.as_str().as_bytes_vec()
}

fn static_bytes(s: &str) -> (r: Vec<u8>)
    ensures
        r@ == str_bytes(s@),
{
    s.as_bytes_vec()
}

/// The deliveries fan an identical payload out to every member of the
/// lobby, each on its own registered channel, in membership order.
pub open spec fn fanout_ok(
    hub: NotifyServer,
    lobby_id: LobbyId,
    msg: Seq<u8>,
    ds: Seq<(ChannelId, Vec<u8>)>,
) -> bool {
    &&& ds.len() == hub.members(lobby_id).len()
    &&& forall|i: int|
        0 <= i < ds.len() ==> hub.sessions_map().dom().contains(hub.members(lobby_id)[i])
            && #[trigger] ds[i].0 == hub.sessions_map()[hub.members(lobby_id)[i]] && ds[i].1@
            == msg
}

/// `GET /list/{lobby}`: the rooms that currently exist under a lobby.
pub fn get_room_list(store: &ImgStore, policy: Result<(), String>, lobby_id: LobbyId) -> (r:
    ApiResponse)
    requires
        store.wf(),
    ensures
        policy matches Err(m) ==> (r.status is Forbidden && r.body@ == str_bytes(m@)),
        policy is Ok ==> r.status is Success && exists|rooms: Seq<u32>|
            {
                &&& #[trigger] json_u32_array(rooms) == r.body@
                &&& seq_unique(rooms)
                &&& forall|room: u32|
                    rooms.contains(room) <==> store@.dom().contains((lobby_id, room))
            },
{
    match policy {
        Err(m) => ApiResponse { status: ApiStatus::Forbidden, body: string_bytes(&m) },
        Ok(()) => {
            let rooms = store.room_list(lobby_id);
            let body = u32_array_json(&rooms);
            ApiResponse { status: ApiStatus::Success, body }
        },
    }
}

/// `GET /list/{lobby}/{room}`: the image ids of a room, newest first.
pub fn get_room_img_list(
    store: &ImgStore,
    policy: Result<(), String>,
    lobby_id: LobbyId,
    room_id: RoomId,
) -> (r: ApiResponse)
    requires
        store.wf(),
    ensures
        policy matches Err(m) ==> (r.status is Forbidden && r.body@ == str_bytes(m@)),
        policy is Ok ==> r.status is Success && r.body@ == json_u32_array(
            if store@.dom().contains((lobby_id, room_id)) {
                store@[(lobby_id, room_id)]
            } else {
                Seq::<u32>::empty()
            },
        ),
{
    match policy {
        Err(m) => ApiResponse { status: ApiStatus::Forbidden, body: string_bytes(&m) },
        Ok(()) => {
            let imgs = store.img_list(lobby_id, room_id);
            let body = u32_array_json(&imgs);
            ApiResponse { status: ApiStatus::Success, body }
        },
    }
}

/// What the shell found when it tried to read a stored image file.
pub enum ImgReadOutcome {
    Found(Vec<u8>),
    Missing,
    Unreadable,
}

/// `GET /img/...`: turns the policy decision and the file-read outcome into
/// the response: the bytes, a not-found, or the corrupt-file notice.
pub fn get_img(policy: Result<(), String>, read: ImgReadOutcome) -> (r: ApiResponse)
    ensures
        policy matches Err(m) ==> (r.status is Forbidden && r.body@ == str_bytes(m@)),
        policy is Ok ==> match read {
            ImgReadOutcome::Found(b) => r.status is Success && r.body@ == b@,
            ImgReadOutcome::Missing => r.status is NotFound && r.body@ == str_bytes(
                "Picture not found"@,
            ),
            ImgReadOutcome::Unreadable => r.status is NoContent && r.body@ == str_bytes(
                "Picture file corrupt"@,
            ),
        },
{
    match policy {
        Err(m) => ApiResponse { status: ApiStatus::Forbidden, body: string_bytes(&m) },
        Ok(()) => match read {
            ImgReadOutcome::Found(b) => ApiResponse { status: ApiStatus::Success, body: b },
            ImgReadOutcome::Missing => ApiResponse {
                status: ApiStatus::NotFound,
                body: static_bytes("Picture not found"),
            },
            ImgReadOutcome::Unreadable => ApiResponse {
                status: ApiStatus::NoContent,
                body: static_bytes("Picture file corrupt"),
            },
        },
    }
}

/// An upload that stored new content: the identifier and the two bounded
/// variants for the shell to encode and persist.
pub struct StoredUpload {
    pub img_id: ImgId,
    pub full: Raster,
    pub thumb: Raster,
}

/// Everything an upload decides: the response, the fan-out, and what to
/// persist.
pub struct UploadOutcome {
    pub response: ApiResponse,
    pub deliveries: Vec<(ChannelId, Vec<u8>)>,
    pub stored: Option<StoredUpload>,
}

/// `POST /upload/{lobby}/{room}`: validates, decodes, bounds both variants,
/// derives the content id and records it — the dedup fast path answers with
/// the existing id and touches nothing. Only a newly stored image is
/// announced to the lobby.
pub fn upload_img(
    store: &mut ImgStore,
    hub: &NotifyServer,
    max_image_size_byte: usize,
    policy: Result<(), String>,
    lobby_id: LobbyId,
    room_id: RoomId,
    file_size: usize,
    bytes: &Vec<u8>,
    mime: Option<&String>,
) -> (r: UploadOutcome)
    requires
        old(store).wf(),
        hub.wf(),
    ensures
        final(store).wf(),
        r.response.status is Success || r.response.status is BadRequest || r.response.status
            is Forbidden,
        !(r.response.status is Success) ==> final(store)@ == old(store)@ && r.deliveries@.len()
            == 0 && r.stored is None,
        policy matches Err(m) ==> (r.response.status is Forbidden && r.response.body@
            == str_bytes(m@)),
        policy is Ok && file_size == 0 ==> r.response.status is BadRequest && r.response.body@
            == str_bytes("Empty image"@),
        policy is Ok && file_size > max_image_size_byte ==> r.response.status is BadRequest
            && r.response.body@ == str_bytes("The uploaded file is too large. Maximum size is "@)
            + dec_digits(max_image_size_byte as nat) + str_bytes(" bytes."@),
        policy is Ok && 0 < file_size <= max_image_size_byte && mime is None ==> r.response.status
            is BadRequest && r.response.body@ == str_bytes("Can't read image format"@),
        policy is Ok && 0 < file_size <= max_image_size_byte ==> ((mime matches Some(m)
            && !mime_format_known(m@)) ==> (r.response.status is BadRequest && r.response.body@
            == str_bytes("Unknown image format"@))),
        policy is Ok && 0 < file_size <= max_image_size_byte ==> ((mime matches Some(m)
            && mime_format_known(m@) && image_decodes(bytes@, m@)) ==> r.response.status
            is Success),
        r.response.status is Success ==> policy is Ok && exists|id: ImgId|
            {
                &&& #[trigger] upload_result_json(id) == r.response.body@
                &&& match r.stored {
                    Some(s) => {
                        &&& s.img_id == id
                        &&& id as int == spec_hash_prefix(raster_hash(s.full))
                        &&& !old(store).spec_has_img(lobby_id, room_id, id)
                        &&& final(store)@ == spec_insert_img(old(store)@, lobby_id, room_id, id)
                        &&& final(store).spec_has_img(lobby_id, room_id, id)
                        &&& s.full.spec_width() <= FULL_MAX_WIDTH && s.full.spec_height()
                            <= FULL_MAX_HEIGHT || s.full.spec_width() == 0 || s.full.spec_height()
                            == 0
                        &&& s.thumb.spec_width() <= THUMB_MAX_WIDTH && s.thumb.spec_height()
                            <= THUMB_MAX_HEIGHT || s.thumb.spec_width() == 0
                            || s.thumb.spec_height() == 0
                        &&& fanout_ok(
                            *hub,
                            lobby_id,
                            image_event_json("ImageUploaded"@, room_id, id),
                            r.deliveries@,
                        )
                    },
                    None => {
                        &&& old(store).spec_has_img(lobby_id, room_id, id)
                        &&& final(store)@ == old(store)@
                        &&& r.deliveries@.len() == 0
                    },
                }
            },
{
    match policy {
        Err(m) => {
            return UploadOutcome {
                response: ApiResponse { status: ApiStatus::Forbidden, body: string_bytes(&m) },
                deliveries: Vec::new(),
                stored: None,
            };
        },
        Ok(()) => {},
    }
    if file_size == 0 {
        return UploadOutcome {
            response: ApiResponse { status: ApiStatus::BadRequest, body: static_bytes(
                "Empty image",
            ) },
            deliveries: Vec::new(),
            stored: None,
        };
    }
    if file_size > max_image_size_byte {
        let mut body = static_bytes("The uploaded file is too large. Maximum size is ");
        let mut n = u64_dec(max_image_size_byte as u64);
        body.append(&mut n);
        lit_into(&mut body, " bytes.");
        return UploadOutcome {
            response: ApiResponse { status: ApiStatus::BadRequest, body },
            deliveries: Vec::new(),
            stored: None,
        };
    }
    let img = match read_img(bytes, mime) {
        Err(err_msg) => {
            return UploadOutcome {
                response: ApiResponse { status: ApiStatus::BadRequest, body: static_bytes(
                    err_msg,
                ) },
                deliveries: Vec::new(),
                stored: None,
            };
        },
        Ok(img) => img,
    };
    let img_copy = clone_raster(&img);
    let full = resize_image(img, FULL_MAX_WIDTH, FULL_MAX_HEIGHT);
    let thumb = resize_image(img_copy, THUMB_MAX_WIDTH, THUMB_MAX_HEIGHT);
    match save_img(store, &full, lobby_id, room_id) {
        SaveImageResult::ImageAlreadyExists(img_id) => {
            let body = UploadResult { img_id }.to_json();
            let out = UploadOutcome {
                response: ApiResponse { status: ApiStatus::Success, body },
                deliveries: Vec::new(),
                stored: None,
            };
            proof {
                assert(upload_result_json(img_id) == out.response.body@);
            }
            out
        },
        SaveImageResult::Saved(img_id) => {
            let ev = ImageProcessedEvent {
                event: String::from_str("ImageUploaded"),
                room_id,
                img_id,
            };
            let msg = ev.to_output_json();
            let deliveries = hub.send_msg_to_lobby(lobby_id, &msg);
            let body = UploadResult { img_id }.to_json();
            let out = UploadOutcome {
                response: ApiResponse { status: ApiStatus::Success, body },
                deliveries,
                stored: Some(StoredUpload { img_id, full, thumb }),
            };
            proof {
                hub.lemma_membership_invariant();
                assert(upload_result_json(img_id) == out.response.body@);
                assert(fanout_ok(
                    *hub,
                    lobby_id,
                    image_event_json("ImageUploaded"@, room_id, img_id),
                    out.deliveries@,
                ));
            }
            out
        },
        SaveImageResult::Failed(m) => {
            proof {
                assert(false);
            }
            UploadOutcome {
                response: ApiResponse {
                    status: ApiStatus::InternalServerError,
                    body: string_bytes(&m),
                },
                deliveries: Vec::new(),
                stored: None,
            }
        },
    }
}

/// `POST /delete/{lobby}/{room}/{img}`: forgets one image and announces it.
/// Deleting an id that is not there is not an error — the operation is
/// idempotent and still answers with success.
pub fn delete_img(
    store: &mut ImgStore,
    hub: &NotifyServer,
    policy: Result<(), String>,
    lobby_id: LobbyId,
    room_id: RoomId,
    img_id: ImgId,
) -> (r: (ApiResponse, Vec<(ChannelId, Vec<u8>)>))
    requires
        old(store).wf(),
        hub.wf(),
    ensures
        final(store).wf(),
        policy matches Err(m) ==> (r.0.status is Forbidden && r.0.body@ == str_bytes(m@)
            && final(store)@ == old(store)@ && r.1@.len() == 0),
        policy is Ok ==> {
            &&& r.0.status is Success
            &&& r.0.body@ == success_json()
            &&& final(store)@ == spec_remove_img(old(store)@, lobby_id, room_id, img_id)
            &&& !final(store).spec_has_img(lobby_id, room_id, img_id)
            &&& fanout_ok(
                *hub,
                lobby_id,
                image_event_json("ImageDeleted"@, room_id, img_id),
                r.1@,
            )
        },
{
    match policy {
        Err(m) => (
            ApiResponse { status: ApiStatus::Forbidden, body: string_bytes(&m) },
            Vec::new(),
        ),
        Ok(()) => {
            proof {
                hub.lemma_membership_invariant();
            }
            store.remove_img(lobby_id, room_id, img_id);
            let ev = ImageProcessedEvent {
                event: String::from_str("ImageDeleted"),
                room_id,
                img_id,
            };
            let msg = ev.to_output_json();
            let deliveries = hub.send_msg_to_lobby(lobby_id, &msg);
            (ApiResponse { status: ApiStatus::Success, body: Success.to_json() }, deliveries)
        },
    }
}

/// `POST /delete/{lobby}/{room}`: tears a room down, cascading over its
/// images, and announces it. Deleting a room that is not there is not an
/// error — the operation is idempotent and still answers with success and
/// the event; a genuine failure to remove durable files is the shell's to
/// report.
pub fn delete_room(
    store: &mut ImgStore,
    hub: &NotifyServer,
    policy: Result<(), String>,
    lobby_id: LobbyId,
    room_id: RoomId,
) -> (r: (ApiResponse, Vec<(ChannelId, Vec<u8>)>))
    requires
        old(store).wf(),
        hub.wf(),
    ensures
        final(store).wf(),
        policy matches Err(m) ==> (r.0.status is Forbidden && r.0.body@ == str_bytes(m@)
            && final(store)@ == old(store)@ && r.1@.len() == 0),
        policy is Ok ==> {
            &&& r.0.status is Success
            &&& r.0.body@ == success_json()
            &&& final(store)@ == old(store)@.remove((lobby_id, room_id))
            &&& !final(store)@.dom().contains((lobby_id, room_id))
            &&& fanout_ok(*hub, lobby_id, room_deleted_json("RoomDeleted"@, room_id), r.1@)
        },
{
    match policy {
        Err(m) => (
            ApiResponse { status: ApiStatus::Forbidden, body: string_bytes(&m) },
            Vec::new(),
        ),
        Ok(()) => {
            proof {
                hub.lemma_membership_invariant();
            }
            let _ = store.remove_room(lobby_id, room_id);
            let ev = RoomDeletedEvent::new(room_id);
            let msg = ev.to_output_json();
            let deliveries = hub.send_msg_to_lobby(lobby_id, &msg);
            (ApiResponse { status: ApiStatus::Success, body: Success.to_json() }, deliveries)
        },
    }
}

/// `POST /delete/{lobby}`: tears a whole lobby down, cascading over its
/// rooms and images, and announces it. Deleting a lobby that holds nothing
/// is not an error — the operation is idempotent and still answers with
/// success and the event; a genuine failure to remove durable files is the
/// shell's to report.
pub fn delete_lobby(
    store: &mut ImgStore,
    hub: &NotifyServer,
    policy: Result<(), String>,
    lobby_id: LobbyId,
) -> (r: (ApiResponse, Vec<(ChannelId, Vec<u8>)>))
    requires
        old(store).wf(),
        hub.wf(),
    ensures
        final(store).wf(),
        policy matches Err(m) ==> (r.0.status is Forbidden && r.0.body@ == str_bytes(m@)
            && final(store)@ == old(store)@ && r.1@.len() == 0),
        policy is Ok ==> {
            &&& r.0.status is Success
            &&& r.0.body@ == success_json()
            &&& final(store)@ == old(store)@.remove_keys(
                Set::new(|k: (LobbyId, RoomId)| k.0 == lobby_id),
            )
            &&& forall|room: RoomId| !final(store)@.dom().contains((lobby_id, room))
            &&& fanout_ok(*hub, lobby_id, lobby_deleted_json("LobbyDeleted"@), r.1@)
        },
{
    match policy {
        Err(m) => (
            ApiResponse { status: ApiStatus::Forbidden, body: string_bytes(&m) },
            Vec::new(),
        ),
        Ok(()) => {
            proof {
                hub.lemma_membership_invariant();
            }
            let _ = store.remove_lobby(lobby_id);
            let ev = LobbyDeletedEvent::new();
            let msg = ev.to_output_json();
            let deliveries = hub.send_msg_to_lobby(lobby_id, &msg);
            (ApiResponse { status: ApiStatus::Success, body: Success.to_json() }, deliveries)
        },
    }
}

/// `POST /chat`: fans a chat line out to the lobby.
pub fn send_chat_message(
    hub: &NotifyServer,
    policy: Result<(), String>,
    request: ChatMessageRequest,
) -> (r: (ApiResponse, Vec<(ChannelId, Vec<u8>)>))
    requires
        hub.wf(),
    ensures
        policy matches Err(m) ==> (r.0.status is Forbidden && r.0.body@ == str_bytes(m@)
            && r.1@.len() == 0),
        policy is Ok ==> {
            &&& r.0.status is Success
            &&& r.0.body@ == success_json()
            &&& fanout_ok(
                *hub,
                request.lobby_id,
                chat_event_json("ChatMessage"@, "User"@, request.msg@),
                r.1@,
            )
        },
{
    match policy {
        Err(m) => (
            ApiResponse { status: ApiStatus::Forbidden, body: string_bytes(&m) },
            Vec::new(),
        ),
        Ok(()) => {
            proof {
                hub.lemma_membership_invariant();
            }
            let ev = ChatMessageEvent::new(String::from_str("User"), request.msg);
            let msg = ev.to_output_json();
            let deliveries = hub.send_msg_to_lobby(request.lobby_id, &msg);
            (ApiResponse { status: ApiStatus::Success, body: Success.to_json() }, deliveries)
        },
    }
}

/// The moderation authority's verdict on one upload, as the shell obtained
/// it: the parsed boolean, or the text of a transport or parse failure.
pub type ModerationVerdict = Result<bool, String>;

/// After-upload moderation: only an explicit rejection acts — the stored
/// pair is removed, the lobby is told, and the uploader (when known, still
/// connected, and a warning text is configured) gets a direct warning.
/// An approval, an unreachable authority or an unparseable reply all leave
/// the upload in place: moderation fails open.
pub fn moderation_verdict(
    store: &mut ImgStore,
    hub: &NotifyServer,
    verdict: ModerationVerdict,
    lobby_id: LobbyId,
    room_id: RoomId,
    img_id: ImgId,
    uploader_id: Option<SessionId>,
    not_allowed_msg: Option<&String>,
) -> (r: Vec<(ChannelId, Vec<u8>)>)
    requires
        old(store).wf(),
        hub.wf(),
    ensures
        final(store).wf(),
        !(verdict == Result::<bool, String>::Ok(false)) ==> final(store)@ == old(store)@ && r@.len()
            == 0,
        verdict == Result::<bool, String>::Ok(false) ==> ({
            let n = hub.members(lobby_id).len() as int;
            &&& final(store)@ == spec_remove_img(old(store)@, lobby_id, room_id, img_id)
            &&& !final(store).spec_has_img(lobby_id, room_id, img_id)
            &&& fanout_ok(
                *hub,
                lobby_id,
                image_event_json("ImageDeleted"@, room_id, img_id),
                r@.take(n),
            )
            &&& match (uploader_id, not_allowed_msg) {
                (Some(u), Some(m)) => {
                    if hub.sessions_map().dom().contains(u) {
                        &&& r@.len() == n + 1
                        &&& r@[n].0 == hub.sessions_map()[u]
                        &&& r@[n].1@ == system_notification_json(
                            "SystemNotification"@,
                            m@,
                            "Warning"@,
                        )
                    } else {
                        r@.len() == n
                    }
                },
                _ => r@.len() == n,
            }
        }),
{
    let rejected = match &verdict {
        Ok(allowed) => !*allowed,
        Err(_) => false,
    };
    if !rejected {
        return Vec::new();
    }
    proof {
        hub.lemma_membership_invariant();
    }
    store.remove_img(lobby_id, room_id, img_id);
    let ev = ImageProcessedEvent { event: String::from_str("ImageDeleted"), room_id, img_id };
    let msg = ev.to_output_json();
    let mut deliveries = hub.send_msg_to_lobby(lobby_id, &msg);
    let ghost n = hub.members(lobby_id).len() as int;
    match (uploader_id, not_allowed_msg) {
        (Some(u), Some(m)) => {
            let notice = SystemNotificationEvent::new_warning(m.clone());
            let notice_msg = notice.to_output_json();
            match hub.send_msg_to_user(u, &notice_msg) {
                Some(d) => {
                    deliveries.push(d);
                    proof {
                        assert(deliveries@.take(n) =~= deliveries@.drop_last());
                    }
                },
                None => {},
            }
        },
        _ => {},
    }
    proof {
        if deliveries@.len() == n {
            assert(deliveries@.take(n) =~= deliveries@);
        }
    }
    deliveries
}

} // verus!
