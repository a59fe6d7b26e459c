//! Wire format of the events that the notification hub delivers.
//!
//! Every event crosses the socket as one JSON object with a literal `event`
//! discriminator field followed by the kind-specific fields. The encoders
//! here produce the exact byte sequence that their specification functions
//! describe: decimal rendering of numeric identifiers, hyphenated
//! lowercase-hex rendering of 128-bit identifiers, and JSON string escaping
//! for free-form text.
use vstd::prelude::*;
use vstd::string::{StrSliceExecFns, StringSliceAdditionalSpecFns};

use crate::{ImgId, RoomId, SessionId};

verus! {

/// Decimal digits of `n`, most significant first, as ASCII bytes.
pub open spec fn dec_digits(n: nat) -> Seq<u8>
    decreases n,
{
    if n < 10 {
        seq![(48 + n) as u8]
    } else {
        dec_digits(n / 10).push((48 + n % 10) as u8)
    }
}

/// Renders `n` in decimal.
pub fn u64_dec(n: u64) -> (r: Vec<u8>)
    ensures
        r@ == dec_digits(n as nat),
    decreases n,
{
    if n < 10 {
        let mut v: Vec<u8> = Vec::new();
        v.push(48 + n as u8);
        assert(v@ =~= dec_digits(n as nat));
        v
    } else {
        let mut v = u64_dec(n / 10);
        v.push(48 + (n % 10) as u8);
        assert(v@ =~= dec_digits(n as nat));
        v
    }
}

/// Lowercase hex digit for a value below 16.
pub open spec fn hex_digit(d: nat) -> u8 {
    if d < 10 {
        (48 + d) as u8
    } else {
        (87 + d) as u8
    }
}

/// Byte at position `i` of the hyphenated identifier rendering: 32 hex
/// nibbles of `v`, most significant first, with hyphens at positions
/// 8, 13, 18 and 23.
pub open spec fn uuid_char_at(v: u128, i: int) -> u8 {
    if i == 8 || i == 13 || i == 18 || i == 23 {
        45u8
    } else {
        let nib = if i < 8 {
            i
        } else if i < 13 {
            i - 1
        } else if i < 18 {
            i - 2
        } else if i < 23 {
            i - 3
        } else {
            i - 4
        };
        hex_digit(((v >> ((4 * (31 - nib)) as u128)) & 0xf) as nat)
    }
}

/// The canonical 36-byte textual form of a 128-bit identifier.
pub open spec fn uuid_bytes(v: u128) -> Seq<u8> {
    Seq::new(36, |i: int| uuid_char_at(v, i))
}

fn hex_digit_exec(d: u8) -> (r: u8)
    requires
        d < 16,
    ensures
        r == hex_digit(d as nat),
{
    if d < 10 {
        48 + d
    } else {
        87 + d
    }
}

/// Renders a 128-bit identifier in its hyphenated textual form.
pub fn u128_uuid(v: u128) -> (r: Vec<u8>)
    ensures
        r@ == uuid_bytes(v),
{
    let mut out: Vec<u8> = Vec::new();
    let mut i: usize = 0;
    while i < 36
        invariant
            i <= 36,
            out@.len() == i,
            forall|j: int| 0 <= j < i ==> out@[j] == uuid_char_at(v, j),
        decreases 36 - i,
    {
        if i == 8 || i == 13 || i == 18 || i == 23 {
            out.push(45u8);
        } else {
            let nib: u32 = if i < 8 {
                i as u32
            } else if i < 13 {
                i as u32 - 1
            } else if i < 18 {
                i as u32 - 2
            } else if i < 23 {
                i as u32 - 3
            } else {
                i as u32 - 4
            };
            let d: u8 = ((v >> ((4 * (31 - nib)) as u128)) & 0xf) as u8;
            assert(d == ((v >> ((4 * (31 - nib as int)) as u128)) & 0xf)) by (bit_vector)
                requires
                    nib <= 31,
                    d == ((v >> ((4 * (31 - nib)) as u128)) & 0xf) as u8,
            ;
            assert((v >> ((4 * (31 - nib as int)) as u128)) & 0xf < 16) by (bit_vector);
            out.push(hex_digit_exec(d));
        }
        i += 1;
    }
    assert(out@ =~= uuid_bytes(v));
    out
}

/// JSON rendering of one byte of string content: quote and backslash get a
/// two-character escape, the named control characters get theirs, any other
/// control character becomes a `\u00..` escape, and everything else passes
/// through unchanged (multi-byte UTF-8 sequences are left as they are).
pub open spec fn escape_byte(b: u8) -> Seq<u8> {
    if b == 34 {
        seq![92u8, 34u8]
    } else if b == 92 {
        seq![92u8, 92u8]
    } else if b == 8 {
        seq![92u8, 98u8]
    } else if b == 9 {
        seq![92u8, 116u8]
    } else if b == 10 {
        seq![92u8, 110u8]
    } else if b == 12 {
        seq![92u8, 102u8]
    } else if b == 13 {
        seq![92u8, 114u8]
    } else if b < 32 {
        seq![92u8, 117u8, 48u8, 48u8, hex_digit((b / 16) as nat), hex_digit((b % 16) as nat)]
    } else {
        seq![b]
    }
}

/// JSON string-escaped form of a byte sequence.
pub open spec fn json_escaped(s: Seq<u8>) -> Seq<u8>
    decreases s.len(),
{
    if s.len() == 0 {
        Seq::empty()
    } else {
        escape_byte(s[0]) + json_escaped(s.drop_first())
    }
}

proof fn lemma_json_escaped_push(s: Seq<u8>, b: u8)
    ensures
        json_escaped(s.push(b)) == json_escaped(s) + escape_byte(b),
    decreases s.len(),
{
    if s.len() == 0 {
        assert(s.push(b)[0] == b);
        assert(s.push(b).drop_first() =~= Seq::<u8>::empty());
        assert(json_escaped(s.push(b)) == escape_byte(b) + json_escaped(Seq::<u8>::empty()));
        assert(json_escaped(s.push(b)) =~= json_escaped(s) + escape_byte(b));
    } else {
        assert(s.push(b).drop_first() =~= s.drop_first().push(b));
        lemma_json_escaped_push(s.drop_first(), b);
        assert(json_escaped(s.push(b)) =~= json_escaped(s) + escape_byte(b));
    }
}

fn escape_byte_into(out: &mut Vec<u8>, b: u8)
    ensures
        final(out)@ == old(out)@ + escape_byte(b),
{
    if b == 34 {
        out.push(92);
        out.push(34);
    } else if b == 92 {
        out.push(92);
        out.push(92);
    } else if b == 8 {
        out.push(92);
        out.push(98);
    } else if b == 9 {
        out.push(92);
        out.push(116);
    } else if b == 10 {
        out.push(92);
        out.push(110);
    } else if b == 12 {
        out.push(92);
        out.push(102);
    } else if b == 13 {
        out.push(92);
        out.push(114);
    } else if b < 32 {
        out.push(92);
        out.push(117);
        out.push(48);
        out.push(48);
        out.push(hex_digit_exec(b / 16));
        out.push(hex_digit_exec(b % 16));
    } else {
        out.push(b);
    }
    assert(final(out)@ =~= old(out)@ + escape_byte(b));
}

/// Appends the JSON-escaped UTF-8 bytes of `s` to `out`.
pub fn escape_json_into(out: &mut Vec<u8>, s: &str)
    ensures
        final(out)@ == old(out)@ + json_escaped(s.spec_bytes()),
{
    let bytes = s.as_bytes_vec();
    let mut i: usize = 0;
    while i < bytes.len()
        invariant
            i <= bytes@.len(),
            bytes@ == s.spec_bytes(),
            out@ == old(out)@ + json_escaped(bytes@.take(i as int)),
        decreases bytes@.len() - i,
    {
        proof {
            assert(bytes@.take(i + 1).drop_last() =~= bytes@.take(i as int));
            assert(bytes@.take(i + 1) =~= bytes@.take(i as int).push(bytes@[i as int]));
            lemma_json_escaped_push(bytes@.take(i as int), bytes@[i as int]);
        }
        escape_byte_into(out, bytes[i]);
        i += 1;
    }
    proof {
        assert(bytes@.take(bytes@.len() as int) =~= bytes@);
    }
}

/// Appends the UTF-8 bytes of a fragment of JSON punctuation or of a fixed
/// field name to `out`.
pub fn lit_into(out: &mut Vec<u8>, s: &str)
    ensures
        final(out)@ == old(out)@ + s.spec_bytes(),
{
    let mut bytes = s.as_bytes_vec();
    out.append(&mut bytes);
}

/// The escaped UTF-8 bytes of an owned string.
pub open spec fn escaped_str(s: Seq<char>) -> Seq<u8> {
    json_escaped(vstd::utf8::encode_utf8(s))
}

/// The raw UTF-8 bytes of a string, as a response body carries them.
pub open spec fn str_bytes(s: Seq<char>) -> Seq<u8> {
    vstd::utf8::encode_utf8(s)
}

/// `{"event":"<kind>","session_id":"<id>"}`
pub open spec fn connect_event_json(kind: Seq<char>, session_id: SessionId) -> Seq<u8> {
    "{\"event\":\"".spec_bytes() + escaped_str(kind) + "\",\"session_id\":\"".spec_bytes()
        + uuid_bytes(session_id) + "\"}".spec_bytes()
}

/// `{"event":"<kind>","room_id":N,"img_id":N}`
pub open spec fn image_event_json(kind: Seq<char>, room_id: RoomId, img_id: ImgId) -> Seq<u8> {
    "{\"event\":\"".spec_bytes() + escaped_str(kind) + "\",\"room_id\":".spec_bytes()
        + dec_digits(room_id as nat) + ",\"img_id\":".spec_bytes() + dec_digits(img_id as nat)
        + "}".spec_bytes()
}

/// `{"event":"<kind>","room_id":N}`
pub open spec fn room_deleted_json(kind: Seq<char>, room_id: RoomId) -> Seq<u8> {
    "{\"event\":\"".spec_bytes() + escaped_str(kind) + "\",\"room_id\":".spec_bytes()
        + dec_digits(room_id as nat) + "}".spec_bytes()
}

/// `{"event":"<kind>"}`
pub open spec fn lobby_deleted_json(kind: Seq<char>) -> Seq<u8> {
    "{\"event\":\"".spec_bytes() + escaped_str(kind) + "\"}".spec_bytes()
}

/// `{"event":"<kind>","username":"..","msg":".."}`
pub open spec fn chat_event_json(kind: Seq<char>, username: Seq<char>, msg: Seq<char>) -> Seq<u8> {
    "{\"event\":\"".spec_bytes() + escaped_str(kind) + "\",\"username\":\"".spec_bytes()
        + escaped_str(username) + "\",\"msg\":\"".spec_bytes() + escaped_str(msg)
        + "\"}".spec_bytes()
}

/// `{"event":"<kind>","msg":"..","msg_type":".."}`
pub open spec fn system_notification_json(kind: Seq<char>, msg: Seq<char>, msg_type: Seq<char>) -> Seq<
    u8,
> {
    "{\"event\":\"".spec_bytes() + escaped_str(kind) + "\",\"msg\":\"".spec_bytes()
        + escaped_str(msg) + "\",\"msg_type\":\"".spec_bytes() + escaped_str(msg_type)
        + "\"}".spec_bytes()
}

/// Event sent to the connecting client itself once it is registered.
pub struct ConnectEvent {
    pub event: String,
    pub session_id: SessionId,
}

impl ConnectEvent {
    /// `{"event":"Connected","session_id":"<hyphenated id>"}`
    pub open spec fn wire_json(self) -> Seq<u8> {
        connect_event_json(self.event@, self.session_id)
    }

    pub fn new(session_id: SessionId) -> (r: Self)
        ensures
            r.event@ == "Connected"@,
            r.session_id == session_id,
    {
        ConnectEvent { event: "Connected".to_owned(), session_id }
    }

    pub fn to_output_json(&self) -> (r: Vec<u8>)
        ensures
            r@ == self.wire_json(),
    {
        let mut out: Vec<u8> = Vec::new();
        lit_into(&mut out, "{\"event\":\"");
        escape_json_into(&mut out, self.event.as_str());
        lit_into(&mut out, "\",\"session_id\":\"");
        let mut id = u128_uuid(self.session_id);
        out.append(&mut id);
        lit_into(&mut out, "\"}");
        out
    }
}

/// Event fanned out to a lobby when an image was stored or removed; the
/// `event` field distinguishes the two.
pub struct ImageProcessedEvent {
    pub event: String,
    pub room_id: RoomId,
    pub img_id: ImgId,
}

impl ImageProcessedEvent {
    /// `{"event":"<kind>","room_id":N,"img_id":N}`
    pub open spec fn wire_json(self) -> Seq<u8> {
        image_event_json(self.event@, self.room_id, self.img_id)
    }

    pub fn to_output_json(&self) -> (r: Vec<u8>)
        ensures
            r@ == self.wire_json(),
    {
        let mut out: Vec<u8> = Vec::new();
        lit_into(&mut out, "{\"event\":\"");
        escape_json_into(&mut out, self.event.as_str());
        lit_into(&mut out, "\",\"room_id\":");
        let mut n = u64_dec(self.room_id as u64);
        out.append(&mut n);
        lit_into(&mut out, ",\"img_id\":");
        let mut n = u64_dec(self.img_id as u64);
        out.append(&mut n);
        lit_into(&mut out, "}");
        out
    }
}

/// Event fanned out to a lobby when one of its rooms was torn down.
pub struct RoomDeletedEvent {
    pub event: String,
    pub room_id: RoomId,
}

impl RoomDeletedEvent {
    /// `{"event":"RoomDeleted","room_id":N}`
    pub open spec fn wire_json(self) -> Seq<u8> {
        room_deleted_json(self.event@, self.room_id)
    }

    pub fn new(room_id: RoomId) -> (r: Self)
        ensures
            r.event@ == "RoomDeleted"@,
            r.room_id == room_id,
    {
        RoomDeletedEvent { event: "RoomDeleted".to_owned(), room_id }
    }

    pub fn to_output_json(&self) -> (r: Vec<u8>)
        ensures
            r@ == self.wire_json(),
    {
        let mut out: Vec<u8> = Vec::new();
        lit_into(&mut out, "{\"event\":\"");
        escape_json_into(&mut out, self.event.as_str());
        lit_into(&mut out, "\",\"room_id\":");
        let mut n = u64_dec(self.room_id as u64);
        out.append(&mut n);
        lit_into(&mut out, "}");
        out
    }
}

/// Event fanned out to a lobby when the whole lobby was torn down.
pub struct LobbyDeletedEvent {
    pub event: String,
}

impl LobbyDeletedEvent {
    /// `{"event":"LobbyDeleted"}`
    pub open spec fn wire_json(self) -> Seq<u8> {
        lobby_deleted_json(self.event@)
    }

    pub fn new() -> (r: Self)
        ensures
            r.event@ == "LobbyDeleted"@,
    {
        LobbyDeletedEvent { event: "LobbyDeleted".to_owned() }
    }

    pub fn to_output_json(&self) -> (r: Vec<u8>)
        ensures
            r@ == self.wire_json(),
    {
        let mut out: Vec<u8> = Vec::new();
        lit_into(&mut out, "{\"event\":\"");
        escape_json_into(&mut out, self.event.as_str());
        lit_into(&mut out, "\"}");
        out
    }
}

/// Chat line fanned out to a lobby.
pub struct ChatMessageEvent {
    pub event: String,
    pub username: String,
    pub msg: String,
}

impl ChatMessageEvent {
    /// `{"event":"ChatMessage","username":"..","msg":".."}`
    pub open spec fn wire_json(self) -> Seq<u8> {
        chat_event_json(self.event@, self.username@, self.msg@)
    }

    pub fn new(username: String, msg: String) -> (r: Self)
        ensures
            r.event@ == "ChatMessage"@,
            r.username == username,
            r.msg == msg,
    {
        ChatMessageEvent { event: "ChatMessage".to_owned(), username, msg }
    }

    pub fn to_output_json(&self) -> (r: Vec<u8>)
        ensures
            r@ == self.wire_json(),
    {
        let mut out: Vec<u8> = Vec::new();
        lit_into(&mut out, "{\"event\":\"");
        escape_json_into(&mut out, self.event.as_str());
        lit_into(&mut out, "\",\"username\":\"");
        escape_json_into(&mut out, self.username.as_str());
        lit_into(&mut out, "\",\"msg\":\"");
        escape_json_into(&mut out, self.msg.as_str());
        lit_into(&mut out, "\"}");
        out
    }
}

/// Direct notice to a single session, used for moderation feedback.
pub struct SystemNotificationEvent {
    pub event: String,
    pub msg: String,
    pub msg_type: String,
}

impl SystemNotificationEvent {
    /// `{"event":"SystemNotification","msg":"..","msg_type":"Warning"}`
    pub open spec fn wire_json(self) -> Seq<u8> {
        system_notification_json(self.event@, self.msg@, self.msg_type@)
    }

    /// The only notice kind in the protocol is a warning.
    pub fn new_warning(msg: String) -> (r: Self)
        ensures
            r.event@ == "SystemNotification"@,
            r.msg == msg,
            r.msg_type@ == "Warning"@,
    {
        SystemNotificationEvent {
            event: "SystemNotification".to_owned(),
            msg,
            msg_type: "Warning".to_owned(),
        }
    }

    pub fn to_output_json(&self) -> (r: Vec<u8>)
        ensures
            r@ == self.wire_json(),
    {
        let mut out: Vec<u8> = Vec::new();
        lit_into(&mut out, "{\"event\":\"");
        escape_json_into(&mut out, self.event.as_str());
        lit_into(&mut out, "\",\"msg\":\"");
        escape_json_into(&mut out, self.msg.as_str());
        lit_into(&mut out, "\",\"msg_type\":\"");
        escape_json_into(&mut out, self.msg_type.as_str());
        lit_into(&mut out, "\"}");
        out
    }
}

/// The items of a JSON array of numbers, comma-separated.
pub open spec fn json_u32_items(s: Seq<u32>) -> Seq<u8>
    decreases s.len(),
{
    if s.len() == 0 {
        Seq::empty()
    } else if s.len() == 1 {
        dec_digits(s[0] as nat)
    } else {
        dec_digits(s[0] as nat) + ",".spec_bytes() + json_u32_items(s.drop_first())
    }
}

/// A JSON array of numbers, `[1,2,3]`.
pub open spec fn json_u32_array(s: Seq<u32>) -> Seq<u8> {
    "[".spec_bytes() + json_u32_items(s) + "]".spec_bytes()
}

proof fn lemma_json_u32_items_push(s: Seq<u32>, x: u32)
    ensures
        json_u32_items(s.push(x)) == if s.len() == 0 {
            dec_digits(x as nat)
        } else {
            json_u32_items(s) + ",".spec_bytes() + dec_digits(x as nat)
        },
    decreases s.len(),
{
    if s.len() == 0 {
        assert(s.push(x) =~= seq![x]);
        assert(json_u32_items(seq![x]) == dec_digits(x as nat));
    } else {
        assert(s.push(x).drop_first() =~= s.drop_first().push(x));
        lemma_json_u32_items_push(s.drop_first(), x);
        assert(json_u32_items(s.push(x)) =~= json_u32_items(s) + ",".spec_bytes() + dec_digits(
            x as nat,
        ));
    }
}

/// Renders a list of identifiers as a JSON array.
#[verifier::loop_isolation(false)]
pub fn u32_array_json(v: &Vec<u32>) -> (r: Vec<u8>)
    ensures
        r@ == json_u32_array(v@),
{
    let mut out: Vec<u8> = Vec::new();
    lit_into(&mut out, "[");
    let mut i: usize = 0;
    while i < v.len()
        invariant
            i <= v@.len(),
            out@ == "[".spec_bytes() + json_u32_items(v@.take(i as int)),
        decreases v@.len() - i,
    {
        if i > 0 {
            lit_into(&mut out, ",");
        }
        let mut n = u64_dec(v[i] as u64);
        out.append(&mut n);
        proof {
            assert(v@.take(i + 1) =~= v@.take(i as int).push(v@[i as int]));
            lemma_json_u32_items_push(v@.take(i as int), v@[i as int]);
            assert(out@ =~= "[".spec_bytes() + json_u32_items(v@.take(i + 1)));
        }
        i += 1;
    }
    lit_into(&mut out, "]");
    proof {
        assert(v@.take(v@.len() as int) =~= v@);
        assert(out@ =~= json_u32_array(v@));
    }
    out
}

/// `{"img_id":N}` — the body of a successful upload response.
pub open spec fn upload_result_json(img_id: ImgId) -> Seq<u8> {
    "{\"img_id\":".spec_bytes() + dec_digits(img_id as nat) + "}".spec_bytes()
}

/// The body of every plain success response: the unit value, as JSON.
pub open spec fn success_json() -> Seq<u8> {
    "null".spec_bytes()
}

} // verus!
