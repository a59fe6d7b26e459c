//! The policy evaluator.
//!
//! Every operation is gated by a `Permission`: an optional referer
//! allow-list checked first, then a `Restriction` that either settles the
//! decision locally (`AllowedToAll`, `Denied`) or asks an external authority
//! (`NeedsConfirmation`). The evaluator itself never performs I/O: it
//! returns the decision, or says that a confirmation call is needed and
//! prepares its parameter map; the shell performs the HTTP exchange and
//! feeds the parsed response back through [`confirmation_outcome`]. A
//! confirmation that cannot be obtained never fails open — the shell turns
//! every transport or parse failure into a denial message of its own.
use vstd::prelude::*;
use vstd::string::StringExecFns;

use crate::assoc::{assoc_has, assoc_idx, assoc_map, assoc_unique, lemma_assoc_at,
    lemma_assoc_push, lemma_assoc_remove, lemma_assoc_update};
use crate::{ImgId, LobbyId, RoomId};

verus! {

/// HTTP method of a confirmation call.
pub enum ConfirmationMethod {
    Get,
    Post,
}

/// Body encoding of a confirmation call.
pub enum ConfirmationFormat {
    Json,
    Form,
}

/// One value of a confirmation parameter map: a piece of text, a small
/// number, or a 128-bit identifier rendered in its hyphenated form when the
/// request is sent.
pub enum ParamValue {
    Str(String),
    Num(u32),
    Uuid(u128),
}

/// Specification-level shape of a parameter value.
pub ghost enum ParamView {
    Str(Seq<char>),
    Num(u32),
    Uuid(u128),
}

impl View for ParamValue {
    type V = ParamView;

    open spec fn view(&self) -> ParamView {
        match self {
            ParamValue::Str(s) => ParamView::Str(s@),
            ParamValue::Num(n) => ParamView::Num(*n),
            ParamValue::Uuid(u) => ParamView::Uuid(*u),
        }
    }
}

/// A small string-keyed parameter map with unique keys, viewed as a map
/// from key text to parameter value.
pub struct ParamMap {
    entries: Vec<(String, ParamValue)>,
}

impl View for ParamMap {
    type V = Map<Seq<char>, ParamView>;

    closed spec fn view(&self) -> Map<Seq<char>, ParamView> {
        assoc_map(self.pairs())
    }
}

impl ParamMap {
    pub closed spec fn pairs(self) -> Seq<(Seq<char>, ParamView)> {
        self.entries@.map_values(|e: (String, ParamValue)| (e.0@, e.1@))
    }

    /// No key occurs twice.
    pub closed spec fn wf(self) -> bool {
        assoc_unique(self.pairs())
    }

    pub fn new() -> (r: Self)
        ensures
            r.wf(),
            r@ == Map::<Seq<char>, ParamView>::empty(),
    {
        let r = ParamMap { entries: Vec::new() };
        proof {
            assert(r.pairs() =~= Seq::<(Seq<char>, ParamView)>::empty());
            assert(r@ =~= Map::<Seq<char>, ParamView>::empty());
        }
        r
    }

    /// Adds or replaces one entry.
    #[verifier::loop_isolation(false)]
    pub fn set(&mut self, key: String, val: ParamValue)
        requires
            old(self).wf(),
        ensures
            final(self).wf(),
            final(self)@ == old(self)@.insert(key@, val@),
    {
        let n = self.entries.len();
        let mut i: usize = 0;
        while i < n
            invariant
                *self == *old(self),
                n == self.entries@.len(),
                i <= n,
                forall|j: int| 0 <= j < i ==> self.pairs()[j].0 != key@,
            decreases n - i,
        {
            if self.entries[i].0 == key {
                let ghost pre = *self;
                self.entries[i] = (key, val);
                proof {
                    assert(self.pairs() =~= pre.pairs().update(
                        i as int,
                        (pre.pairs()[i as int].0, val@),
                    ));
                    lemma_assoc_update(pre.pairs(), self.pairs(), i as int);
                }
                return ;
            }
            proof {
                assert(self.pairs()[i as int].0 == self.entries@[i as int].0@);
            }
            i += 1;
        }
        let ghost pre = *self;
        self.entries.push((key, val));
        proof {
            if assoc_has(pre.pairs(), key@) {
                let j = assoc_idx(pre.pairs(), key@);
            }
            assert(self.pairs() =~= pre.pairs().push((key@, val@)));
            lemma_assoc_push(pre.pairs(), self.pairs(), key@, val@);
        }
    }

    /// The entries, for the shell to serialize into a request body.
    pub fn entries(&self) -> (r: &Vec<(String, ParamValue)>)
        ensures
            r@.map_values(|e: (String, ParamValue)| (e.0@, e.1@)) == self.pairs(),
    {
        &self.entries
    }
}

/// The map after the data-driven key rename of one template entry. A
/// template entry whose value is text names the parameter to fill: that
/// entry is dropped and the named parameter is set to the live value (when
/// the names coincide, the entry simply receives the live value). A
/// template entry of any other shape is overwritten in place. A missing
/// template key leaves the map alone.
pub open spec fn spec_rename(
    m: Map<Seq<char>, ParamView>,
    key: Seq<char>,
    val: ParamView,
) -> Map<Seq<char>, ParamView> {
    if m.dom().contains(key) {
        match m[key] {
            ParamView::Str(nk) => m.remove(key).insert(nk, val),
            _ => m.insert(key, val),
        }
    } else {
        m
    }
}

/// Applies the template substitution of [`spec_rename`] to the map.
#[verifier::loop_isolation(false)]
pub fn rename_with_value(map: &mut ParamMap, key: &String, val: ParamValue)
    requires
        old(map).wf(),
    ensures
        final(map).wf(),
        final(map)@ == spec_rename(old(map)@, key@, val@),
{
    let n = map.entries.len();
    let mut i: usize = 0;
    while i < n
        invariant
            *map == *old(map),
            n == map.entries@.len(),
            i <= n,
            forall|j: int| 0 <= j < i ==> map.pairs()[j].0 != key@,
        decreases n - i,
    {
        if map.entries[i].0 == *key {
            proof {
                lemma_assoc_at(map.pairs(), i as int);
                assert(map@.dom().contains(key@));
                assert(map@[key@] == map.pairs()[i as int].1);
            }
            let nk_opt: Option<String> = match &map.entries[i].1 {
                ParamValue::Str(s) => Some(s.clone()),
                _ => None,
            };
            match nk_opt {
                Some(nk) => {
                    let ghost pre = *map;
                    map.entries.remove(i);
                    proof {
                        assert(map.pairs() =~= pre.pairs().remove(i as int));
                        lemma_assoc_remove(pre.pairs(), map.pairs(), i as int);
                    }
                    map.set(nk, val);
                    proof {
                        assert(final(map)@ =~= spec_rename(old(map)@, key@, val@));
                    }
                },
                None => {
                    let ghost pre = *map;
                    map.entries[i].1 = val;
                    proof {
                        assert(map.pairs() =~= pre.pairs().update(
                            i as int,
                            (pre.pairs()[i as int].0, map.pairs()[i as int].1),
                        ));
                        lemma_assoc_update(pre.pairs(), map.pairs(), i as int);
                        assert(final(map)@ =~= spec_rename(old(map)@, key@, val@));
                    }
                },
            }
            return ;
        }
        proof {
            assert(map.pairs()[i as int].0 == map.entries@[i as int].0@);
        }
        i += 1;
    }
    proof {
        if map@.dom().contains(key@) {
            let j = assoc_idx(map.pairs(), key@);
        }
        assert(final(map)@ == spec_rename(old(map)@, key@, val@));
    }
}

/// The request-specific identifiers that a confirmation call may ask for.
pub struct RequestParams {
    pub lobby_id: LobbyId,
    pub room_id: Option<RoomId>,
    pub img_id: Option<ImgId>,
}

impl RequestParams {
    /// The template map after every identifier this request carries has
    /// been substituted in.
    pub open spec fn spec_edit(self, m: Map<Seq<char>, ParamView>) -> Map<Seq<char>, ParamView> {
        let m1 = spec_rename(m, "lobby_id"@, ParamView::Uuid(self.lobby_id));
        let m2 = match self.room_id {
            Some(r) => spec_rename(m1, "room_id"@, ParamView::Num(r)),
            None => m1,
        };
        match self.img_id {
            Some(im) => spec_rename(m2, "img_id"@, ParamView::Num(im)),
            None => m2,
        }
    }

    /// Fills the identifiers of this request into a template map.
    pub fn edit_param_map(&self, map: &mut ParamMap)
        requires
            old(map).wf(),
        ensures
            final(map).wf(),
            final(map)@ == self.spec_edit(old(map)@),
    {
        let lobby_key = String::from_str("lobby_id");
        rename_with_value(map, &lobby_key, ParamValue::Uuid(self.lobby_id));
        match self.room_id {
            Some(r) => {
                let room_key = String::from_str("room_id");
                rename_with_value(map, &room_key, ParamValue::Num(r));
            },
            None => {},
        }
        match self.img_id {
            Some(im) => {
                let img_key = String::from_str("img_id");
                rename_with_value(map, &img_key, ParamValue::Num(im));
            },
            None => {},
        }
    }
}

/// What a permission asks for: open access, a delegated confirmation, or a
/// flat denial.
pub enum Restriction {
    AllowedToAll,
    NeedsConfirmation(ConfirmationRequest),
    Denied,
}

/// The configured shape of a confirmation call: where to send it, how, and
/// with which static parameters and headers.
pub struct ConfirmationRequest {
    url: String,
    method: ConfirmationMethod,
    format: ConfirmationFormat,
    params: ParamMap,
    headers: Vec<(String, String)>,
}

impl ConfirmationRequest {
    pub closed spec fn spec_params(self) -> Map<Seq<char>, ParamView> {
        self.params@
    }

    pub closed spec fn params_wf(self) -> bool {
        self.params.wf()
    }

    pub closed spec fn spec_url(self) -> Seq<char> {
        self.url@
    }

    pub closed spec fn spec_method(self) -> ConfirmationMethod {
        self.method
    }

    pub closed spec fn spec_format(self) -> ConfirmationFormat {
        self.format
    }

    pub closed spec fn spec_headers(self) -> Seq<(Seq<char>, Seq<char>)> {
        self.headers@.map_values(|h: (String, String)| (h.0@, h.1@))
    }

    pub fn new(
        url: String,
        method: ConfirmationMethod,
        format: ConfirmationFormat,
        params: ParamMap,
        headers: Vec<(String, String)>,
    ) -> (r: Self)
        requires
            params.wf(),
        ensures
            r.params_wf(),
            r.spec_params() == params@,
            r.spec_url() == url@,
            r.spec_method() == method,
            r.spec_format() == format,
            r.spec_headers() == headers@.map_values(|h: (String, String)| (h.0@, h.1@)),
    {
        ConfirmationRequest { url, method, format, params, headers }
    }

    /// Where the confirmation call goes.
    pub fn url(&self) -> (r: &String)
        ensures
            r@ == self.spec_url(),
    {
        &self.url
    }

    /// The configured HTTP method.
    pub fn method(&self) -> (r: &ConfirmationMethod)
        ensures
            *r == self.spec_method(),
    {
        &self.method
    }

    /// The configured body encoding.
    pub fn format(&self) -> (r: &ConfirmationFormat)
        ensures
            *r == self.spec_format(),
    {
        &self.format
    }

    /// The configured static headers.
    pub fn headers(&self) -> (r: &Vec<(String, String)>)
        ensures
            r@.map_values(|h: (String, String)| (h.0@, h.1@)) == self.spec_headers(),
    {
        &self.headers
    }

    /// A copy of the static parameter template with this request's
    /// identifiers substituted in, ready to be serialized and sent.
    pub fn prepared_params(&self, params: &RequestParams) -> (r: ParamMap)
        requires
            self.params_wf(),
        ensures
            r.wf(),
            r@ == params.spec_edit(self.spec_params()),
    {
        let mut conf_params = self.params.duplicate();
        params.edit_param_map(&mut conf_params);
        conf_params
    }
}

impl ParamMap {
    /// A fresh map with the same entries.
    #[verifier::loop_isolation(false)]
    pub fn duplicate(&self) -> (r: Self)
        requires
            self.wf(),
        ensures
            r.wf(),
            r@ == self@,
    {
        let mut out = ParamMap { entries: Vec::new() };
        let mut i: usize = 0;
        while i < self.entries.len()
            invariant
                i <= self.entries@.len(),
                out.pairs() == self.pairs().take(i as int),
            decreases self.entries@.len() - i,
        {
            let key = self.entries[i].0.clone();
            let val = match &self.entries[i].1 {
                ParamValue::Str(s) => ParamValue::Str(s.clone()),
                ParamValue::Num(n) => ParamValue::Num(*n),
                ParamValue::Uuid(u) => ParamValue::Uuid(*u),
            };
            proof {
                assert((key@, val@) == self.pairs()[i as int]);
            }
            out.entries.push((key, val));
            proof {
                assert(out.pairs() =~= self.pairs().take(i + 1));
            }
            i += 1;
        }
        proof {
            assert(self.pairs().take(self.entries@.len() as int) =~= self.pairs());
            assert(out@ == self@);
        }
        out
    }
}

/// The referer is named by the allow-list.
pub open spec fn whitelist_contains(w: Seq<String>, referer: Seq<char>) -> bool {
    exists|i: int| 0 <= i < w.len() && w[i]@ == referer
}

/// Specification-level outcome of evaluating a permission locally.
pub ghost enum SpecOutcome {
    Allow,
    Deny(Seq<char>),
    Confirm,
}

/// One operation's access rule: an optional referer allow-list, checked
/// first, and the restriction behind it.
pub struct Permission {
    restriction: Restriction,
    url_whitelist: Option<Vec<String>>,
}

/// Result of the local part of an evaluation; `NeedsConfirmation` means the
/// decision is delegated and the shell must perform the configured call.
pub enum Evaluation {
    Allowed,
    Denied(String),
    NeedsConfirmation,
}

impl Evaluation {
    pub open spec fn outcome(self) -> SpecOutcome {
        match self {
            Evaluation::Allowed => SpecOutcome::Allow,
            Evaluation::Denied(m) => SpecOutcome::Deny(m@),
            Evaluation::NeedsConfirmation => SpecOutcome::Confirm,
        }
    }
}

impl Permission {
    pub closed spec fn spec_whitelist(self) -> Option<Seq<String>> {
        match self.url_whitelist {
            Some(w) => Some(w@),
            None => None,
        }
    }

    pub closed spec fn spec_restriction(self) -> Restriction {
        self.restriction
    }

    pub fn new(restriction: Restriction, url_whitelist: Option<Vec<String>>) -> (r: Self)
        ensures
            r.spec_restriction() == restriction,
            match url_whitelist {
                Some(w) => r.spec_whitelist() == Some(w@),
                None => r.spec_whitelist() is None,
            },
    {
        Permission { restriction, url_whitelist }
    }

    /// The referer check passes: either no allow-list is configured, or a
    /// referer is present and listed.
    pub open spec fn url_allowed(self, referer: Option<Seq<char>>) -> bool {
        match self.spec_whitelist() {
            None => true,
            Some(w) => match referer {
                None => false,
                Some(r) => whitelist_contains(w, r),
            },
        }
    }

    /// What evaluating this permission against a referer yields, before any
    /// delegated confirmation: the allow-list is checked first, and only
    /// then the restriction.
    pub open spec fn spec_outcome(self, referer: Option<Seq<char>>) -> SpecOutcome {
        if !self.url_allowed(referer) {
            SpecOutcome::Deny("Access from this url not allowed"@)
        } else {
            match self.spec_restriction() {
                Restriction::AllowedToAll => SpecOutcome::Allow,
                Restriction::Denied => SpecOutcome::Deny("Access denied"@),
                Restriction::NeedsConfirmation(_) => SpecOutcome::Confirm,
            }
        }
    }

    #[verifier::loop_isolation(false)]
    fn is_allowed_url(&self, referer: Option<&String>) -> (r: Result<(), String>)
        ensures
            r is Ok <==> self.url_allowed(match referer {
                Some(s) => Some(s@),
                None => None,
            }),
            r matches Err(m) ==> m@ == "Access from this url not allowed"@,
    {
        let urls = match &self.url_whitelist {
            None => {
                return Ok(());
            },
            Some(urls) => urls,
        };
        let referer = match referer {
            None => {
                // a missing referer is refused with the same text as an
                // unlisted one
                return Err(String::from_str("Access from this url not allowed"));
            },
            Some(r) => r,
        };
        let mut i: usize = 0;
        while i < urls.len()
            invariant
                i <= urls@.len(),
                forall|j: int| 0 <= j < i ==> urls@[j]@ != referer@,
            decreases urls@.len() - i,
        {
            if urls[i] == *referer {
                return Ok(());
            }
            i += 1;
        }
        proof {
            if whitelist_contains(urls@, referer@) {
                let j = choose|j: int| 0 <= j < urls@.len() && urls@[j]@ == referer@;
            }
        }
        Err(String::from_str("Access from this url not allowed"))
    }

    /// Evaluates the permission locally: the allow-list first, then the
    /// restriction. `NeedsConfirmation` asks the caller to perform the
    /// configured confirmation call with [`ConfirmationRequest::prepared_params`].
    pub fn is_allowed(&self, referer: Option<&String>) -> (r: Evaluation)
        ensures
            r.outcome() == self.spec_outcome(match referer {
                Some(s) => Some(s@),
                None => None,
            }),
    {
        match self.is_allowed_url(referer) {
            Err(m) => Evaluation::Denied(m),
            Ok(()) => match &self.restriction {
                Restriction::AllowedToAll => Evaluation::Allowed,
                Restriction::NeedsConfirmation(_) => Evaluation::NeedsConfirmation,
                Restriction::Denied => Evaluation::Denied(
                    String::from_str("Access denied"),
                ),
            },
        }
    }

    /// The confirmation shape, when the restriction delegates the decision.
    pub fn confirmation(&self) -> (r: Option<&ConfirmationRequest>)
        ensures
            match r {
                Some(c) => self.spec_restriction() matches Restriction::NeedsConfirmation(c0)
                    && *c == c0,
                None => !(self.spec_restriction() matches Restriction::NeedsConfirmation(_)),
            },
    {
        match &self.restriction {
            Restriction::NeedsConfirmation(c) => Some(c),
            _ => None,
        }
    }
}

impl Permission {
    /// No allow-list and no restriction: the operation is open to all.
    pub open spec fn spec_unrestricted(self) -> bool {
        self.spec_restriction() is AllowedToAll && self.spec_whitelist() is None
    }
}

impl Default for Permission {
    /// An unconfigured operation is open: no allow-list, no restriction.
    fn default() -> (r: Self)
        ensures
            r.spec_unrestricted(),
    {
        Permission { restriction: Restriction::AllowedToAll, url_whitelist: None }
    }
}

/// Allow-list precedence: whenever an allow-list is configured and the
/// request's referer is missing or not listed, the outcome is a denial —
/// whatever the restriction says, even `AllowedToAll`.
pub proof fn lemma_allowlist_precedence(p: Permission, referer: Option<Seq<char>>)
    requires
        p.spec_whitelist() matches Some(w) && match referer {
            None => true,
            Some(r) => !whitelist_contains(w, r),
        },
    ensures
        p.spec_outcome(referer) matches SpecOutcome::Deny(_),
{
}

/// The parsed reply of the confirmation authority.
pub struct ConfirmationResponse {
    pub is_allowed: bool,
    pub error_msg: Option<String>,
}

/// Maps the authority's parsed verdict onto the operation's fate: allowed
/// passes, everything else is a denial that names the authority's reason.
pub fn confirmation_outcome(response: &ConfirmationResponse) -> (r: Result<(), String>)
    ensures
        r is Ok <==> response.is_allowed,
        r matches Err(m) ==> m@ == "Not allowed: "@ + (match response.error_msg {
            Some(e) => e@,
            None => Seq::<char>::empty(),
        }),
{
    if response.is_allowed {
        Ok(())
    } else {
        let prefix = String::from_str("Not allowed: ");
        match &response.error_msg {
            Some(e) => {
                let m = prefix.concat(e.as_str());
                Err(m)
            },
            None => {
                proof {
                    assert(prefix@ =~= "Not allowed: "@ + Seq::<char>::empty());
                }
                Err(prefix)
            },
        }
    }
}

/// The permission table, one entry per operation, loaded once from
/// configuration and never mutated afterwards.
pub struct Permissions {
    pub get_room_list: Permission,
    pub get_room_img_list: Permission,
    pub get_img_thumb: Permission,
    pub get_img_big: Permission,
    pub upload_img: Permission,
    pub delete_lobby: Permission,
    pub delete_room: Permission,
    pub delete_img: Permission,
    pub send_chat_message: Permission,
}

impl Permissions {
    /// Every one of the nine operations is open to all.
    pub open spec fn spec_unrestricted(self) -> bool {
        &&& self.get_room_list.spec_unrestricted()
        &&& self.get_room_img_list.spec_unrestricted()
        &&& self.get_img_thumb.spec_unrestricted()
        &&& self.get_img_big.spec_unrestricted()
        &&& self.upload_img.spec_unrestricted()
        &&& self.delete_lobby.spec_unrestricted()
        &&& self.delete_room.spec_unrestricted()
        &&& self.delete_img.spec_unrestricted()
        &&& self.send_chat_message.spec_unrestricted()
    }
}

impl Default for Permissions {
    /// Every operation defaults to open access.
    fn default() -> (r: Self)
        ensures
            r.spec_unrestricted(),
    {
        Permissions {
            get_room_list: Permission::default(),
            get_room_img_list: Permission::default(),
            get_img_thumb: Permission::default(),
            get_img_big: Permission::default(),
            upload_img: Permission::default(),
            delete_lobby: Permission::default(),
            delete_room: Permission::default(),
            delete_img: Permission::default(),
            send_chat_message: Permission::default(),
        }
    }
}

} // verus!
