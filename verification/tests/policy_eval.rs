//! The policy evaluator: allow-list precedence, restrictions, templates.
use wim_core::policy::{confirmation_outcome, ConfirmationFormat, ConfirmationMethod,
    ConfirmationRequest, ConfirmationResponse, Evaluation, ParamMap, ParamValue, Permission,
    RequestParams, Restriction};

fn denied_msg(e: Evaluation) -> String {
    match e {
        Evaluation::Denied(m) => m,
        _ => panic!("expected a denial"),
    }
}

#[test]
fn open_permission_allows() {
    let p = Permission::new(Restriction::AllowedToAll, None);
    assert!(matches!(p.is_allowed(None), Evaluation::Allowed));
}

#[test]
fn denied_permission_denies() {
    let p = Permission::new(Restriction::Denied, None);
    assert_eq!(denied_msg(p.is_allowed(None)), "Access denied");
}

#[test]
fn allowlist_denies_unlisted_referer_even_when_open() {
    // the whitelist is checked before the restriction, so even AllowedToAll
    // is refused from an unlisted origin
    let p = Permission::new(
        Restriction::AllowedToAll,
        Some(vec![String::from("https://gallery.example/")]),
    );
    let bad = String::from("https://elsewhere.example/");
    assert_eq!(
        denied_msg(p.is_allowed(Some(&bad))),
        "Access from this url not allowed"
    );
}

#[test]
fn allowlist_requires_a_referer() {
    // a missing referer is refused with the same text as an unlisted one
    let p = Permission::new(
        Restriction::AllowedToAll,
        Some(vec![String::from("https://gallery.example/")]),
    );
    assert_eq!(
        denied_msg(p.is_allowed(None)),
        "Access from this url not allowed"
    );
}

#[test]
fn listed_referer_passes_to_the_restriction() {
    let ok = String::from("https://gallery.example/");
    let p = Permission::new(
        Restriction::Denied,
        Some(vec![String::from("https://gallery.example/")]),
    );
    assert_eq!(denied_msg(p.is_allowed(Some(&ok))), "Access denied");
    let p = Permission::new(
        Restriction::AllowedToAll,
        Some(vec![String::from("https://gallery.example/")]),
    );
    assert!(matches!(p.is_allowed(Some(&ok)), Evaluation::Allowed));
}

fn confirmation_permission() -> Permission {
    let mut params = ParamMap::new();
    params.set(
        String::from("lobby_id"),
        ParamValue::Str(String::from("auth_lobby")),
    );
    params.set(String::from("token"), ParamValue::Str(String::from("fixed-caller-tag")));
    params.set(String::from("room_id"), ParamValue::Num(0));
    let conf = ConfirmationRequest::new(
        String::from("https://authority.example/confirm"),
        ConfirmationMethod::Post,
        ConfirmationFormat::Json,
        params,
        vec![(String::from("x-caller"), String::from("gallery"))],
    );
    Permission::new(Restriction::NeedsConfirmation(conf), None)
}

#[test]
fn confirmation_is_asked_for() {
    let p = confirmation_permission();
    assert!(matches!(p.is_allowed(None), Evaluation::NeedsConfirmation));
    assert!(p.confirmation().is_some());
}

#[test]
fn template_substitution_renames_and_fills() {
    let p = confirmation_permission();
    let conf = p.confirmation().unwrap();
    let lobby: u128 = 0x123e4567e89b12d3a456426614174000;
    let prepared = conf.prepared_params(&RequestParams {
        lobby_id: lobby,
        room_id: Some(7),
        img_id: None,
    });
    let entries = prepared.entries();
    // "lobby_id" named "auth_lobby" as target key: renamed and filled
    assert!(entries
        .iter()
        .any(|e| e.0 == "auth_lobby" && matches!(e.1, ParamValue::Uuid(u) if u == lobby)));
    assert!(!entries.iter().any(|e| e.0 == "lobby_id"));
    // "room_id" held a non-text template value: overwritten in place
    assert!(entries
        .iter()
        .any(|e| e.0 == "room_id" && matches!(e.1, ParamValue::Num(7))));
    // untouched static parameter survives
    assert!(entries
        .iter()
        .any(|e| e.0 == "token" && matches!(&e.1, ParamValue::Str(s) if s == "fixed-caller-tag")));
    // no img_id in the request: nothing appears for it
    assert!(!entries.iter().any(|e| e.0 == "img_id"));
}

#[test]
fn template_rename_onto_same_key_keeps_the_key() {
    let mut params = ParamMap::new();
    params.set(
        String::from("lobby_id"),
        ParamValue::Str(String::from("lobby_id")),
    );
    let rp = RequestParams { lobby_id: 5, room_id: None, img_id: None };
    rp.edit_param_map(&mut params);
    let entries = params.entries();
    assert_eq!(entries.len(), 1);
    assert!(entries
        .iter()
        .any(|e| e.0 == "lobby_id" && matches!(e.1, ParamValue::Uuid(5))));
}

#[test]
fn missing_template_key_changes_nothing() {
    let mut params = ParamMap::new();
    params.set(String::from("other"), ParamValue::Num(1));
    let rp = RequestParams { lobby_id: 5, room_id: Some(2), img_id: Some(3) };
    rp.edit_param_map(&mut params);
    let entries = params.entries();
    assert_eq!(entries.len(), 1);
    assert!(entries
        .iter()
        .any(|e| e.0 == "other" && matches!(e.1, ParamValue::Num(1))));
}

#[test]
fn confirmation_outcome_maps_the_verdict() {
    let yes = ConfirmationResponse { is_allowed: true, error_msg: None };
    assert!(confirmation_outcome(&yes).is_ok());
    let no = ConfirmationResponse {
        is_allowed: false,
        error_msg: Some(String::from("quota exceeded")),
    };
    assert_eq!(
        confirmation_outcome(&no).unwrap_err(),
        "Not allowed: quota exceeded"
    );
    let bare = ConfirmationResponse { is_allowed: false, error_msg: None };
    assert_eq!(confirmation_outcome(&bare).unwrap_err(), "Not allowed: ");
}
