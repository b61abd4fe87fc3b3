use clnaddress::base_url::BaseUrl;
use clnaddress::event::{Event, ZapperKeys};
use clnaddress::invoice::{
    answer_invoice, describe_zap, describe_zap_with, get_invoice, invoice_request, AmountOrAny,
};
use clnaddress::label::{invoice_label, invoice_label_with};
use clnaddress::lnurl::{
    generate_direct_metadata, generate_user_metadata, get_lnurlp_config, get_user_metadata,
    lnurl_error, lnurlp_config_with, validate_comment, validate_invoice_amount, Refusal,
    StatusCode,
};
use clnaddress::startup::load_nostr_zapper_keys;
use clnaddress::state::{InvoiceQueryParams, PluginState};
use clnaddress::user::UserMetadata;
use clnaddress::users::Users;
use nostr::event::FinalizeEvent;

const SIGNER_SECRET: &str = "0000000000000000000000000000000000000000000000000000000000000001";
const SIGNER_HEX: &str = "79be667ef9dcbbac55a06295ce870b07029bfcdb2dce28d959f2815b16f81798";
const PAYER_SECRET: &str = "0000000000000000000000000000000000000000000000000000000000000002";

fn signer() -> ZapperKeys {
    match load_nostr_zapper_keys(Some(SIGNER_SECRET.to_string()), None) {
        Ok(Some(keys)) => keys,
        _ => panic!("refused"),
    }
}

fn state(base_url: &str, zaps: bool) -> PluginState {
    let mut users = Users::new();
    users.insert("herd".to_string(), UserMetadata::default());
    users.insert(
        "donate".to_string(),
        UserMetadata {
            is_email: Some(true),
            description: Some("Feed \"the\" goats".to_string()),
            min_sendable_msat: Some(2_000),
            max_sendable_msat: Some(5_000),
            comment_allowed: Some(5),
            nostr_enabled: Some(false),
        },
    );
    PluginState {
        rpc_path: "/run/lightning-rpc".to_string(),
        max_sendable_msat: 100_000,
        min_sendable_msat: 1_000,
        default_description: "Thank you".to_string(),
        users,
        plugin_dir: "/var/clnaddress".to_string(),
        base_url: BaseUrl::parse(base_url.to_string()).unwrap(),
        nostr_zapper_keys: if zaps { Some(signer()) } else { None },
        payindex: 0,
        listen_address: "127.0.0.1:9797".to_string(),
    }
}

fn query(amount: u64) -> InvoiceQueryParams {
    InvoiceQueryParams { amount, nostr: None, comment: None }
}

fn refused<T>(result: Result<T, Refusal>) -> (StatusCode, String) {
    match result {
        Ok(_) => panic!("accepted"),
        Err(refusal) => {
            assert_eq!(refusal.body.status, "ERROR");
            (refusal.code, refusal.body.reason)
        }
    }
}

fn zap_request(kind: u16, tags: Vec<Vec<&str>>) -> String {
    let keys = nostr::key::Keys::parse(PAYER_SECRET).unwrap();
    let tags: Vec<nostr::event::Tag> =
        tags.into_iter().map(|tag| nostr::event::Tag::parse(tag).unwrap()).collect();
    nostr::event::EventBuilder::new(nostr::event::Kind::from_u16(kind), "Zap!")
        .tags(tags)
        .finalize(&keys)
        .unwrap()
        .as_json()
}

fn is_uuid(text: &str) -> bool {
    uuid::Uuid::parse_str(text).is_ok_and(|uuid| uuid.get_version_num() == 4)
}

#[test]
fn address_invoice_labels_are_namespaced_and_attributable() {
    let label = invoice_label(Some("herd"));
    let parts: Vec<&str> = label.split(':').collect();
    assert_eq!(parts.len(), 4);
    assert_eq!(&parts[..3], &["clnaddress", "v1", "herd"]);
    uuid::Uuid::parse_str(parts[3]).unwrap();
}

#[test]
fn direct_invoice_labels_cannot_collide_with_valid_address_users() {
    let label = invoice_label(None);
    assert!(label.starts_with("clnaddress:v1:__direct__:"));
}

#[test]
fn comment_length_is_counted_in_characters() {
    assert!(validate_comment(Some("goats"), 5).is_ok());
    assert!(validate_comment(Some("🐐🐐"), 2).is_ok());
    assert!(validate_comment(Some("🐐🐐"), 1).is_err());
    assert!(validate_comment(Some("x"), 0).is_err());
    assert!(validate_comment(Some(""), 0).is_ok());
}

#[test]
fn labels_hold_the_uuid_they_are_given() {
    let uuid = "550e8400-e29b-41d4-a716-446655440000";
    assert_eq!(
        invoice_label_with(Some("herd"), uuid),
        "clnaddress:v1:herd:550e8400-e29b-41d4-a716-446655440000"
    );
    assert_eq!(
        invoice_label_with(None, uuid),
        "clnaddress:v1:__direct__:550e8400-e29b-41d4-a716-446655440000"
    );
}

#[test]
fn labels_are_told_apart_by_random_uuids() {
    let one = invoice_label(Some("herd"));
    let other = invoice_label(Some("herd"));
    assert_ne!(one, other);
    let uuid = one.rsplit(':').next().unwrap();
    assert_eq!(uuid.len(), 36);
    assert!(is_uuid(uuid));
    assert_eq!(uuid.to_lowercase(), uuid);
}

#[test]
fn refused_comments_say_why() {
    assert_eq!(
        refused(validate_comment(Some("🐐🐐"), 1)),
        (StatusCode::BadRequest, "`comment` exceeds maximum length: 2>1".to_string())
    );
    assert!(validate_comment(None, 0).is_ok());
}

#[test]
fn amounts_are_within_the_limits() {
    assert!(validate_invoice_amount(10, 10, 10).is_ok());
    assert_eq!(
        refused(validate_invoice_amount(9, 10, 20)),
        (StatusCode::BadRequest, "`amount` below minimum: 9<10".to_string())
    );
    assert_eq!(
        refused(validate_invoice_amount(21, 10, 20)),
        (StatusCode::BadRequest, "`amount` above maximum: 21>20".to_string())
    );
}

#[test]
fn refusals_have_a_status_and_a_reason() {
    let body = lnurl_error("no");
    assert_eq!(body.status, "ERROR");
    assert_eq!(body.reason, "no");
    assert_eq!(StatusCode::BadRequest.as_u16(), 400);
    assert_eq!(StatusCode::NotFound.as_u16(), 404);
    assert_eq!(StatusCode::InternalServerError.as_u16(), 500);
}

#[test]
fn users_are_looked_up() {
    let state = state("https://goats.example", false);
    assert_eq!(get_user_metadata(&state, "donate").unwrap().comment_allowed, Some(5));
    assert_eq!(get_user_metadata(&state, "goat").unwrap_err(), "User `goat` not found!");
}

#[test]
fn metadata_names_the_address() {
    let state = state("https://goats.example:8443/pay", false);
    let herd = get_user_metadata(&state, "herd").unwrap();
    assert_eq!(
        generate_user_metadata(&state, "herd", &herd),
        vec![vec!["text/plain", "Thank you"], vec!["text/identifier", "herd@goats.example:8443"]]
    );
    let donate = get_user_metadata(&state, "donate").unwrap();
    assert_eq!(
        generate_user_metadata(&state, "donate", &donate),
        vec![
            vec!["text/plain", "Feed \"the\" goats"],
            vec!["text/email", "donate@goats.example:8443"],
        ]
    );
    assert_eq!(generate_direct_metadata(&state), vec![vec!["text/plain", "Thank you"]]);
}

#[test]
fn default_ports_are_left_out_of_addresses() {
    let state = state("https://goats.example:443", false);
    let herd = get_user_metadata(&state, "herd").unwrap();
    assert_eq!(generate_user_metadata(&state, "herd", &herd)[1][1], "herd@goats.example");
}

#[test]
fn users_are_offered_their_own_settings() {
    let state = state("https://goats.example/pay", true);
    let config = get_lnurlp_config(Some("donate"), &state).unwrap();
    assert_eq!(config.callback, "https://goats.example/pay/invoice/donate");
    assert_eq!(config.max_sendable, 5_000);
    assert_eq!(config.min_sendable, 2_000);
    assert_eq!(
        config.metadata,
        "[[\"text/plain\",\"Feed \\\"the\\\" goats\"],[\"text/email\",\"donate@goats.example\"]]"
    );
    assert_eq!(config.tag, "payRequest");
    assert_eq!(config.comment_allowed, Some(5));
    assert!(!config.allows_nostr);
    assert_eq!(config.nostr_pubkey, None);
}

#[test]
fn users_without_settings_are_offered_those_of_the_server() {
    let state = state("https://goats.example", true);
    let config = get_lnurlp_config(Some("herd"), &state).unwrap();
    assert_eq!(config.callback, "https://goats.example/invoice/herd");
    assert_eq!(config.max_sendable, 100_000);
    assert_eq!(config.min_sendable, 1_000);
    assert_eq!(config.comment_allowed, None);
    assert!(config.allows_nostr);
    assert_eq!(config.nostr_pubkey.as_deref(), Some(SIGNER_HEX));
}

#[test]
fn the_direct_offer_is_that_of_the_server() {
    let state = state("https://goats.example", true);
    let config = get_lnurlp_config(None, &state).unwrap();
    assert_eq!(config.callback, "https://goats.example/invoice");
    assert_eq!(config.metadata, "[[\"text/plain\",\"Thank you\"]]");
    assert!(config.allows_nostr);
    assert_eq!(config.nostr_pubkey.as_deref(), Some(SIGNER_HEX));
}

#[test]
fn unknown_users_are_offered_nothing() {
    let state = state("https://goats.example", true);
    assert_eq!(
        refused(get_lnurlp_config(Some("goat"), &state)),
        (StatusCode::NotFound, "User `goat` not found!".to_string())
    );
    assert_eq!(
        refused(get_invoice(Some("goat"), &query(1_000), &state)),
        (StatusCode::NotFound, "User `goat` not found!".to_string())
    );
}

#[test]
fn offers_hold_the_callback_and_the_metadata_they_are_given() {
    let state = state("https://goats.example", false);
    let metadata = UserMetadata { comment_allowed: Some(3), ..UserMetadata::default() };
    let config = lnurlp_config_with(&state, &metadata, "c".to_string(), "m".to_string());
    assert_eq!(config.callback, "c");
    assert_eq!(config.metadata, "m");
    assert_eq!(config.comment_allowed, Some(3));
    assert!(!config.allows_nostr);
    assert_eq!(config.nostr_pubkey, None);
}

#[test]
fn invoices_commit_to_the_offered_metadata() {
    let state = state("https://goats.example", true);
    for user in [Some("herd"), Some("donate"), None] {
        let config = get_lnurlp_config(user, &state).unwrap();
        let request = get_invoice(user, &query(config.min_sendable), &state).unwrap();
        assert_eq!(request.description, config.metadata);
        assert_eq!(request.amount_msat, AmountOrAny::Amount(config.min_sendable));
        assert!(request.deschashonly);
        let shown = user.unwrap_or("__direct__");
        let (start, uuid) = request.label.rsplit_once(':').unwrap();
        assert_eq!(start, format!("clnaddress:v1:{shown}"));
        assert!(is_uuid(uuid));
    }
}

#[test]
fn comments_do_not_change_the_description() {
    let state = state("https://goats.example", false);
    let without = get_invoice(Some("donate"), &query(2_000), &state).unwrap();
    let with = get_invoice(
        Some("donate"),
        &InvoiceQueryParams { comment: Some("goats".to_string()), ..query(2_000) },
        &state,
    )
    .unwrap();
    assert_eq!(with.description, without.description);
    assert_eq!(
        refused(get_invoice(
            Some("donate"),
            &InvoiceQueryParams { comment: Some("goats!".to_string()), ..query(2_000) },
            &state,
        )),
        (StatusCode::BadRequest, "`comment` exceeds maximum length: 6>5".to_string())
    );
    assert_eq!(
        refused(get_invoice(
            Some("herd"),
            &InvoiceQueryParams { comment: Some("x".to_string()), ..query(2_000) },
            &state,
        )),
        (StatusCode::BadRequest, "`comment` exceeds maximum length: 1>0".to_string())
    );
}

#[test]
fn amounts_outside_the_offer_are_refused() {
    let state = state("https://goats.example", false);
    assert_eq!(
        refused(get_invoice(Some("donate"), &query(5_001), &state)).1,
        "`amount` above maximum: 5001>5000"
    );
    assert_eq!(
        refused(get_invoice(None, &query(999), &state)).1,
        "`amount` below minimum: 999<1000"
    );
}

#[test]
fn no_amount_asks_for_any_amount() {
    let request = invoice_request(0, "d".to_string(), "l".to_string());
    assert_eq!(request.amount_msat, AmountOrAny::Any);
    assert_eq!(request.description, "d");
    assert_eq!(request.label, "l");
    assert!(request.deschashonly);
    let request = invoice_request(1, "d".to_string(), "l".to_string());
    assert_eq!(request.amount_msat, AmountOrAny::Amount(1));
}

#[test]
fn zap_invoices_commit_to_the_zap_request() {
    let state = state("https://goats.example", true);
    let raw = zap_request(
        9734,
        vec![vec!["p", SIGNER_HEX], vec!["amount", "2000"], vec!["P", SIGNER_HEX]],
    );
    for user in [Some("herd"), None] {
        let request = get_invoice(
            user,
            &InvoiceQueryParams { nostr: Some(raw.clone()), ..query(2_000) },
            &state,
        )
        .unwrap();
        assert_eq!(request.description, raw);
    }
}

#[test]
fn zap_requests_are_written_anew() {
    let raw = zap_request(9734, vec![vec!["p", SIGNER_HEX]]);
    let spaced = raw.replacen("{", "{ ", 1);
    assert_ne!(spaced, raw);
    assert_eq!(describe_zap(&spaced, 5, &signer()).unwrap(), raw);
}

#[test]
fn disabled_zaps_are_refused() {
    let raw = zap_request(9734, vec![vec!["p", SIGNER_HEX]]);
    let with = state("https://goats.example", true);
    let without = state("https://goats.example", false);
    let disabled = "Nostr Zaps are disabled for this Lightning Address".to_string();
    for (user, state) in [(Some("donate"), &with), (Some("herd"), &without), (None, &without)] {
        assert_eq!(
            refused(get_invoice(
                user,
                &InvoiceQueryParams { nostr: Some(raw.clone()), ..query(2_000) },
                state,
            )),
            (StatusCode::BadRequest, disabled.clone())
        );
    }
}

#[test]
fn zap_requests_that_are_no_events_are_refused() {
    let state = state("https://goats.example", true);
    let (code, _) = refused(get_invoice(
        Some("herd"),
        &InvoiceQueryParams { nostr: Some("goat".to_string()), ..query(2_000) },
        &state,
    ));
    assert_eq!(code, StatusCode::BadRequest);
}

#[test]
fn forged_zap_requests_are_refused() {
    let raw = zap_request(9734, vec![vec!["p", SIGNER_HEX]]);
    let forged = raw.replace("Zap!", "Zap?");
    assert_eq!(
        refused(describe_zap(&forged, 5, &signer())).1,
        "Invalid event ID"
    );
}

#[test]
fn unsound_zap_requests_are_refused() {
    let raw = zap_request(9734, vec![vec!["p", SIGNER_HEX], vec!["amount", "6"]]);
    assert_eq!(
        refused(describe_zap(&raw, 5, &signer())),
        (
            StatusCode::BadRequest,
            "Zap request amount does not match query amount: 5!=6".to_string()
        )
    );
    let raw = zap_request(1, vec![vec!["p", SIGNER_HEX]]);
    assert_eq!(refused(describe_zap(&raw, 5, &signer())).1, "Zap request has wrong kind: 1");
}

#[test]
fn zaps_are_described_by_what_came_of_reading_them() {
    let event = Event {
        id: [0; 32],
        pubkey: [1; 32],
        created_at: 0,
        kind: 9734,
        tags: vec![vec!["p".to_string(), "x".to_string()]],
        content: String::new(),
        sig: [2; 64],
    };
    let keys = signer();
    assert_eq!(describe_zap_with(&event, Ok(()), Ok("json".to_string()), 1, &keys).unwrap(), "json");
    assert_eq!(
        refused(describe_zap_with(&event, Err("bad".to_string()), Ok("json".to_string()), 1, &keys)),
        (StatusCode::BadRequest, "bad".to_string())
    );
    assert_eq!(
        refused(describe_zap_with(&event, Ok(()), Err("worse".to_string()), 1, &keys)),
        (StatusCode::BadRequest, "worse".to_string())
    );
}

#[test]
fn payers_are_answered_with_the_invoice() {
    let callback = answer_invoice(Ok("lnbc1".to_string())).unwrap();
    assert_eq!(callback.pr, "lnbc1");
    assert!(callback.routes.is_empty());
    assert_eq!(
        refused(answer_invoice(Err("node is gone".to_string()))),
        (StatusCode::InternalServerError, "node is gone".to_string())
    );
}
