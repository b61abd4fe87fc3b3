use clnaddress::event::{Event, ZapperKeys};
use clnaddress::receipt::{
    after_save, classify_payment, classify_payment_with, index_to_save, next_pay_index,
    publish_receipt, zap_receipt_sender, PaidInvoice, Payment, Sender, SenderAction, SenderEvent,
    SenderPhase, SenderStep,
};
use clnaddress::base_url::BaseUrl;
use clnaddress::startup::load_nostr_zapper_keys;
use clnaddress::state::PluginState;
use clnaddress::users::Users;
use nostr::event::FinalizeEvent;

const SIGNER_SECRET: &str = "0000000000000000000000000000000000000000000000000000000000000001";
const SIGNER_HEX: &str = "79be667ef9dcbbac55a06295ce870b07029bfcdb2dce28d959f2815b16f81798";
const PAYER_SECRET: &str = "0000000000000000000000000000000000000000000000000000000000000002";
const PAYER_HEX: &str = "c6047f9441ed7d6d3045406e95c07cd85c778e4b8cef3ca7abac09b95c709ee5";

fn signer() -> ZapperKeys {
    match load_nostr_zapper_keys(Some(SIGNER_SECRET.to_string()), None) {
        Ok(Some(keys)) => keys,
        _ => panic!("refused"),
    }
}

fn zap_request() -> String {
    let keys = nostr::key::Keys::parse(PAYER_SECRET).unwrap();
    let tags: Vec<nostr::event::Tag> = vec![
        vec!["relays", "wss://relay.example"],
        vec!["p", SIGNER_HEX, "first"],
        vec!["e", PAYER_HEX],
    ]
    .into_iter()
    .map(|tag| nostr::event::Tag::parse(tag).unwrap())
    .collect();
    nostr::event::EventBuilder::new(nostr::event::Kind::from_u16(9734), "Zap!")
        .tags(tags)
        .finalize(&keys)
        .unwrap()
        .as_json()
}

fn paid(description: Option<&str>) -> PaidInvoice {
    PaidInvoice {
        pay_index: Some(7),
        description: description.map(|text| text.to_string()),
        bolt11: Some("lnbc1".to_string()),
        payment_preimage: Some([0xab; 32]),
    }
}

#[test]
fn the_index_follows_the_paid_invoices() {
    assert_eq!(next_pay_index(3, Some(9)), 9);
    assert_eq!(next_pay_index(3, Some(2)), 2);
    assert_eq!(next_pay_index(3, None), 4);
    assert_eq!(next_pay_index(u64::MAX, None), u64::MAX);
}

#[test]
fn a_failed_wait_is_tried_again() {
    let step = zap_receipt_sender(5, Err("node is gone".to_string()), &signer());
    assert_eq!(step.lastpay_index, 5);
    assert!(matches!(step.action, SenderAction::Retry(said) if said == "node is gone"));
}

#[test]
fn payments_that_are_no_zaps_get_no_receipt() {
    for description in [None, Some("goats"), Some("[[\"text/plain\",\"Thank you\"]]")] {
        let step = zap_receipt_sender(5, Ok(paid(description)), &signer());
        assert_eq!(step.lastpay_index, 7);
        assert!(matches!(step.action, SenderAction::Ordinary));
    }
}

#[test]
fn incomplete_zaps_get_no_receipt() {
    let raw = zap_request();
    let no_bolt11 = PaidInvoice { bolt11: None, ..paid(Some(&raw)) };
    assert!(matches!(classify_payment(no_bolt11), Payment::MissingBolt11));
    let no_preimage = PaidInvoice { payment_preimage: None, ..paid(Some(&raw)) };
    assert!(matches!(classify_payment(no_preimage), Payment::MissingPreimage));
    let neither = PaidInvoice { bolt11: None, payment_preimage: None, ..paid(Some(&raw)) };
    let step = zap_receipt_sender(5, Ok(PaidInvoice { pay_index: None, ..neither }), &signer());
    assert_eq!(step.lastpay_index, 6);
    assert!(matches!(step.action, SenderAction::MissingBolt11));
    let no_preimage = PaidInvoice { payment_preimage: None, ..paid(Some(&raw)) };
    let step = zap_receipt_sender(5, Ok(no_preimage), &signer());
    assert!(matches!(step.action, SenderAction::MissingPreimage));
}

#[test]
fn paid_zaps_are_that_zap() {
    let raw = zap_request();
    match classify_payment(paid(Some(&raw))) {
        Payment::Zap { bolt11, preimage, request } => {
            assert_eq!(bolt11, "lnbc1");
            assert_eq!(preimage, [0xab; 32]);
            assert_eq!(request.kind, 9734);
            assert_eq!(request.content, "Zap!");
            assert_eq!(request.tags[1], vec!["p", SIGNER_HEX, "first"]);
        }
        other => panic!("{other:?}"),
    }
    assert!(matches!(classify_payment_with(paid(Some(&raw)), None), Payment::Ordinary));
}

#[test]
fn receipts_are_signed_and_published() {
    let raw = zap_request();
    let step = zap_receipt_sender(5, Ok(paid(Some(&raw))), &signer());
    assert_eq!(step.lastpay_index, 7);
    let (receipt, relays) = match step.action {
        SenderAction::Publish { receipt, relays } => (receipt, relays),
        other => panic!("{other:?}"),
    };
    assert_eq!(relays, vec!["wss://relay.example"]);
    let receipt = nostr::event::Event::from_json(receipt).unwrap();
    receipt.verify().unwrap();
    assert_eq!(receipt.kind.as_u16(), 9735);
    assert_eq!(receipt.content, "");
    assert_eq!(receipt.pubkey.to_hex(), SIGNER_HEX);
    let preimage = format!("\"{}\"", "ab".repeat(32));
    let tags: Vec<Vec<String>> =
        receipt.tags.to_vec().into_iter().map(|tag| tag.to_vec()).collect();
    assert_eq!(
        tags,
        vec![
            vec!["bolt11", "lnbc1"],
            vec!["description", raw.as_str()],
            vec!["preimage", preimage.as_str()],
            vec!["e", PAYER_HEX],
            vec!["p", SIGNER_HEX, "first"],
            vec!["P", PAYER_HEX],
        ]
    );
}

#[test]
fn receipts_that_cannot_be_signed_are_not_published() {
    let raw = zap_request();
    let keys = ZapperKeys { secret_key: "goat".to_string(), public_key: [0; 32] };
    let step = zap_receipt_sender(5, Ok(paid(Some(&raw))), &keys);
    assert!(matches!(step.action, SenderAction::Unsigned(_)));
}

#[test]
fn receipts_go_to_the_relays_of_the_request() {
    let request = Event {
        id: [0; 32],
        pubkey: [1; 32],
        created_at: 0,
        kind: 9734,
        tags: vec![vec!["relays".to_string(), "wss://relay.example".to_string()]],
        content: String::new(),
        sig: [2; 64],
    };
    match publish_receipt(Ok("json".to_string()), &request) {
        SenderAction::Publish { receipt, relays } => {
            assert_eq!(receipt, "json");
            assert_eq!(relays, vec!["wss://relay.example"]);
        }
        other => panic!("{other:?}"),
    }
    match publish_receipt(Err("no".to_string()), &request) {
        SenderAction::Unsigned(said) => assert_eq!(said, "no"),
        other => panic!("{other:?}"),
    }
}

fn state(keys: Option<ZapperKeys>) -> PluginState {
    PluginState {
        rpc_path: "/run/lightning-rpc".to_string(),
        max_sendable_msat: 100_000,
        min_sendable_msat: 1_000,
        default_description: "Thank you".to_string(),
        users: Users::new(),
        plugin_dir: "/var/clnaddress".to_string(),
        base_url: BaseUrl::parse("https://goats.example".to_string()).unwrap(),
        nostr_zapper_keys: keys,
        payindex: 5,
        listen_address: "127.0.0.1:9797".to_string(),
    }
}

fn sender() -> Sender {
    Sender::start(&state(Some(signer()))).ok().unwrap()
}

#[test]
fn senders_need_keys() {
    assert_eq!(
        Sender::start(&state(None)).err().unwrap(),
        "zap receipt sender started without configured Nostr keys"
    );
    let sender = sender();
    assert_eq!(sender.keys.secret_key, SIGNER_SECRET);
    assert!(matches!(sender.phase, SenderPhase::Waiting { lastpay_index: 5 }));
}

#[test]
fn the_index_is_saved_before_a_receipt_is_published() {
    let raw = zap_request();
    let sender = sender().advance(SenderEvent::Waited(Ok(paid(Some(&raw)))));
    assert!(matches!(&sender.phase, SenderPhase::Saving { step } if step.lastpay_index == 7));
    let sender = sender.advance(SenderEvent::Saved(Ok(())));
    assert!(matches!(
        &sender.phase,
        SenderPhase::Acting { lastpay_index: 7, action: SenderAction::Publish { .. } }
    ));
    let sender = sender.advance(SenderEvent::Acted);
    assert!(matches!(sender.phase, SenderPhase::Waiting { lastpay_index: 7 }));
}

#[test]
fn nothing_is_saved_after_a_failed_wait() {
    let sender = sender().advance(SenderEvent::Waited(Err("node is gone".to_string())));
    assert!(matches!(
        &sender.phase,
        SenderPhase::Acting { lastpay_index: 5, action: SenderAction::Retry(_) }
    ));
    let sender = sender.advance(SenderEvent::Acted);
    assert!(matches!(sender.phase, SenderPhase::Waiting { lastpay_index: 5 }));
}

#[test]
fn senders_stop_where_saving_fails() {
    let sender = sender().advance(SenderEvent::Waited(Ok(paid(None))));
    let sender = sender.advance(SenderEvent::Saved(Err("disk is full".to_string())));
    assert!(matches!(&sender.phase, SenderPhase::Stopped(said) if said == "disk is full"));
    let sender = sender.advance(SenderEvent::Acted);
    assert!(matches!(&sender.phase, SenderPhase::Stopped(said) if said == "disk is full"));
}

#[test]
fn events_that_were_not_asked_for_change_nothing() {
    let sender = sender().advance(SenderEvent::Acted).advance(SenderEvent::Saved(Ok(())));
    assert!(matches!(sender.phase, SenderPhase::Waiting { lastpay_index: 5 }));
}

#[test]
fn steps_say_what_is_saved_and_done() {
    let step = SenderStep { lastpay_index: 9, action: SenderAction::Ordinary };
    assert_eq!(index_to_save(&step), Some(9));
    assert!(matches!(after_save(step, Ok(())), Ok(SenderAction::Ordinary)));
    let step = SenderStep { lastpay_index: 9, action: SenderAction::Retry("x".to_string()) };
    assert_eq!(index_to_save(&step), None);
    assert_eq!(after_save(step, Err("disk".to_string())).unwrap_err(), "disk");
}
