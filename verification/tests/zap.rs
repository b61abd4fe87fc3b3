use clnaddress::event::{Event, ZapperKeys};
use clnaddress::zap::{verify_zap_request, zap_relays, ZapRequestError};

const KEY: &str = "79be667ef9dcbbac55a06295ce870b07029bfcdb2dce28d959f2815b16f81798";
const OTHER_KEY: &str = "c6047f9441ed7d6d3045406e95c07cd85c778e4b8cef3ca7abac09b95c709ee5";

fn signer() -> ZapperKeys {
    ZapperKeys {
        secret_key: "0000000000000000000000000000000000000000000000000000000000000001".to_string(),
        public_key: nostr::key::PublicKey::from_hex(KEY).unwrap().to_bytes(),
    }
}

fn request(kind: u16, tags: Vec<Vec<&str>>) -> Event {
    Event {
        id: [0; 32],
        pubkey: [1; 32],
        created_at: 0,
        kind,
        tags: tags
            .into_iter()
            .map(|tag| tag.into_iter().map(|text| text.to_string()).collect())
            .collect(),
        content: String::new(),
        sig: [2; 64],
    }
}

fn check(tags: Vec<Vec<&str>>) -> Result<(), ZapRequestError> {
    verify_zap_request(&request(9734, tags), 1000, &signer())
}

#[test]
fn one_recipient_is_enough() {
    assert_eq!(check(vec![vec!["p", "anyone"]]), Ok(()));
}

#[test]
fn other_kinds_are_no_zap_requests() {
    assert_eq!(
        verify_zap_request(&request(9735, vec![vec!["p", KEY]]), 1000, &signer()),
        Err(ZapRequestError::WrongKind(9735))
    );
}

#[test]
fn zap_requests_have_tags() {
    assert_eq!(check(vec![]), Err(ZapRequestError::NoTags));
}

#[test]
fn stated_amounts_agree_with_the_invoice() {
    assert_eq!(check(vec![vec!["amount", "1000"], vec!["p", KEY]]), Ok(()));
    assert_eq!(
        check(vec![vec!["amount", "1001"], vec!["p", KEY]]),
        Err(ZapRequestError::AmountMismatch { amount: 1000, millisats: 1001 })
    );
    assert_eq!(check(vec![vec!["amount", "many"], vec!["p", KEY]]), Ok(()));
    assert_eq!(check(vec![vec!["amount"], vec!["p", KEY]]), Ok(()));
}

#[test]
fn recipients_are_neither_missing_nor_many() {
    assert_eq!(check(vec![vec!["e", "x"]]), Err(ZapRequestError::NotOneRecipient));
    assert_eq!(
        check(vec![vec!["p", KEY], vec!["p", KEY]]),
        Err(ZapRequestError::NotOneRecipient)
    );
}

#[test]
fn at_most_one_event_is_zapped() {
    assert_eq!(check(vec![vec!["e", "x"], vec!["p", KEY]]), Ok(()));
    assert_eq!(
        check(vec![vec!["e", "x"], vec!["e", "y"], vec!["p", KEY]]),
        Err(ZapRequestError::ManyEvents)
    );
}

#[test]
fn coordinates_are_a_kind_a_key_and_an_identifier() {
    let with_identifier = format!("30023:{KEY}:goats");
    let without_identifier = format!("30023:{KEY}");
    let too_long = format!("30023:{KEY}:goats:more");
    let wrong_kind = format!("65536:{KEY}:goats");
    for (coordinate, outcome) in [
        (with_identifier.as_str(), Ok(())),
        (without_identifier.as_str(), Ok(())),
        (too_long.as_str(), Err(ZapRequestError::InvalidCoordinate)),
        ("30023", Err(ZapRequestError::InvalidCoordinate)),
        (wrong_kind.as_str(), Err(ZapRequestError::InvalidKind)),
        (":", Err(ZapRequestError::InvalidKind)),
        ("1:key", Err(ZapRequestError::InvalidPubkey)),
    ] {
        assert_eq!(check(vec![vec!["a", coordinate], vec!["p", KEY]]), outcome);
    }
    assert_eq!(check(vec![vec!["a"], vec!["p", KEY]]), Err(ZapRequestError::MissingCoordinate));
}

#[test]
fn a_named_signer_is_the_one_of_the_server() {
    let upper = KEY.to_uppercase();
    assert_eq!(check(vec![vec!["p", "x"], vec!["P", KEY]]), Ok(()));
    assert_eq!(check(vec![vec!["p", "x"], vec!["P", &upper]]), Ok(()));
    assert_eq!(
        check(vec![vec!["p", "x"], vec!["P", OTHER_KEY]]),
        Err(ZapRequestError::WrongSigner)
    );
    assert_eq!(check(vec![vec!["p", "x"], vec!["P"]]), Err(ZapRequestError::MissingSigner));
    assert_eq!(
        check(vec![vec!["p", "x"], vec!["P", "key"]]),
        Err(ZapRequestError::InvalidPubkey)
    );
    assert_eq!(
        check(vec![vec!["p", "x"], vec!["P", KEY], vec!["P", KEY]]),
        Err(ZapRequestError::ManySigners)
    );
}

#[test]
fn the_first_faulty_tag_decides() {
    assert_eq!(
        check(vec![vec!["a"], vec!["amount", "1"]]),
        Err(ZapRequestError::MissingCoordinate)
    );
    assert_eq!(
        check(vec![vec!["amount", "1"], vec!["a"]]),
        Err(ZapRequestError::AmountMismatch { amount: 1000, millisats: 1 })
    );
}

#[test]
fn longer_names_are_no_letters() {
    assert_eq!(check(vec![vec!["p", KEY], vec!["pp", KEY], vec!["", KEY]]), Ok(()));
}

#[test]
fn faults_of_zap_requests_are_said() {
    for (fault, text) in [
        (ZapRequestError::WrongKind(1), "Zap request has wrong kind: 1"),
        (ZapRequestError::NoTags, "Zap request MUST have tags"),
        (
            ZapRequestError::AmountMismatch { amount: 10, millisats: 20 },
            "Zap request amount does not match query amount: 10!=20",
        ),
        (ZapRequestError::MissingCoordinate, "Missing value in `a` tag"),
        (ZapRequestError::InvalidCoordinate, "Invalid `a` tag format"),
        (ZapRequestError::InvalidKind, "Invalid kind"),
        (ZapRequestError::InvalidPubkey, "Invalid pubkey"),
        (ZapRequestError::ManyEvents, "Zap request MUST have 0 or 1 e tags"),
        (ZapRequestError::NotOneRecipient, "Zap request MUST have only one p tag"),
        (ZapRequestError::MissingSigner, "Missing value in `P` tag"),
        (ZapRequestError::ManySigners, "Zap request has too many `P` tags"),
        (ZapRequestError::WrongSigner, "Zap request has wrong `P` tag"),
    ] {
        assert_eq!(fault.message(), text);
    }
}

#[test]
fn relays_are_collected_from_all_tags() {
    let event = request(
        9734,
        vec![
            vec!["relays", "wss://one.example", "wss://two.example"],
            vec!["p", KEY],
            vec!["relays"],
            vec!["relays", "wss://three.example"],
            vec!["relays", "wss://four.example", "not a relay"],
        ],
    );
    assert_eq!(
        zap_relays(&event),
        vec!["wss://one.example", "wss://two.example", "wss://three.example"]
    );
    assert!(zap_relays(&request(9734, vec![vec!["p", KEY]])).is_empty());
}

#[test]
fn keys_are_the_first_digits_of_an_even_number() {
    let longer = format!("{KEY}00");
    let odd = format!("{KEY}0");
    let tail = format!("{KEY}zz");
    assert_eq!(check(vec![vec!["p", "x"], vec!["P", &longer]]), Ok(()));
    for refused in [odd.as_str(), tail.as_str(), &KEY[..62], ""] {
        assert_eq!(
            check(vec![vec!["p", "x"], vec!["P", refused]]),
            Err(ZapRequestError::InvalidPubkey)
        );
    }
}
