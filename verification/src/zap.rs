//! Zap requests: which of them an invoice may be made for, and which relays
//! their receipts go to.

use vstd::prelude::*;
use vstd::string::*;

use crate::event::{
    key_of_hex, law_keys_are_hexadecimal, law_letters_are_names_of_one_letter,
    lemma_key_hex_round_trip, lower_hex, nip57_tag, parse_nip57_tag, parse_single_letter,
    public_key_from_hex, same_key, single_letter, stated_amount, Event, Nip57Tag, Nip57TagView,
    ZapperKeys,
};
use crate::text::{
    decimal, digits, law_decimal_is_read_back, law_only_digits_are_numbers,
    law_split_is_undone_by_joining,
    law_written_number_has_its_value, lemma_split_first, lemma_split_single, parse_unsigned,
    push_number, rejoined, split, split_string, unsigned_value,
};

verus! {

/// The kind of event that a zap request is.
pub const ZAP_REQUEST_KIND: u16 = 9734;

/// Why a zap request is refused.
#[derive(Debug, Clone, Copy, PartialEq, Eq, Structural)]
pub enum ZapRequestError {
    /// It is an event of another kind.
    WrongKind(u16),
    /// It has no tags.
    NoTags,
    /// An amount tag states another amount than the one asked for.
    AmountMismatch { amount: u64, millisats: u64 },
    /// An `a` tag has no value.
    MissingCoordinate,
    /// The value of an `a` tag is not of two or three parts.
    InvalidCoordinate,
    /// The first part of an `a` tag is not a kind.
    InvalidKind,
    /// A key is not hexadecimal.
    InvalidPubkey,
    /// It has more than one `e` tag.
    ManyEvents,
    /// It has no `p` tag, or more than one.
    NotOneRecipient,
    /// The `P` tag has no value.
    MissingSigner,
    /// It has more than one `P` tag.
    ManySigners,
    /// The `P` tag names another key than the one that receipts are signed with.
    WrongSigner,
}

impl ZapRequestError {
    /// What is said of this error.
    pub open spec fn text(self) -> Seq<char> {
        match self {
            ZapRequestError::WrongKind(kind) => "Zap request has wrong kind: "@ + decimal(
                kind as nat,
            ),
            ZapRequestError::NoTags => "Zap request MUST have tags"@,
            ZapRequestError::AmountMismatch { amount, millisats } =>
                "Zap request amount does not match query amount: "@ + decimal(amount as nat)
                + "!="@ + decimal(millisats as nat),
            ZapRequestError::MissingCoordinate => "Missing value in `a` tag"@,
            ZapRequestError::InvalidCoordinate => "Invalid `a` tag format"@,
            ZapRequestError::InvalidKind => "Invalid kind"@,
            ZapRequestError::InvalidPubkey => "Invalid pubkey"@,
            ZapRequestError::ManyEvents => "Zap request MUST have 0 or 1 e tags"@,
            ZapRequestError::NotOneRecipient => "Zap request MUST have only one p tag"@,
            ZapRequestError::MissingSigner => "Missing value in `P` tag"@,
            ZapRequestError::ManySigners => "Zap request has too many `P` tags"@,
            ZapRequestError::WrongSigner => "Zap request has wrong `P` tag"@,
        }
    }

    /// What is said of this error.
    pub fn message(&self) -> (r: String)
        ensures
            r@ == self.text(),
    {
        match self {
            ZapRequestError::WrongKind(kind) => {
                let mut out = "Zap request has wrong kind: ".to_owned();
                push_number(&mut out, *kind as u64, 10);
                out
            },
            ZapRequestError::NoTags => "Zap request MUST have tags".to_owned(),
            ZapRequestError::AmountMismatch { amount, millisats } => {
                let mut out = "Zap request amount does not match query amount: ".to_owned();
                push_number(&mut out, *amount, 10);
                out.append("!=");
                push_number(&mut out, *millisats, 10);
                out
            },
            ZapRequestError::MissingCoordinate => "Missing value in `a` tag".to_owned(),
            ZapRequestError::InvalidCoordinate => "Invalid `a` tag format".to_owned(),
            ZapRequestError::InvalidKind => "Invalid kind".to_owned(),
            ZapRequestError::InvalidPubkey => "Invalid pubkey".to_owned(),
            ZapRequestError::ManyEvents => "Zap request MUST have 0 or 1 e tags".to_owned(),
            ZapRequestError::NotOneRecipient => "Zap request MUST have only one p tag".to_owned(),
            ZapRequestError::MissingSigner => "Missing value in `P` tag".to_owned(),
            ZapRequestError::ManySigners => "Zap request has too many `P` tags".to_owned(),
            ZapRequestError::WrongSigner => "Zap request has wrong `P` tag".to_owned(),
        }
    }
}

/// Tag `i` is named by the one letter `letter`.
pub open spec fn lettered(tags: Seq<Seq<Seq<char>>>, i: int, letter: char) -> bool {
    tags[i].len() >= 1 && single_letter(tags[i][0]) == Some(letter)
}

/// A tag before `i` is named by the one letter `letter`.
pub open spec fn lettered_before(tags: Seq<Seq<Seq<char>>>, i: int, letter: char) -> bool {
    exists|j: int| 0 <= j < i && #[trigger] lettered(tags, j, letter)
}

/// What is wrong with an `a` tag: its first value is to be a kind and a key in
/// hexadecimal, and may be followed by an identifier, with colons between them.
pub open spec fn coordinate_fault(tag: Seq<Seq<char>>) -> Option<ZapRequestError> {
    if tag.len() < 2 {
        Some(ZapRequestError::MissingCoordinate)
    } else {
        let parts = split(tag[1], ':');
        if parts.len() < 2 || parts.len() > 3 {
            Some(ZapRequestError::InvalidCoordinate)
        } else if unsigned_value(parts[0], u16::MAX as nat) is None {
            Some(ZapRequestError::InvalidKind)
        } else if key_of_hex(parts[1]) is None {
            Some(ZapRequestError::InvalidPubkey)
        } else {
            None
        }
    }
}

/// What is wrong with tag `i`, given the tags before it.
pub open spec fn tag_fault(tags: Seq<Seq<Seq<char>>>, i: int, amount: u64) -> Option<
    ZapRequestError,
> {
    let stated = stated_amount(tags[i]);
    if stated is Some && stated->0 != amount {
        Some(ZapRequestError::AmountMismatch { amount, millisats: stated->0 as u64 })
    } else if lettered(tags, i, 'a') {
        coordinate_fault(tags[i])
    } else if lettered(tags, i, 'e') && lettered_before(tags, i, 'e') {
        Some(ZapRequestError::ManyEvents)
    } else if lettered(tags, i, 'p') && lettered_before(tags, i, 'p') {
        Some(ZapRequestError::NotOneRecipient)
    } else if lettered(tags, i, 'P') {
        if lettered_before(tags, i, 'P') {
            Some(ZapRequestError::ManySigners)
        } else if tags[i].len() < 2 {
            Some(ZapRequestError::MissingSigner)
        } else if key_of_hex(tags[i][1]) is None {
            Some(ZapRequestError::InvalidPubkey)
        } else {
            None
        }
    } else {
        None
    }
}

/// What is wrong with the first faulty tag from tag `i` on.
pub open spec fn first_tag_fault(tags: Seq<Seq<Seq<char>>>, i: int, amount: u64) -> Option<
    ZapRequestError,
>
    decreases tags.len() - i,
{
    if i >= tags.len() {
        None
    } else if tag_fault(tags, i, amount) is Some {
        tag_fault(tags, i, amount)
    } else {
        first_tag_fault(tags, i + 1, amount)
    }
}

/// Tag `i` names a key that is not `signer`.
pub open spec fn other_signer(tags: Seq<Seq<Seq<char>>>, i: int, signer: Seq<u8>) -> bool {
    lettered(tags, i, 'P') && key_of_hex(tags[i][1]) != Some(signer)
}

/// What is wrong with a zap request of kind `kind` with the tags `tags`, for an
/// invoice of `amount`, where receipts are signed by `signer`.
pub open spec fn zap_request_fault(
    kind: u16,
    tags: Seq<Seq<Seq<char>>>,
    amount: u64,
    signer: Seq<u8>,
) -> Option<ZapRequestError> {
    if kind != ZAP_REQUEST_KIND {
        Some(ZapRequestError::WrongKind(kind))
    } else if tags.len() == 0 {
        Some(ZapRequestError::NoTags)
    } else if first_tag_fault(tags, 0, amount) is Some {
        first_tag_fault(tags, 0, amount)
    } else if !lettered_before(tags, tags.len() as int, 'p') {
        Some(ZapRequestError::NotOneRecipient)
    } else if exists|i: int| 0 <= i < tags.len() && #[trigger] other_signer(tags, i, signer) {
        Some(ZapRequestError::WrongSigner)
    } else {
        None
    }
}

/// Nothing is wrong with a zap request: it is of the right kind; every amount
/// it states is `amount`; it has exactly one `p` tag, at most one `e` tag and at
/// most one `P` tag; every `a` tag is a coordinate; and a `P` tag names the key
/// that receipts are signed with.
pub open spec fn sound_zap_request(
    kind: u16,
    tags: Seq<Seq<Seq<char>>>,
    amount: u64,
    signer: Seq<u8>,
) -> bool {
    &&& kind == ZAP_REQUEST_KIND
    &&& forall|i: int|
        0 <= i < tags.len() ==> (#[trigger] stated_amount(tags[i]) matches Some(n) ==> n == amount)
    &&& lettered_once(tags, 'p')
    &&& !lettered_before(tags, tags.len() as int, 'e') || lettered_once(tags, 'e')
    &&& !lettered_before(tags, tags.len() as int, 'P') || lettered_once(tags, 'P')
    &&& forall|i: int|
        0 <= i < tags.len() && #[trigger] lettered(tags, i, 'a') ==> coordinate_fault(
            tags[i],
        ) is None
    &&& forall|i: int|
        0 <= i < tags.len() && #[trigger] lettered(tags, i, 'P') ==> tags[i].len() >= 2
            && key_of_hex(tags[i][1]) == Some(signer)
}

/// Exactly one tag is named by the one letter `letter`.
pub open spec fn lettered_once(tags: Seq<Seq<Seq<char>>>, letter: char) -> bool {
    exists|i: int|
        0 <= i < tags.len() && #[trigger] lettered(tags, i, letter) && (forall|j: int|
            0 <= j < tags.len() && #[trigger] lettered(tags, j, letter) ==> j == i)
}

proof fn lemma_no_tag_fault(tags: Seq<Seq<Seq<char>>>, i: int, amount: u64)
    requires
        0 <= i <= tags.len(),
    ensures
        first_tag_fault(tags, i, amount) is None <==> forall|k: int|
            i <= k < tags.len() ==> #[trigger] tag_fault(tags, k, amount) is None,
    decreases tags.len() - i,
{
    if i < tags.len() {
        lemma_no_tag_fault(tags, i + 1, amount);
    }
}

proof fn lemma_lettered_once(tags: Seq<Seq<Seq<char>>>, letter: char)
    ensures
        (forall|k: int|
            0 <= k < tags.len() && #[trigger] lettered(tags, k, letter) ==> !lettered_before(
                tags,
                k,
                letter,
            )) && lettered_before(tags, tags.len() as int, letter) <==> lettered_once(
            tags,
            letter,
        ),
{
    if lettered_before(tags, tags.len() as int, letter) {
        let i = choose|i: int| 0 <= i < tags.len() && #[trigger] lettered(tags, i, letter);
        if forall|k: int|
            0 <= k < tags.len() && #[trigger] lettered(tags, k, letter) ==> !lettered_before(
                tags,
                k,
                letter,
            ) {
            assert forall|j: int| 0 <= j < tags.len() && #[trigger] lettered(
                tags,
                j,
                letter,
            ) implies j == i by {
                assert(!lettered_before(tags, j, letter));
                assert(!lettered_before(tags, i, letter));
            }
        }
    }
}

/// A zap request is accepted exactly if it is sound.
pub proof fn law_zap_request_accepted_iff_sound(
    kind: u16,
    tags: Seq<Seq<Seq<char>>>,
    amount: u64,
    signer: Seq<u8>,
)
    ensures
        zap_request_fault(kind, tags, amount, signer) is None <==> sound_zap_request(
            kind,
            tags,
            amount,
            signer,
        ),
{
    lemma_no_tag_fault(tags, 0, amount);
    lemma_lettered_once(tags, 'p');
    lemma_lettered_once(tags, 'e');
    lemma_lettered_once(tags, 'P');
    if sound_zap_request(kind, tags, amount, signer) {
        assert forall|k: int| 0 <= k < tags.len() implies #[trigger] tag_fault(
            tags,
            k,
            amount,
        ) is None by {
            assert(stated_amount(tags[k]) matches Some(n) ==> n == amount);
        }
    }
    if zap_request_fault(kind, tags, amount, signer) is None {
        assert forall|k: int| 0 <= k < tags.len() implies (#[trigger] stated_amount(
            tags[k],
        ) matches Some(n) ==> n == amount) by {
            assert(tag_fault(tags, k, amount) is None);
        }
        assert forall|k: int| 0 <= k < tags.len() && #[trigger] lettered(
            tags,
            k,
            'a',
        ) implies coordinate_fault(tags[k]) is None by {
            assert(tag_fault(tags, k, amount) is None);
        }
        assert forall|k: int| 0 <= k < tags.len() && #[trigger] lettered(
            tags,
            k,
            'P',
        ) implies tags[k].len() >= 2 && key_of_hex(tags[k][1]) == Some(signer) by {
            assert(tag_fault(tags, k, amount) is None);
            assert(!other_signer(tags, k, signer));
        }
        assert(forall|k: int|
            0 <= k < tags.len() ==> #[trigger] tag_fault(tags, k, amount) is None);
        assert forall|k: int| 0 <= k < tags.len() && #[trigger] lettered(
            tags,
            k,
            'p',
        ) implies !lettered_before(tags, k, 'p') by {
            assert(tag_fault(tags, k, amount) is None);
        }
        assert forall|k: int| 0 <= k < tags.len() && #[trigger] lettered(
            tags,
            k,
            'e',
        ) implies !lettered_before(tags, k, 'e') by {
            assert(tag_fault(tags, k, amount) is None);
        }
        assert forall|k: int| 0 <= k < tags.len() && #[trigger] lettered(
            tags,
            k,
            'P',
        ) implies !lettered_before(tags, k, 'P') by {
            assert(tag_fault(tags, k, amount) is None);
        }
    }
}

fn check_coordinate(tag: &Vec<String>) -> (r: Result<(), ZapRequestError>)
    ensures
        match coordinate_fault(tag.deep_view()) {
            Some(fault) => r == Err::<(), ZapRequestError>(fault),
            None => r is Ok,
        },
{
    if tag.len() < 2 {
        return Err(ZapRequestError::MissingCoordinate);
    }
    let parts = split_string(tag[1].as_str(), ':');
    assert(parts@.len() == parts.deep_view().len());
    assert(tag.deep_view()[1] == tag@[1]@);
    if parts.len() < 2 || parts.len() > 3 {
        return Err(ZapRequestError::InvalidCoordinate);
    }
    assert(parts.deep_view()[0] == parts@[0]@);
    assert(parts.deep_view()[1] == parts@[1]@);
    if parse_unsigned(parts[0].as_str(), 65535).is_none() {
        return Err(ZapRequestError::InvalidKind);
    }
    if public_key_from_hex(parts[1].as_str()).is_none() {
        return Err(ZapRequestError::InvalidPubkey);
    }
    Ok(())
}

/// Accepts the zap requests with nothing wrong, for an invoice of `amount`.
pub fn verify_zap_request(event: &Event, amount: u64, nostr_zapper_keys: &ZapperKeys) -> (r: Result<
    (),
    ZapRequestError,
>)
    ensures
        match zap_request_fault(event.kind, event@.tags, amount, nostr_zapper_keys.public_key@) {
            Some(fault) => r == Err::<(), ZapRequestError>(fault),
            None => r is Ok,
        },
{
    if event.kind != ZAP_REQUEST_KIND {
        return Err(ZapRequestError::WrongKind(event.kind));
    }
    let ghost tags = event@.tags;
    assert(event.tags@.len() == tags.len());
    if event.tags.is_empty() {
        return Err(ZapRequestError::NoTags);
    }
    let mut e_tag = false;
    let mut p_tag = false;
    let mut big_p_tag: Option<[u8; 32]> = None;
    let ghost mut signer_at: int = 0;
    let mut i: usize = 0;
    while i < event.tags.len()
        invariant
            tags == event.tags.deep_view(),
            tags.len() == event.tags@.len(),
            i <= event.tags@.len(),
            event.kind == ZAP_REQUEST_KIND,
            tags == event@.tags,
            tags.len() > 0,
            first_tag_fault(tags, 0, amount) == first_tag_fault(tags, i as int, amount),
            e_tag == lettered_before(tags, i as int, 'e'),
            p_tag == lettered_before(tags, i as int, 'p'),
            big_p_tag is Some == lettered_before(tags, i as int, 'P'),
            big_p_tag matches Some(key) ==> 0 <= signer_at < i && lettered(tags, signer_at, 'P')
                && key_of_hex(tags[signer_at][1]) == Some(key@) && (forall|j: int|
                0 <= j < i && #[trigger] lettered(tags, j, 'P') ==> j == signer_at),
        decreases event.tags.len() - i,
    {
        let tag = &event.tags[i];
        assert(tags[i as int] == tag.deep_view());
        assert(tags[i as int].len() == tag@.len());
        if let Some(Nip57Tag::Amount(millisats)) = parse_nip57_tag(tag) {
            if amount != millisats {
                return Err(ZapRequestError::AmountMismatch { amount, millisats });
            }
        }
        if tag.len() > 0 {
            assert(tags[i as int][0] == tag@[0]@);
            match parse_single_letter(tag[0].as_str()) {
                Some('a') => {
                    check_coordinate(tag)?;
                },
                Some('e') => {
                    if e_tag {
                        return Err(ZapRequestError::ManyEvents);
                    }
                    e_tag = true;
                },
                Some('p') => {
                    if p_tag {
                        return Err(ZapRequestError::NotOneRecipient);
                    }
                    p_tag = true;
                },
                Some('P') => {
                    if big_p_tag.is_some() {
                        return Err(ZapRequestError::ManySigners);
                    }
                    if tag.len() < 2 {
                        return Err(ZapRequestError::MissingSigner);
                    }
                    assert(tags[i as int][1] == tag@[1]@);
                    match public_key_from_hex(tag[1].as_str()) {
                        Some(key) => {
                            big_p_tag = Some(key);
                            proof {
                                signer_at = i as int;
                            }
                        },
                        None => {
                            return Err(ZapRequestError::InvalidPubkey);
                        },
                    }
                },
                _ => {},
            }
        }
        proof {
            assert(tag_fault(tags, i as int, amount) is None);
            assert forall|letter: char|
                lettered_before(tags, i + 1, letter) == (lettered_before(tags, i as int, letter)
                    || lettered(tags, i as int, letter)) by {
                if lettered(tags, i as int, letter) {
                    assert(0 <= i < i + 1);
                }
            }
        }
        i = i + 1;
    }
    if !p_tag {
        return Err(ZapRequestError::NotOneRecipient);
    }
    if let Some(key) = big_p_tag {
        if !same_key(&key, &nostr_zapper_keys.public_key) {
            assert(other_signer(tags, signer_at, nostr_zapper_keys.public_key@));
            return Err(ZapRequestError::WrongSigner);
        }
    }
    Ok(())
}

/// The relays that `tag` lists.
pub open spec fn tag_relays(tag: Seq<Seq<char>>) -> Seq<Seq<char>> {
    match nip57_tag(tag) {
        Some(Nip57TagView::Relays(relays)) => relays,
        _ => Seq::empty(),
    }
}

/// The relays that the tags list, in the order in which they stand there.
pub open spec fn listed_relays(tags: Seq<Seq<Seq<char>>>) -> Seq<Seq<char>>
    decreases tags.len(),
{
    if tags.len() == 0 {
        Seq::empty()
    } else {
        listed_relays(tags.drop_last()) + tag_relays(tags.last())
    }
}

/// The relays that the receipt for `event` is to be published to.
pub fn zap_relays(event: &Event) -> (r: Vec<String>)
    ensures
        r.deep_view() == listed_relays(event@.tags),
{
    let ghost tags = event@.tags;
    let mut relays: Vec<String> = Vec::new();
    let mut i: usize = 0;
    assert(relays.deep_view() =~= listed_relays(tags.take(0)));
    while i < event.tags.len()
        invariant
            tags == event.tags.deep_view(),
            tags.len() == event.tags@.len(),
            i <= event.tags@.len(),
            relays.deep_view() == listed_relays(tags.take(i as int)),
        decreases event.tags.len() - i,
    {
        let tag = &event.tags[i];
        assert(tags[i as int] == tag.deep_view());
        assert(tags.take(i + 1).drop_last() =~= tags.take(i as int));
        let ghost before = relays.deep_view();
        if let Some(Nip57Tag::Relays(listed)) = parse_nip57_tag(tag) {
            let mut listed = listed;
            let ghost added = listed.deep_view();
            relays.append(&mut listed);
            assert(relays.deep_view() =~= before + added);
        } else {
            assert(before =~= before + Seq::<Seq<char>>::empty());
        }
        i = i + 1;
    }
    assert(tags.take(tags.len() as int) =~= tags);
    relays
}

/// The parts of a coordinate, with colons between them, are the parts that it is
/// taken apart into.
proof fn lemma_coordinate_parts(kind: Seq<char>, key: Seq<char>, identifier: Seq<char>)
    requires
        !kind.contains(':'),
        !key.contains(':'),
        !identifier.contains(':'),
    ensures
        split(kind + seq![':'] + key, ':') == seq![kind, key],
        split(kind + seq![':'] + key + seq![':'] + identifier, ':') == seq![kind, key, identifier],
{
    lemma_split_single(key, ':');
    lemma_split_first(kind, ':', key);
    assert(split(kind + seq![':'] + key, ':') =~= seq![kind, key]);
    lemma_split_single(identifier, ':');
    lemma_split_first(key, ':', identifier);
    let rest = key + seq![':'] + identifier;
    lemma_split_first(kind, ':', rest);
    assert(kind + seq![':'] + key + seq![':'] + identifier =~= kind + seq![':'] + rest);
    assert(split(kind + seq![':'] + rest, ':') =~= seq![kind, key, identifier]);
}

/// Nothing is wrong with an `a` tag exactly if its first value is a kind and a key
/// with a colon between them, or a kind, a key and an identifier with colons between
/// them, where the kind is a number up to 65535, the key is hexadecimal and none of
/// them holds a colon.
pub proof fn law_coordinates(tag: Seq<Seq<char>>)
    ensures
        coordinate_fault(tag) is None <==> tag.len() >= 2 && exists|
            kind: Seq<char>,
            key: Seq<char>,
            identifier: Seq<char>,
        |
            #![trigger kind + seq![':'] + key, identifier.contains(':')]
            {
                &&& tag[1] == kind + seq![':'] + key || tag[1] == kind + seq![':'] + key + seq![':']
                    + identifier
                &&& !kind.contains(':') && !key.contains(':') && !identifier.contains(':')
                &&& unsigned_value(kind, 65535) is Some
                &&& key_of_hex(key) is Some
            },
{
    if coordinate_fault(tag) is None {
        let parts = split(tag[1], ':');
        law_split_is_undone_by_joining(tag[1], ':');
        assert(!parts[0].contains(':') && !parts[1].contains(':'));
        reveal_with_fuel(rejoined, 3);
        if parts.len() == 2 {
            let none = Seq::<char>::empty();
            assert(parts.drop_last() =~= seq![parts[0]]);
            assert(tag[1] =~= parts[0] + seq![':'] + parts[1]);
            assert(!none.contains(':'));
        } else {
            assert(parts.drop_last().drop_last() =~= seq![parts[0]]);
            assert(parts.drop_last().last() == parts[1]);
            assert(rejoined(parts.drop_last(), ':') =~= parts[0] + seq![':'] + parts[1]);
            assert(tag[1] =~= parts[0] + seq![':'] + parts[1] + seq![':'] + parts[2]);
            assert(!parts[2].contains(':'));
        }
    }
    assert forall|kind: Seq<char>, key: Seq<char>, identifier: Seq<char>|
        #![trigger kind + seq![':'] + key, identifier.contains(':')]
        tag.len() >= 2 && (tag[1] == kind + seq![':'] + key || tag[1] == kind + seq![':'] + key
            + seq![':'] + identifier) && !kind.contains(':') && !key.contains(':')
            && !identifier.contains(':') && unsigned_value(kind, 65535) is Some && key_of_hex(
            key,
        ) is Some implies coordinate_fault(tag) is None by {
        lemma_coordinate_parts(kind, key, identifier);
    }
}

/// A coordinate of any kind of 16 bits and any key is accepted, with or without an
/// identifier.
pub proof fn law_every_kind_has_coordinates(
    tag: Seq<Seq<char>>,
    kind: u16,
    key: Seq<u8>,
    identifier: Seq<char>,
)
    requires
        tag.len() >= 2,
        key.len() == 32,
        !identifier.contains(':'),
        tag[1] == decimal(kind as nat) + ":"@ + lower_hex(key) || tag[1] == decimal(kind as nat)
            + ":"@ + lower_hex(key) + ":"@ + identifier,
    ensures
        coordinate_fault(tag) is None,
{
    let shown = decimal(kind as nat);
    let hex = lower_hex(key);
    assert(":"@ == seq![':']) by {
        reveal_strlit(":");
        assert(":"@ =~= seq![':']);
    }
    assert(unsigned_value(shown, 65535) is Some) by {
        law_decimal_is_read_back(kind as nat, 65535);
    }
    assert(key_of_hex(hex) is Some) by {
        lemma_key_hex_round_trip(key);
    }
    lemma_number_holds_no_colon(kind as nat);
    lemma_key_holds_no_colon(hex);
    lemma_coordinate_parts(shown, hex, identifier);
    let parts = split(tag[1], ':');
    assert(parts == seq![shown, hex] || parts == seq![shown, hex, identifier]);
    assert(parts[0] == shown && parts[1] == hex);
}

proof fn lemma_number_holds_no_colon(n: nat)
    ensures
        !decimal(n).contains(':'),
{
    law_written_number_has_its_value(n, 10);
    assert forall|i: int| 0 <= i < decimal(n).len() implies decimal(n)[i] != ':' by {
        assert(48 <= digits(n, 10)[i] < 58);
    }
}

proof fn lemma_key_holds_no_colon(s: Seq<char>)
    requires
        key_of_hex(s) is Some,
    ensures
        !s.contains(':'),
{
    law_keys_are_hexadecimal(s);
}

/// The zap requests that are accepted, spelled out: they are of kind 9734; every
/// amount that they state is the amount of the invoice; they have exactly one `p`
/// tag, at most one `e` tag and at most one `P` tag; nothing is wrong with an `a`
/// tag; and a `P` tag names the key that receipts are signed with.
pub proof fn law_accepted_zap_requests(
    kind: u16,
    tags: Seq<Seq<Seq<char>>>,
    amount: u64,
    signer: Seq<u8>,
)
    requires
        forall|i: int| 0 <= i < tags.len() ==> (#[trigger] tags[i]).len() >= 1,
    ensures
        zap_request_fault(kind, tags, amount, signer) is None <==> {
            &&& kind == 9734
            &&& forall|i: int|
                0 <= i < tags.len() && (#[trigger] tags[i])[0] == "amount"@ && tags[i].len() >= 2
                    ==> (unsigned_value(tags[i][1], 0xffff_ffff_ffff_ffff) matches Some(n) ==> n
                    == amount)
            &&& exists|i: int| 0 <= i < tags.len() && (#[trigger] tags[i])[0] == seq!['p']
            &&& forall|i: int, j: int|
                0 <= i < tags.len() && 0 <= j < tags.len() && (#[trigger] tags[i])[0]
                    == (#[trigger] tags[j])[0] && (tags[i][0] == seq!['p'] || tags[i][0]
                    == seq!['e'] || tags[i][0] == seq!['P']) ==> i == j
            &&& forall|i: int|
                0 <= i < tags.len() && (#[trigger] tags[i])[0] == seq!['a'] ==> coordinate_fault(
                    tags[i],
                ) is None
            &&& forall|i: int|
                0 <= i < tags.len() && (#[trigger] tags[i])[0] == seq!['P'] ==> tags[i].len() >= 2
                    && key_of_hex(tags[i][1]) == Some(signer)
        },
{
    law_zap_request_accepted_iff_sound(kind, tags, amount, signer);
    assert forall|i: int, c: char|
        0 <= i < tags.len() && (c == 'a' || c == 'e' || c == 'p' || c
            == 'P') implies #[trigger] lettered(tags, i, c) == (tags[i][0] == seq![c]) by {
        law_letters_are_names_of_one_letter(tags[i][0], c);
    }
    assert forall|i: int| 0 <= i < tags.len() implies #[trigger] stated_amount(tags[i]) == (
    if tags[i].len() >= 2 && tags[i][0] == "amount"@ {
        unsigned_value(tags[i][1], 0xffff_ffff_ffff_ffff)
    } else {
        None
    }) by {}
    let spelled = {
        &&& kind == 9734
        &&& forall|i: int|
            0 <= i < tags.len() && (#[trigger] tags[i])[0] == "amount"@ && tags[i].len() >= 2 ==> (
            unsigned_value(tags[i][1], 0xffff_ffff_ffff_ffff) matches Some(n) ==> n == amount)
        &&& exists|i: int| 0 <= i < tags.len() && (#[trigger] tags[i])[0] == seq!['p']
        &&& forall|i: int, j: int|
            0 <= i < tags.len() && 0 <= j < tags.len() && (#[trigger] tags[i])[0]
                == (#[trigger] tags[j])[0] && (tags[i][0] == seq!['p'] || tags[i][0] == seq!['e']
                || tags[i][0] == seq!['P']) ==> i == j
        &&& forall|i: int|
            0 <= i < tags.len() && (#[trigger] tags[i])[0] == seq!['a'] ==> coordinate_fault(
                tags[i],
            ) is None
        &&& forall|i: int|
            0 <= i < tags.len() && (#[trigger] tags[i])[0] == seq!['P'] ==> tags[i].len() >= 2
                && key_of_hex(tags[i][1]) == Some(signer)
    };
    if sound_zap_request(kind, tags, amount, signer) {
        assert forall|i: int|
            0 <= i < tags.len() && (#[trigger] tags[i])[0] == "amount"@ && tags[i].len() >= 2 implies (
        unsigned_value(tags[i][1], 0xffff_ffff_ffff_ffff) matches Some(n) ==> n == amount) by {
            assert(stated_amount(tags[i]) matches Some(n) ==> n == amount);
        }
        assert forall|i: int, j: int|
            0 <= i < tags.len() && 0 <= j < tags.len() && (#[trigger] tags[i])[0]
                == (#[trigger] tags[j])[0] && (tags[i][0] == seq!['p'] || tags[i][0] == seq!['e']
                || tags[i][0] == seq!['P']) implies i == j by {
            let c = if tags[i][0] == seq!['p'] {
                'p'
            } else if tags[i][0] == seq!['e'] {
                'e'
            } else {
                'P'
            };
            assert(lettered(tags, i, c));
            assert(lettered(tags, j, c));
            assert(lettered_before(tags, tags.len() as int, c));
            assert(lettered_once(tags, c));
        }
        let one = choose|i: int|
            0 <= i < tags.len() && #[trigger] lettered(tags, i, 'p') && (forall|j: int|
                0 <= j < tags.len() && #[trigger] lettered(tags, j, 'p') ==> j == i);
        assert(tags[one][0] == seq!['p']);
        assert forall|i: int| 0 <= i < tags.len() && (#[trigger] tags[i])[0] == seq![
            'a',
        ] implies coordinate_fault(tags[i]) is None by {
            assert(lettered(tags, i, 'a'));
        }
        assert forall|i: int| 0 <= i < tags.len() && (#[trigger] tags[i])[0] == seq![
            'P',
        ] implies tags[i].len() >= 2 && key_of_hex(tags[i][1]) == Some(signer) by {
            assert(lettered(tags, i, 'P'));
        }
        assert(spelled);
    }
    if spelled {
        assert forall|i: int| 0 <= i < tags.len() implies (#[trigger] stated_amount(
            tags[i],
        ) matches Some(n) ==> n == amount) by {
            assert(tags[i].len() >= 1);
        }
        assert forall|c: char|
            (c == 'p' || c == 'e' || c == 'P') && lettered_before(
                tags,
                tags.len() as int,
                c,
            ) implies #[trigger] lettered_once(tags, c) by {
            let i = choose|i: int| 0 <= i < tags.len() && #[trigger] lettered(tags, i, c);
            assert forall|j: int| 0 <= j < tags.len() && #[trigger] lettered(
                tags,
                j,
                c,
            ) implies j == i by {
                assert(tags[i][0] == tags[j][0]);
            }
        }
        let one = choose|i: int| 0 <= i < tags.len() && (#[trigger] tags[i])[0] == seq!['p'];
        assert(lettered(tags, one, 'p'));
        assert(lettered_once(tags, 'p'));
        assert(lettered_before(tags, tags.len() as int, 'e') ==> lettered_once(tags, 'e'));
        assert(lettered_before(tags, tags.len() as int, 'P') ==> lettered_once(tags, 'P'));
        assert(sound_zap_request(kind, tags, amount, signer));
    }
}

/// An event of another kind, and one without tags, is refused as that.
pub proof fn law_other_events_are_no_zap_requests(
    kind: u16,
    tags: Seq<Seq<Seq<char>>>,
    amount: u64,
    signer: Seq<u8>,
)
    ensures
        kind != 9734 ==> zap_request_fault(kind, tags, amount, signer) == Some(
            ZapRequestError::WrongKind(kind),
        ),
        kind == 9734 && tags.len() == 0 ==> zap_request_fault(kind, tags, amount, signer) == Some(
            ZapRequestError::NoTags,
        ),
{
}

/// The relays of some tags and of some more are the relays of them all, in that
/// order; one tag has the relays that it is read to list, if it is read to list
/// any.
pub proof fn law_relays_of_all_tags_are_listed(
    tags: Seq<Seq<Seq<char>>>,
    more: Seq<Seq<Seq<char>>>,
    tag: Seq<Seq<char>>,
)
    ensures
        listed_relays(tags + more) == listed_relays(tags) + listed_relays(more),
        nip57_tag(tag) matches Some(Nip57TagView::Relays(relays)) ==> listed_relays(seq![tag])
            == relays,
        !(nip57_tag(tag) matches Some(Nip57TagView::Relays(_))) ==> listed_relays(seq![tag]).len()
            == 0,
    decreases more.len(),
{
    assert(seq![tag].drop_last() =~= Seq::empty());
    assert(listed_relays(seq![tag].drop_last()).len() == 0);
    assert(listed_relays(seq![tag]) =~= tag_relays(tag));
    if more.len() == 0 {
        assert(tags + more =~= tags);
        assert(listed_relays(tags) + listed_relays(more) =~= listed_relays(tags));
    } else {
        law_relays_of_all_tags_are_listed(tags, more.drop_last(), tag);
        assert((tags + more).drop_last() =~= tags + more.drop_last());
        assert(listed_relays(tags + more) =~= listed_relays(tags) + listed_relays(more));
    }
}

proof fn lemma_first_tag_fault_is_of_a_tag(tags: Seq<Seq<Seq<char>>>, i: int, amount: u64) -> (k: int)
    requires
        0 <= i <= tags.len(),
        first_tag_fault(tags, i, amount) is Some,
    ensures
        i <= k < tags.len(),
        tag_fault(tags, k, amount) == first_tag_fault(tags, i, amount),
    decreases tags.len() - i,
{
    if tag_fault(tags, i, amount) is Some {
        i
    } else {
        lemma_first_tag_fault_is_of_a_tag(tags, i + 1, amount)
    }
}

/// What a zap request is refused for is true of it.
pub proof fn law_faults_of_zap_requests_are_true(
    kind: u16,
    tags: Seq<Seq<Seq<char>>>,
    amount: u64,
    signer: Seq<u8>,
)
    ensures
        zap_request_fault(kind, tags, amount, signer) matches Some(
            ZapRequestError::AmountMismatch { amount: asked, millisats },
        ) ==> asked == amount && millisats != amount && exists|i: int|
            0 <= i < tags.len() && #[trigger] stated_amount(tags[i]) == Some(millisats as nat),
        zap_request_fault(kind, tags, amount, signer) == Some(ZapRequestError::ManyEvents)
            ==> exists|i: int, j: int|
            0 <= i < j < tags.len() && #[trigger] lettered(tags, i, 'e') && #[trigger] lettered(
                tags,
                j,
                'e',
            ),
        zap_request_fault(kind, tags, amount, signer) == Some(ZapRequestError::ManySigners)
            ==> exists|i: int, j: int|
            0 <= i < j < tags.len() && #[trigger] lettered(tags, i, 'P') && #[trigger] lettered(
                tags,
                j,
                'P',
            ),
        zap_request_fault(kind, tags, amount, signer) == Some(ZapRequestError::NotOneRecipient)
            ==> !lettered_once(tags, 'p'),
        zap_request_fault(kind, tags, amount, signer) == Some(ZapRequestError::WrongSigner)
            ==> exists|i: int|
            0 <= i < tags.len() && #[trigger] lettered(tags, i, 'P') && key_of_hex(tags[i][1])
                is Some && key_of_hex(tags[i][1]) != Some(signer),
{
    lemma_no_tag_fault(tags, 0, amount);
    if kind == ZAP_REQUEST_KIND && tags.len() > 0 && first_tag_fault(tags, 0, amount) is Some {
        let k = lemma_first_tag_fault_is_of_a_tag(tags, 0, amount);
        let stated = stated_amount(tags[k]);
        if stated is Some && stated->0 != amount {
            assert(stated->0 <= 0xffff_ffff_ffff_ffff) by {
                law_only_digits_are_numbers(tags[k][1], 0xffff_ffff_ffff_ffff);
            }
            assert(stated_amount(tags[k]) == Some((stated->0 as u64) as nat));
        }
        if lettered(tags, k, 'p') && lettered_before(tags, k, 'p') {
            let j = choose|j: int| 0 <= j < k && #[trigger] lettered(tags, j, 'p');
            assert(lettered(tags, j, 'p') && lettered(tags, k, 'p') && j != k);
        }
    } else if zap_request_fault(kind, tags, amount, signer) == Some(ZapRequestError::WrongSigner) {
        let i = choose|i: int| 0 <= i < tags.len() && #[trigger] other_signer(tags, i, signer);
        assert(tag_fault(tags, i, amount) is None);
        assert(lettered(tags, i, 'P'));
    }
}

/// What is wrong with an `a` tag: first that it has no value, then that the value is
/// not of two or three parts, then its kind, then its key.
pub proof fn law_first_fault_of_a_coordinate(tag: Seq<Seq<char>>)
    ensures
        coordinate_fault(tag) == Some(ZapRequestError::MissingCoordinate) <==> tag.len() < 2,
        tag.len() >= 2 ==> (coordinate_fault(tag) == Some(ZapRequestError::InvalidCoordinate)
            <==> !(2 <= split(tag[1], ':').len() <= 3)),
        tag.len() >= 2 && 2 <= split(tag[1], ':').len() <= 3 ==> (coordinate_fault(tag) == Some(
            ZapRequestError::InvalidKind,
        ) <==> unsigned_value(split(tag[1], ':')[0], 65535) is None),
        coordinate_fault(tag) == Some(ZapRequestError::InvalidPubkey) ==> key_of_hex(
            split(tag[1], ':')[1],
        ) is None,
{
}

/// What an error says of a zap request holds the numbers that it is about.
pub proof fn law_errors_of_zap_requests_are_said(kind: u16, amount: u64, millisats: u64)
    ensures
        ZapRequestError::WrongKind(kind).text() == "Zap request has wrong kind: "@ + decimal(
            kind as nat,
        ),
        (ZapRequestError::AmountMismatch { amount, millisats }).text()
            == "Zap request amount does not match query amount: "@ + decimal(amount as nat) + "!="@
            + decimal(millisats as nat),
{
}

} // verus!
