//! Nostr events, keys and tags, as plain values. Parsing, checking and writing
//! them is the work of the `nostr` crate.

use vstd::prelude::*;

use crate::text::{decimal, law_decimal_is_read_back, unsigned_value};

verus! {

/// A signed Nostr event.
#[derive(Debug)]
pub struct Event {
    /// The hash of the event.
    pub id: [u8; 32],
    /// The author's key.
    pub pubkey: [u8; 32],
    /// When the event was made, in seconds of UNIX time.
    pub created_at: u64,
    /// What sort of event this is.
    pub kind: u16,
    /// The tags, each a name followed by its values.
    pub tags: Vec<Vec<String>>,
    /// The text of the event.
    pub content: String,
    /// The author's signature.
    pub sig: [u8; 64],
}

/// A Nostr event, over sequences.
pub struct EventView {
    pub id: Seq<u8>,
    pub pubkey: Seq<u8>,
    pub created_at: u64,
    pub kind: u16,
    pub tags: Seq<Seq<Seq<char>>>,
    pub content: Seq<char>,
    pub sig: Seq<u8>,
}

impl View for Event {
    type V = EventView;

    open spec fn view(&self) -> EventView {
        EventView {
            id: self.id@,
            pubkey: self.pubkey@,
            created_at: self.created_at,
            kind: self.kind,
            tags: self.tags.deep_view(),
            content: self.content@,
            sig: self.sig@,
        }
    }
}

/// Every tag has a name.
pub open spec fn named_tags(tags: Seq<Seq<Seq<char>>>) -> bool {
    forall|i: int| 0 <= i < tags.len() ==> (#[trigger] tags[i]).len() >= 1
}

/// What `nostr::event::Event::from_json` makes of `json`: the event, or what it
/// says against it.
pub uninterp spec fn event_from_json(json: Seq<char>) -> Result<EventView, Seq<char>>;

/// What `nostr::event::Event::verify` makes of `event`: nothing, or what it says
/// against its hash or its signature.
pub uninterp spec fn event_verification(event: EventView) -> Result<(), Seq<char>>;

/// What `nostr::event::Event::try_as_json` makes of `event`.
pub uninterp spec fn event_json(event: EventView) -> Result<Seq<char>, Seq<char>>;

/// `Event::from_json` reads `event` from `json`.
pub open spec fn reads_as(json: Seq<char>, event: EventView) -> bool {
    event_from_json(json) == Ok::<EventView, Seq<char>>(event)
}

/// The result of a call, with the error as a sequence of characters.
pub open spec fn unit_result_view(r: Result<(), String>) -> Result<(), Seq<char>> {
    match r {
        Ok(()) => Ok(()),
        Err(e) => Err(e@),
    }
}

/// The result of a call, over sequences of characters.
pub open spec fn text_result_view(r: Result<String, String>) -> Result<Seq<char>, Seq<char>> {
    match r {
        Ok(text) => Ok(text@),
        Err(e) => Err(e@),
    }
}

/// The result of a call, over views.
pub open spec fn event_result_view(r: Result<Event, String>) -> Result<EventView, Seq<char>> {
    match r {
        Ok(event) => Ok(event@),
        Err(e) => Err(e@),
    }
}

/// `nostr::event::Event::from_json`. The result is a function of the text alone;
/// a tag without a name is an error.
#[verifier::external_body]
pub(crate) fn parse_event(json: &str) -> (r: Result<Event, String>)
    ensures
        event_result_view(r) == event_from_json(json@),
        r matches Ok(event) ==> named_tags(event@.tags),
{
    let event = nostr::event::Event::from_json(json).map_err(|e| e.to_string())?;
    Ok(Event {
        id: event.id.to_bytes(),
        pubkey: event.pubkey.to_bytes(),
        created_at: event.created_at.as_secs(),
        kind: event.kind.as_u16(),
        tags: event.tags.to_vec().into_iter().map(|tag| tag.to_vec()).collect(),
        content: event.content,
        sig: event.sig.to_bytes(),
    })
}

/// `nostr::event::Event::verify`, which recomputes the hash and checks the
/// signature. The result is a function of the event alone.
#[verifier::external_body]
pub(crate) fn verify_event(event: &Event) -> (r: Result<(), String>)
    requires
        named_tags(event@.tags),
    ensures
        unit_result_view(r) == event_verification(event@),
{
    let tags = event.tags.iter().map(|tag| nostr::event::Tag::parse(tag.clone()).unwrap());
    nostr::event::Event::new(
        nostr::event::EventId::from_byte_array(event.id),
        nostr::key::PublicKey::from_byte_array(event.pubkey),
        nostr::types::Timestamp::from_secs(event.created_at),
        nostr::event::Kind::from_u16(event.kind),
        tags,
        event.content.clone(),
        nostr::event::Signature::from_byte_array(event.sig),
    ).verify().map_err(|e| e.to_string())
}

/// `nostr::event::Event::try_as_json`. The result is a function of the event
/// alone, and `Event::from_json` reads the event back from it.
#[verifier::external_body]
pub(crate) fn write_event(event: &Event) -> (r: Result<String, String>)
    requires
        named_tags(event@.tags),
    ensures
        text_result_view(r) == event_json(event@),
        r matches Ok(json) ==> reads_as(json@, event@),
{
    let tags = event.tags.iter().map(|tag| nostr::event::Tag::parse(tag.clone()).unwrap());
    nostr::event::Event::new(
        nostr::event::EventId::from_byte_array(event.id),
        nostr::key::PublicKey::from_byte_array(event.pubkey),
        nostr::types::Timestamp::from_secs(event.created_at),
        nostr::event::Kind::from_u16(event.kind),
        tags,
        event.content.clone(),
        nostr::event::Signature::from_byte_array(event.sig),
    ).try_as_json().map_err(|e| e.to_string())
}

/// The tags of a zap request that are read by their meaning.
#[derive(Debug)]
pub enum Nip57Tag {
    /// The relays that a receipt is to be published to.
    Relays(Vec<String>),
    /// The amount to be paid, in millisatoshi.
    Amount(u64),
    /// Any other tag of a zap.
    Other,
}

/// A tag of a zap request, over sequences.
pub enum Nip57TagView {
    Relays(Seq<Seq<char>>),
    Amount(u64),
    Other,
}

impl View for Nip57Tag {
    type V = Nip57TagView;

    open spec fn view(&self) -> Nip57TagView {
        match self {
            Nip57Tag::Relays(relays) => Nip57TagView::Relays(relays.deep_view()),
            Nip57Tag::Amount(millisats) => Nip57TagView::Amount(*millisats),
            Nip57Tag::Other => Nip57TagView::Other,
        }
    }
}

/// What `nostr::nips::nip57::Nip57Tag::parse` makes of `tag`, or nothing if it
/// refuses it.
pub uninterp spec fn nip57_tag(tag: Seq<Seq<char>>) -> Option<Nip57TagView>;

/// The amount that `tag` states: its name is `amount`, and its first value is
/// an unsigned 64-bit number.
pub open spec fn stated_amount(tag: Seq<Seq<char>>) -> Option<nat> {
    if tag.len() >= 2 && tag[0] == "amount"@ {
        unsigned_value(tag[1], u64::MAX as nat)
    } else {
        None
    }
}

/// `nostr::nips::nip57::Nip57Tag::parse`. The result is a function of the tag
/// alone; it is an amount exactly for a tag that states one.
#[verifier::external_body]
pub(crate) fn parse_nip57_tag(tag: &Vec<String>) -> (r: Option<Nip57Tag>)
    ensures
        nip57_tag(tag.deep_view()) == (match r {
            Some(parsed) => Some(parsed@),
            None => None,
        }),
        r matches Some(Nip57Tag::Amount(n)) ==> stated_amount(tag.deep_view()) == Some(n as nat),
        stated_amount(tag.deep_view()) is Some ==> r matches Some(Nip57Tag::Amount(_)),
{
    match nostr::nips::nip57::Nip57Tag::parse(tag) {
        Ok(nostr::nips::nip57::Nip57Tag::Relays(relays)) => {
            Some(Nip57Tag::Relays(relays.iter().map(|relay| relay.to_string()).collect()))
        },
        Ok(nostr::nips::nip57::Nip57Tag::Amount { millisats, bolt11: _ }) => {
            Some(Nip57Tag::Amount(millisats))
        },
        Ok(_) => Some(Nip57Tag::Other),
        Err(_) => None,
    }
}

/// The letter that `name` is, if it is one ASCII letter.
pub open spec fn single_letter(name: Seq<char>) -> Option<char> {
    if name.len() == 1 && ('a' <= name[0] <= 'z' || 'A' <= name[0] <= 'Z') {
        Some(name[0])
    } else {
        None
    }
}

/// `nostr::filter::SingleLetterTag::from_str`, which takes exactly the strings of
/// one ASCII letter and keeps its case.
#[verifier::external_body]
pub(crate) fn parse_single_letter(name: &str) -> (r: Option<char>)
    ensures
        r == single_letter(name@),
{
    name.parse::<nostr::filter::SingleLetterTag>().ok().map(|letter| letter.as_char())
}

/// A hexadecimal digit, of either case.
pub open spec fn is_hex(c: char) -> bool {
    '0' <= c <= '9' || 'a' <= c <= 'f' || 'A' <= c <= 'F'
}

/// The number that a hexadecimal digit denotes.
pub open spec fn hex_value(c: char) -> int {
    if '0' <= c <= '9' {
        c as int - '0' as int
    } else if 'a' <= c <= 'f' {
        c as int - 'a' as int + 10
    } else {
        c as int - 'A' as int + 10
    }
}

/// The 32 bytes that `s` gives in hexadecimal: an even number of digits, 64 at
/// least, of which the first 64 count.
pub open spec fn key_of_hex(s: Seq<char>) -> Option<Seq<u8>> {
    if s.len() >= 64 && s.len() % 2 == 0 && (forall|i: int|
        0 <= i < s.len() ==> is_hex(#[trigger] s[i])) {
        Some(
            Seq::new(32, |i: int| (16 * hex_value(s[2 * i]) + hex_value(s[2 * i + 1])) as u8),
        )
    } else {
        None
    }
}

/// `nostr::key::PublicKey::from_hex`, which decodes the first 64 of an even
/// number of hexadecimal digits of either case.
#[verifier::external_body]
pub(crate) fn public_key_from_hex(hex: &str) -> (r: Option<[u8; 32]>)
    ensures
        r matches Some(key) ==> key_of_hex(hex@) == Some(key@),
        r is None ==> key_of_hex(hex@) is None,
{
    nostr::key::PublicKey::from_hex(hex).ok().map(|key| key.to_bytes())
}

/// The lowercase hexadecimal digit for `d`, for `d` below sixteen.
pub open spec fn hex_char(d: int) -> char {
    if d < 10 {
        (48 + d) as char
    } else {
        (87 + d) as char
    }
}

/// `bytes` in lowercase hexadecimal, two digits each.
pub open spec fn lower_hex(bytes: Seq<u8>) -> Seq<char> {
    Seq::new(
        2 * bytes.len(),
        |i: int|
            if i % 2 == 0 {
                hex_char(bytes[i / 2] as int / 16)
            } else {
                hex_char(bytes[i / 2] as int % 16)
            },
    )
}

/// `nostr::key::PublicKey::to_hex`, which gives 64 lowercase hexadecimal digits.
#[verifier::external_body]
pub(crate) fn public_key_to_hex(key: &[u8; 32]) -> (r: String)
    ensures
        r@ == lower_hex(key@),
{
    nostr::key::PublicKey::from_byte_array(*key).to_hex()
}

/// A key written in hexadecimal is read back as it was.
pub proof fn lemma_key_hex_round_trip(key: Seq<u8>)
    requires
        key.len() == 32,
    ensures
        key_of_hex(lower_hex(key)) == Some(key),
{
    let hex = lower_hex(key);
    assert forall|i: int| 0 <= i < hex.len() implies is_hex(#[trigger] hex[i]) by {}
    let back = key_of_hex(hex)->0;
    assert forall|i: int| 0 <= i < 32 implies back[i] == key[i] by {
        assert((2 * i) / 2 == i && (2 * i) % 2 == 0);
        assert((2 * i + 1) / 2 == i && (2 * i + 1) % 2 == 1);
        assert(hex_value(hex[2 * i]) == key[i] as int / 16);
        assert(hex_value(hex[2 * i + 1]) == key[i] as int % 16);
    }
    assert(back =~= key);
}

/// The key pair that zap receipts are signed with.
pub struct ZapperKeys {
    /// The secret key, in hexadecimal.
    pub secret_key: String,
    /// The public key.
    pub public_key: [u8; 32],
}

impl Clone for ZapperKeys {
    fn clone(&self) -> (r: ZapperKeys)
        ensures
            r == *self,
    {
        ZapperKeys { secret_key: self.secret_key.clone(), public_key: self.public_key }
    }
}

/// A key pair, over sequences: the secret key in hexadecimal, then the public
/// key.
pub open spec fn keys_view(keys: Option<ZapperKeys>) -> Option<(Seq<char>, Seq<u8>)> {
    match keys {
        Some(keys) => Some((keys.secret_key@, keys.public_key@)),
        None => None,
    }
}

/// What `nostr::key::Keys::parse` makes of `secret`: the secret key in
/// hexadecimal and the public key, or nothing if it refuses it.
pub uninterp spec fn parsed_keys(secret: Seq<char>) -> Option<(Seq<char>, Seq<u8>)>;

/// `secret` is a secret key in hexadecimal, and `public_key` is its public key.
pub open spec fn is_key_pair(secret: Seq<char>, public_key: Seq<u8>) -> bool {
    parsed_keys(secret) == Some((secret, public_key))
}

/// `nostr::key::Keys::parse`. The result is a function of the text alone, and the
/// secret key in hexadecimal is parsed to the same keys again.
#[verifier::external_body]
pub(crate) fn parse_keys(secret: &str) -> (r: Option<ZapperKeys>)
    ensures
        keys_view(r) == parsed_keys(secret@),
        r matches Some(keys) ==> is_key_pair(keys.secret_key@, keys.public_key@),
{
    nostr::key::Keys::parse(secret).ok().map(|keys| ZapperKeys {
        secret_key: keys.secret_key().to_secret_hex(),
        public_key: keys.public_key().to_bytes(),
    })
}

/// Whether two keys are the same.
pub(crate) fn same_key(a: &[u8; 32], b: &[u8; 32]) -> (r: bool)
    ensures
        r == (a@ == b@),
{
    let mut i: usize = 0;
    while i < 32
        invariant
            i <= 32,
            forall|k: int| 0 <= k < i ==> a@[k] == b@[k],
        decreases 32 - i,
    {
        if a[i] != b[i] {
            return false;
        }
        i = i + 1;
    }
    assert(a@ =~= b@);
    true
}

/// A name is a letter exactly if it is that one letter, in its own case, and
/// nothing else.
pub proof fn law_letters_are_names_of_one_letter(name: Seq<char>, c: char)
    ensures
        single_letter(name) == Some(c) <==> name == seq![c] && ('a' <= c <= 'z' || 'A' <= c <= 'Z'),
{
    if single_letter(name) == Some(c) {
        assert(name =~= seq![c]);
    }
}

/// A tag states an amount exactly if it is named `amount` and has an unsigned
/// number of 64 bits for its first value, and then it states that number.
pub proof fn law_amount_tags_state_their_number(tag: Seq<Seq<char>>, n: nat)
    ensures
        tag.len() >= 2 && tag[0] == "amount"@ && tag[1] == decimal(n) && n
            <= 0xffff_ffff_ffff_ffff ==> stated_amount(tag) == Some(n),
        stated_amount(tag) == Some(n) <==> tag.len() >= 2 && tag[0] == "amount"@ && unsigned_value(
            tag[1],
            0xffff_ffff_ffff_ffff,
        ) == Some(n),
{
    law_decimal_is_read_back(n, 0xffff_ffff_ffff_ffff);
}

/// The sixteen hexadecimal digits, in both cases, denote 0 to 15, and the lowercase
/// ones are written.
pub proof fn law_hexadecimal_digits(d: int)
    requires
        0 <= d < 16,
    ensures
        is_hex("0123456789abcdef"@[d]),
        is_hex("0123456789ABCDEF"@[d]),
        hex_value("0123456789abcdef"@[d]) == d,
        hex_value("0123456789ABCDEF"@[d]) == d,
        hex_char(d) == "0123456789abcdef"@[d],
{
    reveal_strlit("0123456789abcdef");
    reveal_strlit("0123456789ABCDEF");
}

/// A text is a key exactly if it is an even number of hexadecimal digits, 64 at
/// least; each byte of the key is made of two digits, the higher one first.
pub proof fn law_keys_are_hexadecimal(s: Seq<char>)
    ensures
        key_of_hex(s) is Some <==> s.len() >= 64 && s.len() % 2 == 0 && (forall|i: int|
            0 <= i < s.len() ==> '0' <= #[trigger] s[i] <= '9' || 'a' <= s[i] <= 'f' || 'A' <= s[i]
                <= 'F'),
        key_of_hex(s) matches Some(key) ==> key.len() == 32 && (forall|i: int|
            0 <= i < 32 ==> #[trigger] key[i] == 16 * hex_value(s[2 * i]) + hex_value(
                s[2 * i + 1],
            )),
{
    if forall|i: int|
        0 <= i < s.len() ==> '0' <= #[trigger] s[i] <= '9' || 'a' <= s[i] <= 'f' || 'A' <= s[i]
            <= 'F' {
        assert forall|i: int| 0 <= i < s.len() implies is_hex(#[trigger] s[i]) by {}
    }
    if key_of_hex(s) is Some {
        assert forall|i: int| 0 <= i < s.len() implies '0' <= #[trigger] s[i] <= '9' || 'a' <= s[i]
            <= 'f' || 'A' <= s[i] <= 'F' by {
            assert(is_hex(s[i]));
        }
        assert forall|i: int| 0 <= i < 32 implies #[trigger] key_of_hex(s)->0[i] == 16 * hex_value(
            s[2 * i],
        ) + hex_value(s[2 * i + 1]) by {
            assert(is_hex(s[2 * i]) && is_hex(s[2 * i + 1]));
        }
    }
}

/// No field of an event is lost in its view.
pub proof fn law_event_view_keeps_every_field(event: Event)
    ensures
        event@.id == event.id@,
        event@.pubkey == event.pubkey@,
        event@.created_at == event.created_at,
        event@.kind == event.kind,
        event@.tags.len() == event.tags@.len(),
        forall|i: int, j: int|
            0 <= i < event.tags@.len() && 0 <= j < event.tags@[i]@.len() ==> event@.tags[i].len()
                == event.tags@[i]@.len() && #[trigger] event@.tags[i][j] == event.tags@[i]@[j]@,
        event@.content == event.content@,
        event@.sig == event.sig@,
{
}

/// Nothing of a result is lost in its view; a text reads as the event that is read
/// from it; and a key pair is read from its secret key.
pub proof fn law_event_results_keep_everything(
    event: Event,
    text: String,
    keys: ZapperKeys,
    other: EventView,
)
    ensures
        unit_result_view(Ok(())) is Ok,
        unit_result_view(Err(text)) == Err::<(), Seq<char>>(text@),
        text_result_view(Ok(text)) == Ok::<Seq<char>, Seq<char>>(text@),
        text_result_view(Err(text)) == Err::<Seq<char>, Seq<char>>(text@),
        event_result_view(Ok(event)) == Ok::<EventView, Seq<char>>(event@),
        event_result_view(Err(text)) == Err::<EventView, Seq<char>>(text@),
        reads_as(text@, other) <==> event_from_json(text@) == Ok::<EventView, Seq<char>>(other),
        keys_view(Some(keys)) == Some((keys.secret_key@, keys.public_key@)),
        keys_view(None) is None,
        is_key_pair(keys.secret_key@, keys.public_key@) <==> parsed_keys(keys.secret_key@) == Some(
            (keys.secret_key@, keys.public_key@),
        ),
{
}

} // verus!
