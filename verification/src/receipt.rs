//! Zap receipts: what is published once an invoice was paid.

use vstd::prelude::*;
use vstd::string::*;

use crate::event::{
    event_from_json, event_json, event_verification, is_key_pair, key_of_hex,
    lemma_key_hex_round_trip, lower_hex, parse_event, parsed_keys, reads_as, Event, EventView,
    ZapperKeys,
};
use crate::state::PluginState;
use crate::text::text_view;
use crate::zap::{listed_relays, zap_relays};

verus! {

/// The kind of event that a zap receipt is.
pub const ZAP_RECEIPT_KIND: u16 = 9735;

/// An invoice that was paid, as far as it is known.
#[derive(Debug)]
pub struct PaidInvoice {
    /// The position of the invoice among those that were paid.
    pub pay_index: Option<u64>,
    /// The text that the invoice commits to.
    pub description: Option<String>,
    /// The invoice itself.
    pub bolt11: Option<String>,
    /// The proof of the payment.
    pub payment_preimage: Option<[u8; 32]>,
}

/// The index to wait for invoices after, once an invoice was paid.
pub open spec fn index_after(lastpay_index: u64, pay_index: Option<u64>) -> u64 {
    match pay_index {
        Some(index) => index,
        None => if lastpay_index < u64::MAX {
            (lastpay_index + 1) as u64
        } else {
            lastpay_index
        },
    }
}

/// The index to wait for invoices after, once an invoice was paid: its own, or
/// else the one after the last.
pub fn next_pay_index(lastpay_index: u64, pay_index: Option<u64>) -> (r: u64)
    ensures
        r == index_after(lastpay_index, pay_index),
{
    pay_index.unwrap_or(lastpay_index.saturating_add(1))
}

/// What was paid.
#[derive(Debug)]
pub enum Payment {
    /// Something that no receipt is published for.
    Ordinary,
    /// A zap, by an invoice that is not known.
    MissingBolt11,
    /// A zap, without a proof of the payment.
    MissingPreimage,
    /// A zap.
    Zap { bolt11: String, preimage: [u8; 32], request: Event },
}

/// What was paid, over sequences.
pub enum PaymentView {
    Ordinary,
    MissingBolt11,
    MissingPreimage,
    Zap { bolt11: Seq<char>, preimage: Seq<u8>, request: EventView },
}

impl View for Payment {
    type V = PaymentView;

    open spec fn view(&self) -> PaymentView {
        match self {
            Payment::Ordinary => PaymentView::Ordinary,
            Payment::MissingBolt11 => PaymentView::MissingBolt11,
            Payment::MissingPreimage => PaymentView::MissingPreimage,
            Payment::Zap { bolt11, preimage, request } => PaymentView::Zap {
                bolt11: bolt11@,
                preimage: preimage@,
                request: request@,
            },
        }
    }
}

/// The zap request that a description is, if it is one.
pub open spec fn described_request(description: Option<Seq<char>>) -> Option<EventView> {
    match description {
        Some(description) => match event_from_json(description) {
            Ok(event) => Some(event),
            Err(_) => None,
        },
        None => None,
    }
}

/// What was paid by `invoice`, whose description is the zap request `request` or
/// none.
pub open spec fn payment_with(invoice: PaidInvoice, request: Option<EventView>) -> PaymentView {
    match (request, invoice.bolt11, invoice.payment_preimage) {
        (None, _, _) => PaymentView::Ordinary,
        (Some(_), None, _) => PaymentView::MissingBolt11,
        (Some(_), Some(_), None) => PaymentView::MissingPreimage,
        (Some(request), Some(bolt11), Some(preimage)) => PaymentView::Zap {
            bolt11: bolt11@,
            preimage: preimage@,
            request,
        },
    }
}

/// What was paid by `invoice`.
pub open spec fn payment(invoice: PaidInvoice) -> PaymentView {
    payment_with(invoice, described_request(text_view(invoice.description)))
}

/// What was paid by `invoice`, whose description is the zap request `request` or
/// none.
pub fn classify_payment_with(invoice: PaidInvoice, request: Option<Event>) -> (r: Payment)
    ensures
        r@ == payment_with(
            invoice,
            match request {
                Some(event) => Some(event@),
                None => None,
            },
        ),
{
    let request = match request {
        Some(request) => request,
        None => return Payment::Ordinary,
    };
    let bolt11 = match invoice.bolt11 {
        Some(bolt11) => bolt11,
        None => return Payment::MissingBolt11,
    };
    match invoice.payment_preimage {
        Some(preimage) => Payment::Zap { bolt11, preimage, request },
        None => Payment::MissingPreimage,
    }
}

/// What was paid by `invoice`.
pub fn classify_payment(invoice: PaidInvoice) -> (r: Payment)
    ensures
        r@ == payment(invoice),
{
    let request: Option<Event> = match &invoice.description {
        Some(description) => match parse_event(description.as_str()) {
            Ok(event) => Some(event),
            Err(_) => None,
        },
        None => None,
    };
    classify_payment_with(invoice, request)
}

/// A preimage as a JSON string in hexadecimal.
pub open spec fn quoted_hex(bytes: Seq<u8>) -> Seq<char> {
    seq!['"'] + lower_hex(bytes) + seq!['"']
}

/// `serde_json::to_string`, on a `cln_rpc::primitives::Secret`, which is written
/// as a string of 64 lowercase hexadecimal digits.
#[verifier::external_body]
fn preimage_to_json(preimage: &[u8; 32]) -> (r: String)
    ensures
        r@ == quoted_hex(preimage@),
{
    let secret = cln_rpc::primitives::Secret::try_from(preimage.to_vec()).unwrap();
    serde_json::to_string(&secret).unwrap()
}

/// The first of `tags` with the name `name`, alone, or nothing.
pub open spec fn first_named(tags: Seq<Seq<Seq<char>>>, name: Seq<char>) -> Seq<Seq<Seq<char>>>
    decreases tags.len(),
{
    if tags.len() == 0 {
        Seq::empty()
    } else if tags[0].len() > 0 && tags[0][0] == name {
        seq![tags[0]]
    } else {
        first_named(tags.skip(1), name)
    }
}

/// The tags of the receipt for `request`, which is written as `description`.
pub open spec fn receipt_tags(
    bolt11: Seq<char>,
    preimage: Seq<char>,
    request: EventView,
    description: Seq<char>,
) -> Seq<Seq<Seq<char>>> {
    seq![
        seq!["bolt11"@, bolt11],
        seq!["description"@, description],
        seq!["preimage"@, preimage],
    ] + first_named(request.tags, "e"@) + first_named(request.tags, "a"@) + first_named(
        request.tags,
        "p"@,
    ) + seq![seq!["P"@, lower_hex(request.pubkey)]]
}

/// `receipt` is a verified receipt of the key `signer` for the zap request
/// `request`.
pub open spec fn is_receipt(
    receipt: EventView,
    bolt11: Seq<char>,
    preimage: Seq<char>,
    request: EventView,
    signer: Seq<u8>,
) -> bool {
    &&& receipt.kind == ZAP_RECEIPT_KIND
    &&& receipt.pubkey == signer
    &&& receipt.content.len() == 0
    &&& event_json(request) matches Ok(description) && reads_as(description, request)
        && receipt.tags == receipt_tags(bolt11, preimage, request, description)
    &&& event_verification(receipt) is Ok
}

/// A receipt for the zap request that is read from `zap_request` is read from
/// `json`; it is signed with the secret key `secret`.
pub open spec fn is_receipt_json(
    json: Seq<char>,
    bolt11: Seq<char>,
    preimage: Seq<char>,
    zap_request: Seq<char>,
    secret: Seq<char>,
) -> bool {
    &&& event_from_json(zap_request) matches Ok(request)
    &&& parsed_keys(secret) matches Some((_, signer))
    &&& event_from_json(json) matches Ok(receipt)
    &&& is_receipt(receipt, bolt11, preimage, request, signer)
}

/// A receipt can be signed: `zap_request` is read as an event, and `secret` as keys.
pub open spec fn can_be_signed(zap_request: Seq<char>, secret: Seq<char>) -> bool {
    event_from_json(zap_request) is Ok && parsed_keys(secret) is Some
}

/// `nostr::nips::nip57::ZapReceipt`, signed by `finalize` with the keys that
/// `Keys::parse` reads, for the event that `Event::from_json` reads, and written
/// as JSON. A receipt has the invoice, the request as JSON, the preimage, the
/// first `e`, `a` and `p` tags of the request and its author for tags; the rest of
/// it, the time and so the hash and the signature, is left open, but `Event::verify`
/// accepts it. Signing fails only where the event or the keys cannot be read: once
/// they are, the keys sign the hash, and the signature is that of their public key.
/// What is said of a failure is left open.
#[verifier::external_body]
fn sign_receipt(bolt11: &str, preimage: &str, zap_request: &str, secret: &str) -> (r: Result<
    String,
    String,
>)
    ensures
        r matches Ok(json) ==> is_receipt_json(
            json@,
            bolt11@,
            preimage@,
            zap_request@,
            secret@,
        ),
        r is Ok <==> can_be_signed(zap_request@, secret@),
{
    let request = nostr::event::Event::from_json(zap_request).map_err(|e| e.to_string())?;
    let keys = nostr::key::Keys::parse(secret).map_err(|e| e.to_string())?;
    let receipt = nostr::nips::nip57::ZapReceipt::new(bolt11, &request).preimage(preimage);
    let event = nostr::event::FinalizeEvent::finalize(receipt, &keys).map_err(|e| e.to_string())?;
    event.try_as_json().map_err(|e| e.to_string())
}

/// What is done once the wait for a paid invoice is over.
#[derive(Debug)]
pub enum SenderAction {
    /// Wait again, as waiting failed; what is said of it.
    Retry(String),
    /// Nothing: the payment is not a zap.
    Ordinary,
    /// Nothing: the invoice of the zap is not known.
    MissingBolt11,
    /// Nothing: there is no proof of the payment of the zap.
    MissingPreimage,
    /// Nothing: the receipt could not be signed; what is said of it.
    Unsigned(String),
    /// Publish the receipt, as JSON, to the relays.
    Publish { receipt: String, relays: Vec<String> },
}

/// What is done once the wait for a paid invoice is over, and the index to wait
/// after from then on.
#[derive(Debug)]
pub struct SenderStep {
    /// The index to wait for invoices after.
    pub lastpay_index: u64,
    /// What is done.
    pub action: SenderAction,
}

/// What is done with the receipt for `request`, where `signed` came of signing it.
pub fn publish_receipt(signed: Result<String, String>, request: &Event) -> (r: SenderAction)
    ensures
        match signed {
            Ok(json) => r matches SenderAction::Publish { receipt, relays } && receipt@ == json@
                && relays.deep_view() == listed_relays(request@.tags),
            Err(error) => r matches SenderAction::Unsigned(said) && said@ == error@,
        },
{
    match signed {
        Ok(receipt) => SenderAction::Publish { receipt, relays: zap_relays(request) },
        Err(error) => SenderAction::Unsigned(error),
    }
}

/// A receipt for the zap request `request` is read from `json`; it is signed with
/// the secret key `secret`.
pub open spec fn is_receipt_for(
    json: Seq<char>,
    bolt11: Seq<char>,
    preimage: Seq<u8>,
    request: EventView,
    secret: Seq<char>,
) -> bool {
    &&& parsed_keys(secret) matches Some((_, signer))
    &&& event_from_json(json) matches Ok(receipt)
    &&& is_receipt(receipt, bolt11, quoted_hex(preimage), request, signer)
}

/// `action` is what is done after `payment`, where receipts are signed with the
/// secret key `secret`.
pub open spec fn is_action_after(
    action: SenderAction,
    payment: PaymentView,
    secret: Seq<char>,
) -> bool {
    match payment {
        PaymentView::Ordinary => action is Ordinary,
        PaymentView::MissingBolt11 => action is MissingBolt11,
        PaymentView::MissingPreimage => action is MissingPreimage,
        PaymentView::Zap { bolt11, preimage, request } => match action {
            SenderAction::Unsigned(_) => parsed_keys(secret) is None,
            SenderAction::Publish { receipt, relays } => {
                &&& relays.deep_view() == listed_relays(request.tags)
                &&& is_receipt_for(receipt@, bolt11, preimage, request, secret)
            },
            _ => false,
        },
    }
}

/// `step` is what is done once the wait for an invoice that is paid after
/// `lastpay_index` is over, where `outcome` came of it.
pub open spec fn is_step_after(
    step: SenderStep,
    lastpay_index: u64,
    outcome: Result<PaidInvoice, String>,
    secret: Seq<char>,
) -> bool {
    match outcome {
        Err(error) => {
            &&& step.lastpay_index == lastpay_index
            &&& step.action matches SenderAction::Retry(said)
            &&& said@ == error@
        },
        Ok(invoice) => {
            &&& step.lastpay_index == index_after(lastpay_index, invoice.pay_index)
            &&& is_action_after(step.action, payment(invoice), secret)
        },
    }
}

/// What is done once the wait for an invoice that is paid after `lastpay_index` is
/// over, where `outcome` came of it.
pub fn zap_receipt_sender(
    lastpay_index: u64,
    outcome: Result<PaidInvoice, String>,
    keys: &ZapperKeys,
) -> (r: SenderStep)
    ensures
        is_step_after(r, lastpay_index, outcome, keys.secret_key@),
{
    let invoice = match outcome {
        Ok(invoice) => invoice,
        Err(error) => {
            return SenderStep { lastpay_index, action: SenderAction::Retry(error) };
        },
    };
    let lastpay_index: u64 = next_pay_index(lastpay_index, invoice.pay_index);
    let description = match &invoice.description {
        Some(description) => description.clone(),
        None => return SenderStep { lastpay_index, action: SenderAction::Ordinary },
    };
    let action = match classify_payment(invoice) {
        Payment::Ordinary => SenderAction::Ordinary,
        Payment::MissingBolt11 => SenderAction::MissingBolt11,
        Payment::MissingPreimage => SenderAction::MissingPreimage,
        Payment::Zap { bolt11, preimage, request } => {
            let signed = sign_receipt(
                bolt11.as_str(),
                preimage_to_json(&preimage).as_str(),
                description.as_str(),
                keys.secret_key.as_str(),
            );
            publish_receipt(signed, &request)
        },
    };
    SenderStep { lastpay_index, action }
}

/// The index that is saved before anything else is done in `step`: none where
/// waiting failed.
pub fn index_to_save(step: &SenderStep) -> (r: Option<u64>)
    ensures
        r == (if step.action is Retry {
            None
        } else {
            Some(step.lastpay_index)
        }),
{
    match step.action {
        SenderAction::Retry(_) => None,
        _ => Some(step.lastpay_index),
    }
}

/// What is done in `step`, where `saved` came of saving its index: nothing more if
/// that failed.
pub fn after_save(step: SenderStep, saved: Result<(), String>) -> (r: Result<SenderAction, String>)
    ensures
        match saved {
            Ok(()) => r == Ok::<SenderAction, String>(step.action),
            Err(error) => r matches Err(said) && said@ == error@,
        },
{
    match saved {
        Ok(()) => Ok(step.action),
        Err(error) => Err(error),
    }
}

/// Where the sender of receipts stands.
#[derive(Debug)]
pub enum SenderPhase {
    /// It waits for an invoice that is paid after the index.
    Waiting { lastpay_index: u64 },
    /// It saves the index of the step.
    Saving { step: SenderStep },
    /// It does what is to be done, and waits after the index from then on.
    Acting { lastpay_index: u64, action: SenderAction },
    /// It has stopped; why.
    Stopped(String),
}

/// What came of what the sender of receipts asked for.
#[derive(Debug)]
pub enum SenderEvent {
    /// The wait is over.
    Waited(Result<PaidInvoice, String>),
    /// The index was saved, or could not be.
    Saved(Result<(), String>),
    /// It was done what was to be done, with or without success.
    Acted,
}

/// The sender of receipts.
pub struct Sender {
    /// The keys that receipts are signed with.
    pub keys: ZapperKeys,
    /// Where it stands.
    pub phase: SenderPhase,
}

/// `event` is what a sender in `phase` asked for. A sender that has stopped asks for
/// nothing.
pub open spec fn answers(event: SenderEvent, phase: SenderPhase) -> bool {
    match phase {
        SenderPhase::Waiting { .. } => event is Waited,
        SenderPhase::Saving { .. } => event is Saved,
        SenderPhase::Acting { .. } => event is Acted,
        SenderPhase::Stopped(_) => false,
    }
}

/// `next` is where a sender stands that stood at `phase` before `event`. An event
/// that it did not ask for leaves it where it stood.
pub open spec fn is_next_phase(
    phase: SenderPhase,
    event: SenderEvent,
    secret: Seq<char>,
    next: SenderPhase,
) -> bool {
    match (phase, event) {
        (
            SenderPhase::Waiting { lastpay_index },
            SenderEvent::Waited(outcome),
        ) => if outcome is Ok {
            &&& next matches SenderPhase::Saving { step }
            &&& is_step_after(step, lastpay_index, outcome, secret)
        } else {
            &&& next matches SenderPhase::Acting { lastpay_index: last, action }
            &&& is_step_after(
                SenderStep { lastpay_index: last, action },
                lastpay_index,
                outcome,
                secret,
            )
        },
        (SenderPhase::Saving { step }, SenderEvent::Saved(Ok(()))) => next
            == (SenderPhase::Acting { lastpay_index: step.lastpay_index, action: step.action }),
        (SenderPhase::Saving { .. }, SenderEvent::Saved(Err(error))) => {
            &&& next matches SenderPhase::Stopped(said)
            &&& said@ == error@
        },
        (SenderPhase::Acting { lastpay_index, .. }, SenderEvent::Acted) => next
            == (SenderPhase::Waiting { lastpay_index }),
        _ => next == phase,
    }
}

impl Sender {
    /// A sender that waits after the index of `state`, if there are keys to sign
    /// receipts with.
    pub fn start(state: &PluginState) -> (r: Result<Sender, String>)
        ensures
            match state.nostr_zapper_keys {
                Some(keys) => r == Ok::<Sender, String>(
                    Sender {
                        keys,
                        phase: SenderPhase::Waiting { lastpay_index: state.payindex },
                    },
                ),
                None => r matches Err(said) && said@
                    == "zap receipt sender started without configured Nostr keys"@,
            },
    {
        match &state.nostr_zapper_keys {
            Some(keys) => Ok(
                Sender {
                    keys: keys.clone(),
                    phase: SenderPhase::Waiting { lastpay_index: state.payindex },
                },
            ),
            None => Err("zap receipt sender started without configured Nostr keys".to_owned()),
        }
    }

    /// The sender after `event`.
    pub fn advance(self, event: SenderEvent) -> (r: Sender)
        ensures
            r.keys == self.keys,
            is_next_phase(self.phase, event, self.keys.secret_key@, r.phase),
    {
        let keys = self.keys;
        let phase = match (self.phase, event) {
            (SenderPhase::Waiting { lastpay_index }, SenderEvent::Waited(outcome)) => {
                let step = zap_receipt_sender(lastpay_index, outcome, &keys);
                match index_to_save(&step) {
                    Some(_) => SenderPhase::Saving { step },
                    None => SenderPhase::Acting {
                        lastpay_index: step.lastpay_index,
                        action: step.action,
                    },
                }
            },
            (SenderPhase::Saving { step }, SenderEvent::Saved(saved)) => {
                let lastpay_index: u64 = step.lastpay_index;
                match after_save(step, saved) {
                    Ok(action) => SenderPhase::Acting { lastpay_index, action },
                    Err(error) => SenderPhase::Stopped(error),
                }
            },
            (SenderPhase::Acting { lastpay_index, .. }, SenderEvent::Acted) => {
                SenderPhase::Waiting { lastpay_index }
            },
            (phase, _) => phase,
        };
        Sender { keys, phase }
    }
}

/// The sender goes from phase `i` to the next by the event that it asked for.
pub open spec fn is_move(
    phases: Seq<SenderPhase>,
    events: Seq<SenderEvent>,
    secret: Seq<char>,
    i: int,
) -> bool {
    &&& answers(events[i], phases[i])
    &&& is_next_phase(phases[i], events[i], secret, phases[i + 1])
}

/// `phases` are those that a sender goes through by `events`, from its start after
/// the index `payindex` on.
pub open spec fn is_run(
    payindex: u64,
    secret: Seq<char>,
    phases: Seq<SenderPhase>,
    events: Seq<SenderEvent>,
) -> bool {
    &&& phases.len() == events.len() + 1
    &&& phases[0] == (SenderPhase::Waiting { lastpay_index: payindex })
    &&& forall|i: int| 0 <= i < events.len() ==> #[trigger] is_move(phases, events, secret, i)
}

/// Before anything is done about a paid invoice, its index is saved: what is done
/// follows the successful save of the index, which follows the wait that the
/// invoice came from. So each answer to a wait leads to at most one receipt.
pub proof fn law_index_is_saved_before_acting(
    payindex: u64,
    secret: Seq<char>,
    phases: Seq<SenderPhase>,
    events: Seq<SenderEvent>,
    i: int,
)
    requires
        is_run(payindex, secret, phases, events),
        0 <= i < phases.len(),
        phases[i] matches SenderPhase::Acting { action, .. } && !(action is Retry),
    ensures
        phases[i] matches SenderPhase::Acting { lastpay_index, action } && {
            &&& i >= 2
            &&& phases[i - 1] == (SenderPhase::Saving {
                step: SenderStep { lastpay_index, action },
            })
            &&& events[i - 1] matches SenderEvent::Saved(Ok(_))
            &&& phases[i - 2] matches SenderPhase::Waiting { lastpay_index: before } && (events[i - 2]
                matches SenderEvent::Waited(Ok(invoice)) && lastpay_index == index_after(
                before,
                invoice.pay_index,
            ) && is_action_after(action, payment(invoice), secret))
        },
{
    assert(i >= 1);
    assert(is_move(phases, events, secret, i - 1));
    assert(phases[i - 1] is Saving);
    assert(i >= 2);
    assert(is_move(phases, events, secret, i - 2));
}

/// Between two times that something is done, there is a wait.
pub proof fn law_waits_between_actions(
    payindex: u64,
    secret: Seq<char>,
    phases: Seq<SenderPhase>,
    events: Seq<SenderEvent>,
    i: int,
    j: int,
)
    requires
        is_run(payindex, secret, phases, events),
        0 <= i < j < phases.len(),
        phases[i] is Acting,
        phases[j] is Acting,
    ensures
        exists|k: int| i < k < j && #[trigger] phases[k] is Waiting,
{
    assert(is_move(phases, events, secret, i));
    assert(phases[i + 1] is Waiting);
}

/// After an invoice that was paid, the sender saves the index that follows, and
/// from then on it waits after that index, whatever came of the receipt.
pub proof fn law_next_wait_is_after_the_saved_index(
    payindex: u64,
    secret: Seq<char>,
    phases: Seq<SenderPhase>,
    events: Seq<SenderEvent>,
    i: int,
)
    requires
        is_run(payindex, secret, phases, events),
        0 <= i < events.len(),
        events[i] matches SenderEvent::Waited(Ok(_)),
    ensures
        phases[i] matches SenderPhase::Waiting { lastpay_index } && (events[i] matches SenderEvent::Waited(
            Ok(invoice),
        ) && {
            let next = index_after(lastpay_index, invoice.pay_index);
            &&& phases[i + 1] matches SenderPhase::Saving { step } && step.lastpay_index == next
            &&& i + 3 < phases.len() ==> phases[i + 3] == (SenderPhase::Waiting {
                lastpay_index: next,
            })
        }),
{
    assert(is_move(phases, events, secret, i));
    if i + 3 < phases.len() {
        assert(is_move(phases, events, secret, i + 1));
        assert(is_move(phases, events, secret, i + 2));
    }
}

/// After a wait that failed nothing is saved, and the sender waits after the same
/// index again.
pub proof fn law_failed_wait_is_repeated(
    payindex: u64,
    secret: Seq<char>,
    phases: Seq<SenderPhase>,
    events: Seq<SenderEvent>,
    i: int,
)
    requires
        is_run(payindex, secret, phases, events),
        0 <= i < events.len(),
        events[i] matches SenderEvent::Waited(Err(_)),
    ensures
        phases[i + 1] matches SenderPhase::Acting { action: SenderAction::Retry(_), .. },
        i + 2 < phases.len() ==> phases[i + 2] == phases[i],
{
    assert(is_move(phases, events, secret, i));
    if i + 2 < phases.len() {
        assert(is_move(phases, events, secret, i + 1));
    }
}

/// The sender stops only where an index could not be saved, and it stops there,
/// before anything is done about the invoice.
pub proof fn law_sender_stops_iff_saving_fails(
    payindex: u64,
    secret: Seq<char>,
    phases: Seq<SenderPhase>,
    events: Seq<SenderEvent>,
    i: int,
)
    requires
        is_run(payindex, secret, phases, events),
        0 <= i < events.len(),
    ensures
        phases[i + 1] is Stopped <==> (events[i] matches SenderEvent::Saved(Err(_))),
        events[i] matches SenderEvent::Saved(Err(_)) ==> phases[i] is Saving && phases.len() == i
            + 2,
{
    assert(is_move(phases, events, secret, i));
    if i + 2 < phases.len() {
        assert(is_move(phases, events, secret, i + 1));
    }
}

/// Once an invoice for a zap request was paid, a receipt that is published is one
/// for that very request, and it goes to the relays of that request.
pub proof fn law_receipt_is_for_the_paid_zap(
    invoice: PaidInvoice,
    request: EventView,
    action: SenderAction,
    secret: Seq<char>,
)
    requires
        invoice.description matches Some(description) && reads_as(description@, request),
        is_action_after(action, payment(invoice), secret),
    ensures
        action matches SenderAction::Publish { receipt, relays } ==> {
            &&& invoice.bolt11 is Some
            &&& invoice.payment_preimage is Some
            &&& is_receipt_for(
                receipt@,
                invoice.bolt11->0@,
                invoice.payment_preimage->0@,
                request,
                secret,
            )
            &&& relays.deep_view() == listed_relays(request.tags)
        },
        invoice.bolt11 is Some && invoice.payment_preimage is Some ==> action is Publish
            || action is Unsigned,
{
}

/// An invoice that commits to anything but a zap request gets no receipt.
pub proof fn law_ordinary_payment_gets_no_receipt(
    invoice: PaidInvoice,
    action: SenderAction,
    secret: Seq<char>,
)
    requires
        invoice.description matches Some(description) ==> event_from_json(description@) is Err,
        is_action_after(action, payment(invoice), secret),
    ensures
        action is Ordinary,
{
}

/// A receipt is signed with the key that is offered for zaps, holds the request,
/// from which the request is read again, and names its author and its recipient.
pub proof fn law_receipt_is_for_the_offered_key(
    json: Seq<char>,
    bolt11: Seq<char>,
    preimage: Seq<u8>,
    request: EventView,
    keys: ZapperKeys,
)
    requires
        is_key_pair(keys.secret_key@, keys.public_key@),
        is_receipt_for(json, bolt11, preimage, request, keys.secret_key@),
    ensures
        event_from_json(json) matches Ok(receipt) && {
            &&& receipt.pubkey == keys.public_key@
            &&& receipt.tags[0] == seq!["bolt11"@, bolt11]
            &&& receipt.tags[1][0] == "description"@
            &&& reads_as(receipt.tags[1][1], request)
            &&& receipt.tags[2] == seq!["preimage"@, quoted_hex(preimage)]
            &&& receipt.tags.last() == seq!["P"@, lower_hex(request.pubkey)]
        },
{
}

/// For a paid zap whose invoice and preimage are known, a receipt is published
/// whenever the keys can be read, whatever the zap request says, and it is not
/// signed only where they cannot. The receipt is one for that invoice, that preimage
/// and that request, and it goes to the relays of that request.
pub proof fn law_paid_zap_gets_its_receipt(
    invoice: PaidInvoice,
    request: EventView,
    action: SenderAction,
    secret: Seq<char>,
)
    requires
        invoice.description matches Some(description) && event_from_json(description@) == Ok::<
            EventView,
            Seq<char>,
        >(request),
        invoice.bolt11 is Some,
        invoice.payment_preimage is Some,
        is_action_after(action, payment(invoice), secret),
    ensures
        parsed_keys(secret) is Some ==> (action matches SenderAction::Publish { receipt, relays }
            && is_receipt_for(
            receipt@,
            invoice.bolt11->0@,
            invoice.payment_preimage->0@,
            request,
            secret,
        ) && relays.deep_view() == listed_relays(request.tags)),
        action is Unsigned <==> parsed_keys(secret) is None,
{
}

/// With the keys of a server that was started, every paid zap whose invoice and
/// preimage are known gets a receipt of the key that is offered for zaps.
pub proof fn law_started_server_signs_every_receipt(
    invoice: PaidInvoice,
    request: EventView,
    action: SenderAction,
    keys: ZapperKeys,
)
    requires
        is_key_pair(keys.secret_key@, keys.public_key@),
        invoice.description matches Some(description) && event_from_json(description@) == Ok::<
            EventView,
            Seq<char>,
        >(request),
        invoice.bolt11 is Some,
        invoice.payment_preimage is Some,
        is_action_after(action, payment(invoice), keys.secret_key@),
    ensures
        action matches SenderAction::Publish { receipt, .. } && (event_from_json(receipt@)
            matches Ok(event) && event.kind == 9735 && event.pubkey == keys.public_key@
            && event_verification(event) is Ok),
{
}

/// What is paid is ordinary exactly if its description is no event; a zap is missing
/// its invoice or its preimage exactly if it has none, the invoice first.
pub proof fn law_payments(invoice: PaidInvoice)
    ensures
        ({
            let zap = invoice.description matches Some(text) && event_from_json(text@) is Ok;
            &&& payment(invoice) is Ordinary <==> !zap
            &&& payment(invoice) is MissingBolt11 <==> zap && invoice.bolt11 is None
            &&& payment(invoice) is MissingPreimage <==> zap && invoice.bolt11 is Some
                && invoice.payment_preimage is None
            &&& payment(invoice) matches PaymentView::Zap { bolt11, preimage, request } ==> {
                &&& invoice.description matches Some(text) && event_from_json(text@) == Ok::<
                    EventView,
                    Seq<char>,
                >(request)
                &&& invoice.bolt11 matches Some(known) && known@ == bolt11
                &&& invoice.payment_preimage matches Some(known) && known@ == preimage
            }
        }),
{
}

/// What is done follows from what was paid: nothing after an ordinary payment, and
/// nothing after a zap without its invoice or its preimage.
pub proof fn law_actions(payment: PaymentView, action: SenderAction, secret: Seq<char>)
    requires
        is_action_after(action, payment, secret),
    ensures
        payment is Ordinary <==> action is Ordinary,
        payment is MissingBolt11 <==> action is MissingBolt11,
        payment is MissingPreimage <==> action is MissingPreimage,
        payment is Zap <==> action is Publish || action is Unsigned,
        !(action is Retry),
{
}

/// The index of a paid invoice is its own; one without an index is taken for the one
/// after the last.
pub proof fn law_index_of_a_paid_invoice(lastpay_index: u64, index: u64)
    ensures
        index_after(lastpay_index, Some(index)) == index,
        lastpay_index < 0xffff_ffff_ffff_ffff ==> index_after(lastpay_index, None) == lastpay_index
            + 1,
        lastpay_index == 0xffff_ffff_ffff_ffff ==> index_after(lastpay_index, None)
            == lastpay_index,
{
}

/// After a wait that failed, the step is to try again after the same index, and
/// nothing is done about a payment.
pub proof fn law_failed_waits_are_tried_again(
    step: SenderStep,
    lastpay_index: u64,
    outcome: Result<PaidInvoice, String>,
    secret: Seq<char>,
)
    requires
        is_step_after(step, lastpay_index, outcome, secret),
    ensures
        outcome is Err <==> step.action is Retry,
        outcome matches Err(error) ==> step.lastpay_index == lastpay_index && (step.action
            matches SenderAction::Retry(said) && said@ == error@),
        outcome matches Ok(invoice) ==> (invoice.pay_index matches Some(index)
            ==> step.lastpay_index == index),
{
}

/// A receipt holds the first `e`, `a` and `p` tag of the request, in that order, and
/// nothing else of its tags.
pub proof fn law_receipt_copies_the_first_tags(
    bolt11: Seq<char>,
    preimage: Seq<char>,
    request: EventView,
    description: Seq<char>,
    name: Seq<char>,
    i: int,
)
    requires
        0 <= i < request.tags.len(),
        request.tags[i].len() >= 1,
        request.tags[i][0] == name,
        name == "e"@ || name == "a"@ || name == "p"@,
        forall|k: int|
            0 <= k < i ==> (#[trigger] request.tags[k]).len() == 0 || request.tags[k][0] != name,
    ensures
        receipt_tags(bolt11, preimage, request, description).contains(request.tags[i]),
        4 <= receipt_tags(bolt11, preimage, request, description).len() <= 7,
{
    lemma_first_named(request.tags, name, i);
    lemma_first_named_is_short(request.tags, "e"@);
    lemma_first_named_is_short(request.tags, "a"@);
    lemma_first_named_is_short(request.tags, "p"@);
    let e = first_named(request.tags, "e"@);
    let a = first_named(request.tags, "a"@);
    let tags = receipt_tags(bolt11, preimage, request, description);
    if name == "e"@ {
        assert(tags[3] == request.tags[i]);
    } else if name == "a"@ {
        assert(tags[(3 + e.len()) as int] == request.tags[i]);
    } else {
        assert(tags[(3 + e.len() + a.len()) as int] == request.tags[i]);
    }
}

proof fn lemma_first_named(tags: Seq<Seq<Seq<char>>>, name: Seq<char>, i: int)
    requires
        0 <= i < tags.len(),
        tags[i].len() >= 1,
        tags[i][0] == name,
        forall|k: int| 0 <= k < i ==> (#[trigger] tags[k]).len() == 0 || tags[k][0] != name,
    ensures
        first_named(tags, name) == seq![tags[i]],
    decreases tags.len(),
{
    if i > 0 {
        assert(tags[0].len() == 0 || tags[0][0] != name);
        let rest = tags.skip(1);
        assert forall|k: int| 0 <= k < i - 1 implies (#[trigger] rest[k]).len() == 0 || rest[k][0]
            != name by {
            assert(rest[k] == tags[k + 1]);
        }
        lemma_first_named(rest, name, i - 1);
    }
}

proof fn lemma_first_named_is_short(tags: Seq<Seq<Seq<char>>>, name: Seq<char>)
    ensures
        first_named(tags, name).len() <= 1,
    decreases tags.len(),
{
    if tags.len() > 0 {
        lemma_first_named_is_short(tags.skip(1), name);
    }
}

/// Which phase follows which: a wait that brought an invoice is followed by saving,
/// saving by acting, and acting by waiting after the index that was saved.
pub proof fn law_phases(
    phase: SenderPhase,
    event: SenderEvent,
    secret: Seq<char>,
    next: SenderPhase,
)
    requires
        answers(event, phase),
        is_next_phase(phase, event, secret, next),
    ensures
        phase is Waiting <==> event is Waited,
        phase is Saving <==> event is Saved,
        phase is Acting <==> event is Acted,
        event matches SenderEvent::Waited(Ok(invoice)) ==> (phase matches SenderPhase::Waiting {
            lastpay_index,
        } && (next matches SenderPhase::Saving { step } && is_action_after(
            step.action,
            payment(invoice),
            secret,
        ) && (invoice.pay_index matches Some(index) ==> step.lastpay_index == index) && (
        invoice.pay_index is None && lastpay_index < 0xffff_ffff_ffff_ffff ==> step.lastpay_index
            == lastpay_index + 1))),
        event matches SenderEvent::Waited(Err(_)) ==> (phase matches SenderPhase::Waiting {
            lastpay_index,
        } && (next matches SenderPhase::Acting { lastpay_index: last, action } && last
            == lastpay_index && action is Retry)),
        event matches SenderEvent::Saved(Ok(_)) ==> (phase matches SenderPhase::Saving { step } && (
        next matches SenderPhase::Acting { lastpay_index, action } && lastpay_index
            == step.lastpay_index && action == step.action)),
        event matches SenderEvent::Saved(Err(error)) ==> (next matches SenderPhase::Stopped(said)
            && said@ == error@),
        event is Acted ==> (phase matches SenderPhase::Acting { lastpay_index, .. } && (next
            matches SenderPhase::Waiting { lastpay_index: last } && last == lastpay_index)),
{
}

/// A preimage is shown as its hexadecimal digits between quotation marks.
pub proof fn law_preimages_are_quoted(preimage: Seq<u8>)
    requires
        preimage.len() == 32,
    ensures
        quoted_hex(preimage).len() == 66,
        quoted_hex(preimage)[0] == '"' && quoted_hex(preimage)[65] == '"',
        key_of_hex(quoted_hex(preimage).subrange(1, 65)) == Some(preimage),
{
    lemma_key_hex_round_trip(preimage);
    assert(quoted_hex(preimage).subrange(1, 65) =~= lower_hex(preimage));
}

/// Nothing of a payment is lost in its view.
pub proof fn law_payment_view_keeps_everything(bolt11: String, preimage: [u8; 32], request: Event)
    ensures
        (Payment::Zap { bolt11, preimage, request })@ == (PaymentView::Zap {
            bolt11: bolt11@,
            preimage: preimage@,
            request: request@,
        }),
        Payment::Ordinary@ == PaymentView::Ordinary,
        Payment::MissingBolt11@ == PaymentView::MissingBolt11,
        Payment::MissingPreimage@ == PaymentView::MissingPreimage,
{
}

} // verus!
