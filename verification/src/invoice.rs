//! Invoices: which ones a payer may ask for, and what the node is asked to
//! create.

use vstd::prelude::*;
use vstd::string::*;

use crate::event::{
    event_from_json, event_json, event_verification, lemma_key_hex_round_trip, lower_hex,
    parse_event, reads_as, text_result_view, unit_result_view, verify_event, write_event, Event,
    EventView, ZapperKeys,
};
use crate::label::{invoice_label, is_uuid_v4, label_text};
use crate::lnurl::{
    address_json, address_rows, address_settings, amount_check, check_view, comment_check,
    find_settings, has_address, missing_user_text, offer, offer_or_refusal, refusal, refuse,
    rows_json, signer, text_or_refusal_view, user_rows, validate_comment,
    validate_invoice_amount,
    LnurlpConfigView, Refusal, RefusalView, StatusCode,
};
use crate::rpc::accepted_settings;
use crate::state::{InvoiceQueryParams, LnurlpCallback, PluginState};
use crate::text::{str_view, text_view};
use crate::user::{UserMetadata, UserMetadataView};
use crate::zap::{
    law_zap_request_accepted_iff_sound, lettered, other_signer, sound_zap_request,
    verify_zap_request, zap_request_fault,
};

verus! {

/// What a payer asks an invoice for, over sequences.
pub struct InvoiceQueryView {
    pub amount: u64,
    pub nostr: Option<Seq<char>>,
    pub comment: Option<Seq<char>>,
}

impl View for InvoiceQueryParams {
    type V = InvoiceQueryView;

    open spec fn view(&self) -> InvoiceQueryView {
        InvoiceQueryView {
            amount: self.amount,
            nostr: text_view(self.nostr),
            comment: text_view(self.comment),
        }
    }
}

/// The amount that an invoice is for.
#[derive(Debug, Clone, Copy, PartialEq, Eq, Structural)]
pub enum AmountOrAny {
    /// An amount, in millisatoshi.
    Amount(u64),
    /// Whatever is paid.
    Any,
}

/// An invoice that the node is asked to create.
#[derive(Debug)]
pub struct InvoiceRequest {
    /// The amount.
    pub amount_msat: AmountOrAny,
    /// The text that the invoice commits to.
    pub description: String,
    /// The label.
    pub label: String,
    /// Whether the invoice holds the hash of the description in place of it.
    pub deschashonly: bool,
}

/// The longest comment that an address with the settings `settings` takes.
pub open spec fn comment_limit(settings: UserMetadataView) -> u64 {
    match settings.comment_allowed {
        Some(allowed) => allowed,
        None => 0,
    }
}

/// Whether a payer may ask for the invoice `query`, as far as can be told without
/// reading a zap request: the amount is within the limits of the address, the
/// comment is not too long, and a zap is only asked for where zaps are accepted.
pub open spec fn query_check(
    state: PluginState,
    settings: UserMetadataView,
    query: InvoiceQueryView,
) -> Result<(), RefusalView> {
    match (
        amount_check(
            query.amount,
            settings.min_sendable(state.min_sendable_msat),
            settings.max_sendable(state.max_sendable_msat),
        ),
        comment_check(query.comment, comment_limit(settings)),
    ) {
        (Err(e), _) => Err(e),
        (_, Err(e)) => Err(e),
        (Ok(()), Ok(())) => if query.nostr is Some && !settings.accepts_zaps(
            signer(state) is Some,
        ) {
            Err(
                refusal(
                    StatusCode::BadRequest,
                    "Nostr Zaps are disabled for this Lightning Address"@,
                ),
            )
        } else {
            Ok(())
        },
    }
}

/// Refuses an invoice that a payer may not ask for, as far as can be told without
/// reading a zap request.
pub fn validate_query(
    state: &PluginState,
    user_meta: &UserMetadata,
    params: &InvoiceQueryParams,
) -> (r: Result<(), Refusal>)
    ensures
        check_view(r) == query_check(*state, user_meta@, params@),
{
    validate_invoice_amount(
        params.amount,
        user_meta.effective_min_sendable_msat(state),
        user_meta.effective_max_sendable_msat(state),
    )?;
    let comment: Option<&str> = match &params.comment {
        Some(comment) => Some(comment.as_str()),
        None => None,
    };
    validate_comment(comment, user_meta.comment_allowed.unwrap_or(0))?;
    if params.nostr.is_some() && !user_meta.allows_nostr(state) {
        return Err(
            refuse(
                StatusCode::BadRequest,
                "Nostr Zaps are disabled for this Lightning Address",
            ),
        );
    }
    Ok(())
}

/// The description of an invoice for the zap request `event`, where its
/// verification and its JSON are given: the JSON, if nothing is wrong with it.
pub open spec fn zap_description_with(
    event: EventView,
    verification: Result<(), Seq<char>>,
    json: Result<Seq<char>, Seq<char>>,
    amount: u64,
    signer: Seq<u8>,
) -> Result<Seq<char>, RefusalView> {
    match (verification, json, zap_request_fault(event.kind, event.tags, amount, signer)) {
        (Err(said), _, _) => Err(refusal(StatusCode::BadRequest, said)),
        (_, Err(said), _) => Err(refusal(StatusCode::BadRequest, said)),
        (_, _, Some(fault)) => Err(refusal(StatusCode::BadRequest, fault.text())),
        (Ok(()), Ok(json), None) => Ok(json),
    }
}

/// The description of an invoice for the zap request that is read from `raw`.
pub open spec fn zap_description(raw: Seq<char>, amount: u64, signer: Seq<u8>) -> Result<
    Seq<char>,
    RefusalView,
> {
    match event_from_json(raw) {
        Err(said) => Err(refusal(StatusCode::BadRequest, said)),
        Ok(event) => zap_description_with(
            event,
            event_verification(event),
            event_json(event),
            amount,
            signer,
        ),
    }
}

/// The description of an invoice for the zap request `event`, where its
/// verification and its JSON are given.
pub fn describe_zap_with(
    event: &Event,
    verification: Result<(), String>,
    json: Result<String, String>,
    amount: u64,
    keys: &ZapperKeys,
) -> (r: Result<String, Refusal>)
    ensures
        text_or_refusal_view(r) == zap_description_with(
            event@,
            unit_result_view(verification),
            text_result_view(json),
            amount,
            keys.public_key@,
        ),
{
    if let Err(said) = verification {
        return Err(refuse(StatusCode::BadRequest, said.as_str()));
    }
    match json {
        Err(said) => Err(refuse(StatusCode::BadRequest, said.as_str())),
        Ok(json) => match verify_zap_request(event, amount, keys) {
            Err(fault) => Err(refuse(StatusCode::BadRequest, fault.message().as_str())),
            Ok(()) => Ok(json),
        },
    }
}

/// The description of an invoice for the zap request that is read from `raw`.
pub fn describe_zap(raw: &str, amount: u64, keys: &ZapperKeys) -> (r: Result<String, Refusal>)
    ensures
        text_or_refusal_view(r) == zap_description(raw@, amount, keys.public_key@),
        r matches Ok(description) ==> event_from_json(raw@) is Ok && reads_as(
            description@,
            event_from_json(raw@)->Ok_0,
        ),
{
    match parse_event(raw) {
        Err(said) => Err(refuse(StatusCode::BadRequest, said.as_str())),
        Ok(event) => {
            if let Err(said) = verify_event(&event) {
                return Err(refuse(StatusCode::BadRequest, said.as_str()));
            }
            let json = write_event(&event);
            describe_zap_with(&event, Ok(()), json, amount, keys)
        },
    }
}

/// The description of the invoice that `query` asks for, for `user` or for no
/// user in particular; or why it is refused.
pub open spec fn invoice_description(
    state: PluginState,
    user: Option<Seq<char>>,
    query: InvoiceQueryView,
) -> Result<Seq<char>, RefusalView> {
    if !has_address(state, user) {
        Err(refusal(StatusCode::NotFound, missing_user_text(user->0)))
    } else {
        match (query_check(state, address_settings(state, user), query), query.nostr) {
            (Err(e), _) => Err(e),
            (Ok(()), Some(raw)) => zap_description(raw, query.amount, signer(state)->0),
            (Ok(()), None) => Ok(rows_json(address_rows(state, user))),
        }
    }
}

/// The amount of an invoice that a payer asks `amount` for.
pub open spec fn asked_amount(amount: u64) -> AmountOrAny {
    if amount > 0 {
        AmountOrAny::Amount(amount)
    } else {
        AmountOrAny::Any
    }
}

/// `request` is for an invoice of `amount` that commits to the hash of
/// `description`, under the label `label`.
pub open spec fn is_invoice_request(
    request: InvoiceRequest,
    amount: u64,
    description: Seq<char>,
    label: Seq<char>,
) -> bool {
    &&& request.amount_msat == asked_amount(amount)
    &&& request.description@ == description
    &&& request.label@ == label
    &&& request.deschashonly
}

/// The request for an invoice of `amount` that commits to the hash of
/// `description`, under the label `label`.
pub fn invoice_request(amount: u64, description: String, label: String) -> (r: InvoiceRequest)
    ensures
        is_invoice_request(r, amount, description@, label@),
{
    let amount_msat = if amount > 0 {
        AmountOrAny::Amount(amount)
    } else {
        AmountOrAny::Any
    };
    InvoiceRequest { amount_msat, description, label, deschashonly: true }
}

/// The invoice that the node is asked to create for a payer who asks for
/// `params`, for `user` or for no user in particular; or why it is refused.
pub fn get_invoice(
    maybe_user: Option<&str>,
    params: &InvoiceQueryParams,
    state: &PluginState,
) -> (r: Result<InvoiceRequest, Refusal>)
    ensures
        match invoice_description(*state, str_view(maybe_user), params@) {
            Err(e) => r matches Err(said) && said@ == e,
            Ok(description) => {
                &&& r matches Ok(request)
                &&& exists|uuid: Seq<char>| #[trigger]
                    is_uuid_v4(uuid) && is_invoice_request(
                        request,
                        params.amount,
                        description,
                        label_text(str_view(maybe_user), uuid),
                    )
            },
        },
        r is Ok && params.nostr is Some ==> event_from_json(params@.nostr->0) is Ok && reads_as(
            r->Ok_0.description@,
            event_from_json(params@.nostr->0)->Ok_0,
        ),
        r is Ok && params.nostr is None ==> event_from_json(r->Ok_0.description@) is Err,
        r is Ok && params.amount > 0 ==> r->Ok_0.amount_msat == AmountOrAny::Amount(params.amount),
        r is Ok ==> (r->Ok_0.amount_msat == AmountOrAny::Any <==> params.amount == 0),
{
    let user_meta = find_settings(state, maybe_user)?;
    validate_query(state, &user_meta, params)?;
    let description = match &params.nostr {
        Some(raw) => match &state.nostr_zapper_keys {
            Some(keys) => describe_zap(raw.as_str(), params.amount, keys)?,
            None => {
                return Err(
                    refuse(StatusCode::InternalServerError, "Nostr Zaps not configured"),
                );
            },
        },
        None => address_json(state, maybe_user, &user_meta),
    };
    Ok(invoice_request(params.amount, description, invoice_label(maybe_user)))
}

/// The answer to a payer, where the node created the invoice `outcome` or failed
/// to.
pub fn answer_invoice(outcome: Result<String, String>) -> (r: Result<LnurlpCallback, Refusal>)
    ensures
        match outcome {
            Ok(bolt11) => r matches Ok(callback) && callback.pr@ == bolt11@
                && callback.routes@.len() == 0,
            Err(error) => r matches Err(said) && said@ == refusal(
                StatusCode::InternalServerError,
                error@,
            ),
        },
{
    match outcome {
        Ok(bolt11) => Ok(LnurlpCallback { pr: bolt11, routes: Vec::new() }),
        Err(error) => Err(refuse(StatusCode::InternalServerError, error.as_str())),
    }
}

/// What `config` offers covers `query`, as far as amount and comment go.
pub open spec fn is_offered(config: LnurlpConfigView, query: InvoiceQueryView) -> bool {
    &&& config.min_sendable <= query.amount <= config.max_sendable
    &&& query.comment matches Some(comment) ==> comment.len() <= (match config.comment_allowed {
        Some(allowed) => allowed,
        None => 0,
    })
}

/// Who asks for what was offered, without a zap, gets an invoice, and it commits
/// to the metadata that was offered: neither the amount nor the comment changes
/// the description.
pub proof fn law_offered_invoice_is_created(
    state: PluginState,
    user: Option<Seq<char>>,
    query: InvoiceQueryView,
)
    requires
        has_address(state, user),
        is_offered(offer(state, user), query),
        query.nostr is None,
    ensures
        invoice_description(state, user, query) == Ok::<Seq<char>, RefusalView>(
            offer(state, user).metadata,
        ),
{
}

/// Nobody gets an invoice for what was not offered: the amount is within the
/// limits, the comment is not too long, and a zap is only paid where zaps were
/// offered.
pub proof fn law_created_invoice_was_offered(
    state: PluginState,
    user: Option<Seq<char>>,
    query: InvoiceQueryView,
)
    requires
        invoice_description(state, user, query) is Ok,
    ensures
        has_address(state, user),
        is_offered(offer(state, user), query),
        query.nostr is Some ==> offer(state, user).allows_nostr,
        query.nostr is None ==> invoice_description(state, user, query)->Ok_0 == offer(
            state,
            user,
        ).metadata,
{
}

/// Where zaps are offered, a verified and sound zap request gets an invoice that
/// commits to the request.
pub proof fn law_sound_zap_gets_an_invoice(
    state: PluginState,
    user: Option<Seq<char>>,
    query: InvoiceQueryView,
    event: EventView,
    json: Seq<char>,
)
    requires
        has_address(state, user),
        is_offered(offer(state, user), query),
        offer(state, user).allows_nostr,
        query.nostr matches Some(raw) && reads_as(raw, event),
        event_verification(event) is Ok,
        event_json(event) == Ok::<Seq<char>, Seq<char>>(json),
        sound_zap_request(event.kind, event.tags, query.amount, signer(state)->0),
    ensures
        invoice_description(state, user, query) == Ok::<Seq<char>, RefusalView>(json),
{
    law_zap_request_accepted_iff_sound(event.kind, event.tags, query.amount, signer(state)->0);
}

/// An invoice is only created for a zap request that is verified and sound.
pub proof fn law_zap_invoice_is_for_a_sound_request(
    state: PluginState,
    user: Option<Seq<char>>,
    query: InvoiceQueryView,
)
    requires
        invoice_description(state, user, query) is Ok,
        query.nostr is Some,
    ensures
        event_from_json(query.nostr->0) matches Ok(event) && event_verification(event) is Ok
            && sound_zap_request(event.kind, event.tags, query.amount, signer(state)->0),
{
    let event = event_from_json(query.nostr->0)->Ok_0;
    law_zap_request_accepted_iff_sound(event.kind, event.tags, query.amount, signer(state)->0);
}

/// An address that does not accept zaps says so, names no key for them, and
/// refuses them.
pub proof fn law_disabled_zaps_are_refused(
    state: PluginState,
    user: Option<Seq<char>>,
    query: InvoiceQueryView,
)
    requires
        has_address(state, user),
        address_settings(state, user).nostr_enabled == Some(false) || state.nostr_zapper_keys is None,
        query.nostr is Some,
    ensures
        !offer(state, user).allows_nostr,
        offer(state, user).nostr_pubkey is None,
        invoice_description(state, user, query) is Err,
{
}

/// An address accepts zaps, and names the key that receipts are signed with, where
/// the server has one and the address does not disable them.
pub proof fn law_zaps_are_offered_by_default(state: PluginState, user: Option<Seq<char>>)
    requires
        address_settings(state, user).nostr_enabled != Some(false),
        state.nostr_zapper_keys is Some,
    ensures
        offer(state, user).allows_nostr,
        offer(state, user).nostr_pubkey == Some(lower_hex(signer(state)->0)),
{
}

/// The key that is offered for zaps is the one that a zap request may name in a
/// `P` tag.
pub proof fn law_offered_key_is_the_signer(
    state: PluginState,
    user: Option<Seq<char>>,
    tags: Seq<Seq<Seq<char>>>,
    i: int,
)
    requires
        offer(state, user).nostr_pubkey is Some,
        0 <= i < tags.len(),
        lettered(tags, i, 'P'),
        tags[i].len() >= 2,
        tags[i][1] == offer(state, user).nostr_pubkey->0,
    ensures
        !other_signer(tags, i, signer(state)->0),
{
    lemma_key_hex_round_trip(signer(state)->0);
}

/// A comment decides at most whether there is an invoice, not what it commits to.
pub proof fn law_comment_is_not_described(
    state: PluginState,
    user: Option<Seq<char>>,
    query: InvoiceQueryView,
    other: InvoiceQueryView,
)
    requires
        query.amount == other.amount,
        query.nostr == other.nostr,
        invoice_description(state, user, query) is Ok,
        invoice_description(state, user, other) is Ok,
    ensures
        invoice_description(state, user, query) == invoice_description(state, user, other),
{
}

/// Every refusal says that it is an error.
pub proof fn law_refusals_are_errors(
    state: PluginState,
    user: Option<Seq<char>>,
    query: InvoiceQueryView,
)
    ensures
        invoice_description(state, user, query) matches Err(said) ==> said.status == "ERROR"@,
        offer_or_refusal(state, user) matches Err(said) ==> said.status == "ERROR"@,
{
}

/// Where the settings of the users and of the server are accepted ones, every
/// address has an amount that it can be paid.
pub proof fn law_offered_range_is_not_empty(state: PluginState, user: Option<Seq<char>>)
    requires
        has_address(state, user),
        state.min_sendable_msat <= state.max_sendable_msat,
        accepted_settings(state.users@, state.min_sendable_msat, state.max_sendable_msat),
    ensures
        offer(state, user).min_sendable <= offer(state, user).max_sendable,
{
    if user is Some {
        assert(state.users@.contains_key(user->0));
    }
}

/// An invoice is for exactly the amount that was asked for, to the millisatoshi; it
/// is for any amount exactly if none was asked for.
pub proof fn law_invoice_is_for_the_asked_amount(
    request: InvoiceRequest,
    amount: u64,
    description: Seq<char>,
    label: Seq<char>,
)
    requires
        is_invoice_request(request, amount, description, label),
    ensures
        amount > 0 ==> request.amount_msat == AmountOrAny::Amount(amount),
        request.amount_msat == AmountOrAny::Any <==> amount == 0,
        request.description@ == description,
        request.label@ == label,
        request.deschashonly,
{
}

/// Requests for different amounts are for different amounts.
pub proof fn law_amounts_are_told_apart(amount: u64, other: u64)
    ensures
        asked_amount(amount) == asked_amount(other) <==> amount == other,
{
}

/// Who pays a user without a zap gets an invoice exactly if the amount is between the
/// limits of the user, or those of the server where the user has none, and the
/// comment has no more characters than the user allows; and the invoice commits to
/// what a payer is shown of that user.
pub proof fn law_invoices_of_a_user(state: PluginState, user: Seq<char>, query: InvoiceQueryView)
    requires
        state.users@.contains_key(user),
        query.nostr is None,
    ensures
        ({
            let own = state.users@[user];
            let min = match own.min_sendable_msat {
                Some(min) => min,
                None => state.min_sendable_msat,
            };
            let max = match own.max_sendable_msat {
                Some(max) => max,
                None => state.max_sendable_msat,
            };
            let allowed = match own.comment_allowed {
                Some(allowed) => allowed,
                None => 0,
            };
            let outcome = invoice_description(state, Some(user), query);
            &&& outcome is Ok <==> min <= query.amount <= max && (query.comment matches Some(comment)
                ==> comment.len() <= allowed)
            &&& outcome matches Ok(description) ==> description == rows_json(
                user_rows(state.default_description@, state.base_url@, user, own),
            )
            &&& outcome matches Err(said) ==> said.code == StatusCode::BadRequest
        }),
{
}

/// Who pays no user in particular, without a zap, gets an invoice exactly if the
/// amount is between the limits of the server and there is no comment, or an empty
/// one; and the invoice commits to the description of the server.
pub proof fn law_invoices_of_the_server(state: PluginState, query: InvoiceQueryView)
    requires
        query.nostr is None,
    ensures
        ({
            let outcome = invoice_description(state, None, query);
            &&& outcome is Ok <==> state.min_sendable_msat <= query.amount
                <= state.max_sendable_msat && (query.comment matches Some(comment)
                ==> comment.len() == 0)
            &&& outcome matches Ok(description) ==> description == rows_json(
                seq![seq!["text/plain"@, state.default_description@]],
            )
            &&& outcome matches Err(said) ==> said.code == StatusCode::BadRequest
        }),
{
}

/// Nobody gets an invoice for a user that is not there.
pub proof fn law_unknown_users_get_no_invoices(
    state: PluginState,
    user: Seq<char>,
    query: InvoiceQueryView,
)
    requires
        !state.users@.contains_key(user),
    ensures
        invoice_description(state, Some(user), query) == Err::<Seq<char>, RefusalView>(
            RefusalView {
                code: StatusCode::NotFound,
                status: "ERROR"@,
                reason: "User `"@ + user + "` not found!"@,
            },
        ),
{
}

/// A zap gets an invoice exactly if the same payment without a zap would, the server
/// has a key and the user does not disable zaps, and the zap request is read, is
/// verified, can be written and is accepted; and the invoice commits to the zap
/// request as it is written.
pub proof fn law_zap_invoices(
    state: PluginState,
    user: Option<Seq<char>>,
    query: InvoiceQueryView,
    keys: ZapperKeys,
    raw: Seq<char>,
)
    requires
        user matches Some(name) ==> state.users@.contains_key(name),
        state.nostr_zapper_keys == Some(keys),
        user matches Some(name) ==> state.users@[name].nostr_enabled != Some(false),
        query.nostr == Some(raw),
    ensures
        ({
            let plain = InvoiceQueryView { nostr: None, ..query };
            let outcome = invoice_description(state, user, query);
            &&& outcome is Ok <==> invoice_description(state, user, plain) is Ok && (event_from_json(
                raw,
            ) matches Ok(event) && event_verification(event) is Ok && event_json(event) is Ok
                && zap_request_fault(event.kind, event.tags, query.amount, keys.public_key@) is None)
            &&& outcome matches Ok(description) ==> (event_from_json(raw) matches Ok(event)
                && event_json(event) == Ok::<Seq<char>, Seq<char>>(description))
            &&& outcome matches Err(said) ==> said.code == StatusCode::BadRequest && said.status
                == "ERROR"@
        }),
{
}

/// What a zap is refused for: what is said against reading, verifying or writing the
/// request, or else what is wrong with it.
pub proof fn law_refused_zaps_say_why(
    event: EventView,
    verification: Result<(), Seq<char>>,
    json: Result<Seq<char>, Seq<char>>,
    amount: u64,
    signer: Seq<u8>,
)
    ensures
        verification matches Err(said) ==> zap_description_with(
            event,
            verification,
            json,
            amount,
            signer,
        ) == Err::<Seq<char>, RefusalView>(
            RefusalView { code: StatusCode::BadRequest, status: "ERROR"@, reason: said },
        ),
        verification is Ok ==> (json matches Err(said) ==> zap_description_with(
            event,
            verification,
            json,
            amount,
            signer,
        ) == Err::<Seq<char>, RefusalView>(
            RefusalView { code: StatusCode::BadRequest, status: "ERROR"@, reason: said },
        )),
        verification is Ok && json is Ok ==> (zap_request_fault(
            event.kind,
            event.tags,
            amount,
            signer,
        ) matches Some(fault) ==> zap_description_with(
            event,
            verification,
            json,
            amount,
            signer,
        ) == Err::<Seq<char>, RefusalView>(
            RefusalView { code: StatusCode::BadRequest, status: "ERROR"@, reason: fault.text() },
        )),
{
}

/// No field of a query is lost in its view.
pub proof fn law_query_view_keeps_every_field(params: InvoiceQueryParams)
    ensures
        params@.amount == params.amount,
        params.nostr matches Some(raw) ==> params@.nostr == Some(raw@),
        params.nostr is None ==> params@.nostr is None,
        params.comment matches Some(comment) ==> params@.comment == Some(comment@),
        params.comment is None ==> params@.comment is None,
{
}

} // verus!
