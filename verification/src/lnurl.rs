//! What a server offers to a payer over LNURL, and how it refuses requests.

use vstd::prelude::*;
use vstd::string::*;

use crate::base_url::{callback_path, callback_url, is_directory, BaseUrlView};
use crate::event::{event_from_json, lower_hex, public_key_to_hex};
use crate::state::{LnurlpConfig, PluginState};
use crate::text::{decimal, push_number, str_view, text_view};
use crate::user::{canonical_user, UserMetadata, UserMetadataView};

verus! {

/// The status that a refusal is sent with.
#[derive(Debug, Clone, Copy, PartialEq, Eq, Structural)]
pub enum StatusCode {
    BadRequest,
    NotFound,
    InternalServerError,
}

impl StatusCode {
    /// The number of the status.
    pub fn as_u16(&self) -> (r: u16)
        ensures
            r == (match *self {
                StatusCode::BadRequest => 400u16,
                StatusCode::NotFound => 404u16,
                StatusCode::InternalServerError => 500u16,
            }),
    {
        match self {
            StatusCode::BadRequest => 400,
            StatusCode::NotFound => 404,
            StatusCode::InternalServerError => 500,
        }
    }
}

/// The answer to a request that is refused.
#[derive(Debug)]
pub struct LnurlError {
    /// That this is an error.
    pub status: String,
    /// Why the request is refused.
    pub reason: String,
}

/// A refusal of a request.
#[derive(Debug)]
pub struct Refusal {
    /// The status that it is sent with.
    pub code: StatusCode,
    /// What is sent.
    pub body: LnurlError,
}

/// A refusal of a request, over sequences.
pub struct RefusalView {
    pub code: StatusCode,
    pub status: Seq<char>,
    pub reason: Seq<char>,
}

impl View for Refusal {
    type V = RefusalView;

    open spec fn view(&self) -> RefusalView {
        RefusalView { code: self.code, status: self.body.status@, reason: self.body.reason@ }
    }
}

/// The refusal for `reason`, sent with `code`.
pub open spec fn refusal(code: StatusCode, reason: Seq<char>) -> RefusalView {
    RefusalView { code, status: "ERROR"@, reason }
}

/// The result of a check, over sequences.
pub open spec fn check_view(r: Result<(), Refusal>) -> Result<(), RefusalView> {
    match r {
        Ok(()) => Ok(()),
        Err(e) => Err(e@),
    }
}

/// The result of making a text, over sequences.
pub open spec fn text_or_refusal_view(r: Result<String, Refusal>) -> Result<
    Seq<char>,
    RefusalView,
> {
    match r {
        Ok(text) => Ok(text@),
        Err(e) => Err(e@),
    }
}

/// The answer to a request that is refused for `error`.
pub fn lnurl_error(error: &str) -> (r: LnurlError)
    ensures
        r.status@ == "ERROR"@,
        r.reason@ == error@,
{
    LnurlError { status: "ERROR".to_owned(), reason: error.to_owned() }
}

/// The refusal for `error`, sent with `code`.
pub(crate) fn refuse(code: StatusCode, error: &str) -> (r: Refusal)
    ensures
        r@ == refusal(code, error@),
{
    Refusal { code, body: lnurl_error(error) }
}

/// Two numbers of which `text` speaks, with `between` between them.
pub open spec fn comparison_text(
    text: Seq<char>,
    left: nat,
    between: Seq<char>,
    right: nat,
) -> Seq<char> {
    text + decimal(left) + between + decimal(right)
}

fn comparison(text: &str, left: u64, between: &str, right: u64) -> (r: String)
    ensures
        r@ == comparison_text(text@, left as nat, between@, right as nat),
{
    let mut out = text.to_owned();
    push_number(&mut out, left, 10);
    out.append(between);
    push_number(&mut out, right, 10);
    out
}

/// Whether an invoice for `amount` is within the limits.
pub open spec fn amount_check(amount: u64, min: u64, max: u64) -> Result<(), RefusalView> {
    if amount < min {
        Err(
            refusal(
                StatusCode::BadRequest,
                comparison_text("`amount` below minimum: "@, amount as nat, "<"@, min as nat),
            ),
        )
    } else if amount > max {
        Err(
            refusal(
                StatusCode::BadRequest,
                comparison_text("`amount` above maximum: "@, amount as nat, ">"@, max as nat),
            ),
        )
    } else {
        Ok(())
    }
}

/// Refuses an amount outside the limits.
pub fn validate_invoice_amount(
    requested_amount: u64,
    min_sendable_msat: u64,
    max_sendable_msat: u64,
) -> (r: Result<(), Refusal>)
    ensures
        check_view(r) == amount_check(requested_amount, min_sendable_msat, max_sendable_msat),
{
    if requested_amount < min_sendable_msat {
        let reason = comparison(
            "`amount` below minimum: ",
            requested_amount,
            "<",
            min_sendable_msat,
        );
        return Err(refuse(StatusCode::BadRequest, reason.as_str()));
    }
    if requested_amount > max_sendable_msat {
        let reason = comparison(
            "`amount` above maximum: ",
            requested_amount,
            ">",
            max_sendable_msat,
        );
        return Err(refuse(StatusCode::BadRequest, reason.as_str()));
    }
    Ok(())
}

/// Whether `comment` has at most `allowed` characters.
pub open spec fn comment_check(comment: Option<Seq<char>>, allowed: u64) -> Result<
    (),
    RefusalView,
> {
    match comment {
        Some(comment) => if comment.len() > allowed {
            Err(
                refusal(
                    StatusCode::BadRequest,
                    comparison_text(
                        "`comment` exceeds maximum length: "@,
                        comment.len(),
                        ">"@,
                        allowed as nat,
                    ),
                ),
            )
        } else {
            Ok(())
        },
        None => Ok(()),
    }
}

/// Refuses a comment of more than `comment_allowed` characters.
pub fn validate_comment(comment: Option<&str>, comment_allowed: u64) -> (r: Result<(), Refusal>)
    ensures
        check_view(r) == comment_check(str_view(comment), comment_allowed),
{
    if let Some(comment) = comment {
        let length: u64 = comment.unicode_len() as u64;
        if length > comment_allowed {
            let reason = comparison(
                "`comment` exceeds maximum length: ",
                length,
                ">",
                comment_allowed,
            );
            return Err(refuse(StatusCode::BadRequest, reason.as_str()));
        }
    }
    Ok(())
}

/// What is said of a user that is not there.
pub open spec fn missing_user_text(user: Seq<char>) -> Seq<char> {
    "User `"@ + user + "` not found!"@
}

/// The settings of `user`, or that there is no such user.
pub fn get_user_metadata(state: &PluginState, user: &str) -> (r: Result<UserMetadata, String>)
    ensures
        match r {
            Ok(metadata) => state.users@.contains_key(user@) && metadata@ == state.users@[user@]
                && canonical_user(user@),
            Err(said) => !state.users@.contains_key(user@) && said@ == missing_user_text(user@),
        },
{
    match state.users.get(user) {
        Some(metadata) => Ok(metadata),
        None => {
            let mut said = "User `".to_owned();
            said.append(user);
            said.append("` not found!");
            Err(said)
        },
    }
}

/// The address of `user` on the host of `base`.
pub open spec fn address_text(user: Seq<char>, base: BaseUrlView) -> Seq<char> {
    let at_host = user + "@"@ + base.host;
    match base.port {
        Some(port) => at_host + ":"@ + decimal(port as nat),
        None => at_host,
    }
}

/// What a payer is shown for no user in particular.
pub open spec fn direct_rows(default_description: Seq<char>) -> Seq<Seq<Seq<char>>> {
    seq![seq!["text/plain"@, default_description]]
}

/// What a payer is shown for `user` with the settings `settings`: the description
/// and the address.
pub open spec fn user_rows(
    default_description: Seq<char>,
    base: BaseUrlView,
    user: Seq<char>,
    settings: UserMetadataView,
) -> Seq<Seq<Seq<char>>> {
    let description = match settings.description {
        Some(description) => description,
        None => default_description,
    };
    let kind = if settings.is_email == Some(true) {
        "text/email"@
    } else {
        "text/identifier"@
    };
    seq![seq!["text/plain"@, description], seq![kind, address_text(user, base)]]
}

/// A row of two texts.
fn row(kind: &str, text: &str) -> (r: Vec<String>)
    ensures
        r.deep_view() == seq![kind@, text@],
{
    let mut row: Vec<String> = Vec::new();
    row.push(kind.to_owned());
    row.push(text.to_owned());
    assert(row.deep_view() =~= seq![kind@, text@]);
    row
}

/// What a payer is shown for no user in particular.
pub fn generate_direct_metadata(state: &PluginState) -> (r: Vec<Vec<String>>)
    ensures
        r.deep_view() == direct_rows(state.default_description@),
{
    let mut rows: Vec<Vec<String>> = Vec::new();
    rows.push(row("text/plain", state.default_description.as_str()));
    assert(rows.deep_view() =~= direct_rows(state.default_description@));
    rows
}

/// What a payer is shown for `user` with the settings `user_meta`.
pub fn generate_user_metadata(state: &PluginState, user: &str, user_meta: &UserMetadata) -> (r: Vec<
    Vec<String>,
>)
    ensures
        r.deep_view() == user_rows(
            state.default_description@,
            state.base_url@,
            user@,
            user_meta@,
        ),
{
    let description: &str = match &user_meta.description {
        Some(description) => description.as_str(),
        None => state.default_description.as_str(),
    };
    let mut address = user.to_owned();
    address.append("@");
    address.append(state.base_url.host());
    if let Some(port) = state.base_url.port() {
        address.append(":");
        push_number(&mut address, port as u64, 10);
    }
    let kind: &str = if user_meta.is_email.unwrap_or(false) {
        "text/email"
    } else {
        "text/identifier"
    };
    let mut rows: Vec<Vec<String>> = Vec::new();
    rows.push(row("text/plain", description));
    rows.push(row(kind, address.as_str()));
    assert(rows.deep_view() =~= user_rows(
        state.default_description@,
        state.base_url@,
        user@,
        user_meta@,
    ));
    rows
}

/// What `serde_json::to_string` makes of rows of texts.
pub uninterp spec fn rows_json(rows: Seq<Seq<Seq<char>>>) -> Seq<char>;

/// `serde_json::to_string`, on rows of texts, where it never fails. The result is
/// a function of the rows alone. It is an array of arrays, which
/// `nostr::event::Event::from_json` refuses, as the first part of an event is a
/// string.
#[verifier::external_body]
fn rows_to_json(rows: &Vec<Vec<String>>) -> (r: String)
    ensures
        r@ == rows_json(rows.deep_view()),
        event_from_json(r@) is Err,
{
    serde_json::to_string(rows).unwrap()
}

/// There is an address for `user`: it is a user, or none in particular.
pub open spec fn has_address(state: PluginState, user: Option<Seq<char>>) -> bool {
    user matches Some(user) ==> state.users@.contains_key(user)
}

/// The settings of the address of `user`. The address for no user in particular
/// has no settings of its own.
pub open spec fn address_settings(state: PluginState, user: Option<Seq<char>>) -> UserMetadataView {
    match user {
        Some(user) => state.users@[user],
        None => UserMetadataView::unset(),
    }
}

/// What a payer is shown for `user`, or for no user in particular.
pub open spec fn address_rows(state: PluginState, user: Option<Seq<char>>) -> Seq<Seq<Seq<char>>> {
    match user {
        Some(user) => user_rows(
            state.default_description@,
            state.base_url@,
            user,
            state.users@[user],
        ),
        None => direct_rows(state.default_description@),
    }
}

/// The settings of the address of `user`, or a refusal where there is no such
/// user.
pub(crate) fn find_settings(state: &PluginState, user: Option<&str>) -> (r: Result<UserMetadata, Refusal>)
    ensures
        match r {
            Ok(metadata) => {
                &&& has_address(*state, str_view(user))
                &&& metadata@ == address_settings(*state, str_view(user))
                &&& user matches Some(user) ==> canonical_user(user@)
            },
            Err(said) => {
                &&& user matches Some(user)
                &&& !state.users@.contains_key(user@)
                &&& said@ == refusal(StatusCode::NotFound, missing_user_text(user@))
            },
        },
{
    match user {
        Some(user) => match get_user_metadata(state, user) {
            Ok(metadata) => Ok(metadata),
            Err(said) => Err(refuse(StatusCode::NotFound, said.as_str())),
        },
        None => Ok(UserMetadata::default()),
    }
}

/// What a payer is shown for `user`, as JSON.
pub(crate) fn address_json(state: &PluginState, user: Option<&str>, metadata: &UserMetadata) -> (r: String)
    requires
        has_address(*state, str_view(user)),
        metadata@ == address_settings(*state, str_view(user)),
    ensures
        r@ == rows_json(address_rows(*state, str_view(user))),
        event_from_json(r@) is Err,
{
    match user {
        Some(user) => rows_to_json(&generate_user_metadata(state, user, metadata)),
        None => rows_to_json(&generate_direct_metadata(state)),
    }
}

/// What a server offers to pay to an address, over sequences.
pub struct LnurlpConfigView {
    pub callback: Seq<char>,
    pub max_sendable: u64,
    pub min_sendable: u64,
    pub metadata: Seq<char>,
    pub tag: Seq<char>,
    pub comment_allowed: Option<u64>,
    pub allows_nostr: bool,
    pub nostr_pubkey: Option<Seq<char>>,
}

impl View for LnurlpConfig {
    type V = LnurlpConfigView;

    open spec fn view(&self) -> LnurlpConfigView {
        LnurlpConfigView {
            callback: self.callback@,
            max_sendable: self.max_sendable,
            min_sendable: self.min_sendable,
            metadata: self.metadata@,
            tag: self.tag@,
            comment_allowed: self.comment_allowed,
            allows_nostr: self.allows_nostr,
            nostr_pubkey: text_view(self.nostr_pubkey),
        }
    }
}

/// The public key that receipts are signed with, where there is one.
pub open spec fn signer(state: PluginState) -> Option<Seq<u8>> {
    match state.nostr_zapper_keys {
        Some(keys) => Some(keys.public_key@),
        None => None,
    }
}

/// The offer for an address with the settings `settings`, where `callback` and
/// `metadata` are given.
pub open spec fn offer_with(
    state: PluginState,
    settings: UserMetadataView,
    callback: Seq<char>,
    metadata: Seq<char>,
) -> LnurlpConfigView {
    let allows_nostr = settings.accepts_zaps(signer(state) is Some);
    LnurlpConfigView {
        callback,
        max_sendable: settings.max_sendable(state.max_sendable_msat),
        min_sendable: settings.min_sendable(state.min_sendable_msat),
        metadata,
        tag: "payRequest"@,
        comment_allowed: settings.comment_allowed,
        allows_nostr,
        nostr_pubkey: if allows_nostr {
            Some(lower_hex(signer(state)->0))
        } else {
            None
        },
    }
}

/// The offer for the address of `user`, or of no user in particular.
pub open spec fn offer(state: PluginState, user: Option<Seq<char>>) -> LnurlpConfigView {
    offer_with(
        state,
        address_settings(state, user),
        callback_url(state.base_url@.text, user),
        rows_json(address_rows(state, user)),
    )
}

/// The offer for the address of `user`, or a refusal where there is no such user.
pub open spec fn offer_or_refusal(state: PluginState, user: Option<Seq<char>>) -> Result<
    LnurlpConfigView,
    RefusalView,
> {
    if has_address(state, user) {
        Ok(offer(state, user))
    } else {
        Err(refusal(StatusCode::NotFound, missing_user_text(user->0)))
    }
}

/// The result of making an offer, over sequences.
pub open spec fn config_view(r: Result<LnurlpConfig, Refusal>) -> Result<
    LnurlpConfigView,
    RefusalView,
> {
    match r {
        Ok(config) => Ok(config@),
        Err(e) => Err(e@),
    }
}

/// The offer for an address with the settings `user_meta`, where `callback` and
/// `metadata` are given.
pub fn lnurlp_config_with(
    state: &PluginState,
    user_meta: &UserMetadata,
    callback: String,
    metadata: String,
) -> (r: LnurlpConfig)
    ensures
        r@ == offer_with(*state, user_meta@, callback@, metadata@),
{
    let allows_nostr = user_meta.allows_nostr(state);
    let nostr_pubkey: Option<String> = if allows_nostr {
        match &state.nostr_zapper_keys {
            Some(keys) => Some(public_key_to_hex(&keys.public_key)),
            None => None,
        }
    } else {
        None
    };
    LnurlpConfig {
        callback,
        max_sendable: user_meta.effective_max_sendable_msat(state),
        min_sendable: user_meta.effective_min_sendable_msat(state),
        metadata,
        tag: "payRequest".to_owned(),
        comment_allowed: user_meta.comment_allowed,
        allows_nostr,
        nostr_pubkey,
    }
}

/// The offer for the address of `user`, or of no user in particular; a refusal
/// where there is no such user.
pub fn get_lnurlp_config(maybe_user: Option<&str>, state: &PluginState) -> (r: Result<
    LnurlpConfig,
    Refusal,
>)
    ensures
        config_view(r) == offer_or_refusal(*state, str_view(maybe_user)),
        r matches Ok(config) ==> (is_directory(state.base_url@.href) ==> config.callback@
            == state.base_url@.href + callback_path(str_view(maybe_user))),
{
    let user_meta = find_settings(state, maybe_user)?;
    let callback = state.base_url.callback(maybe_user);
    let metadata = address_json(state, maybe_user, &user_meta);
    Ok(lnurlp_config_with(state, &user_meta, callback, metadata))
}

/// An amount is accepted exactly if it is between the limits, both included; else it
/// is said which limit it is beyond.
pub proof fn law_amounts_between_the_limits_are_accepted(amount: u64, min: u64, max: u64)
    ensures
        amount_check(amount, min, max) is Ok <==> min <= amount <= max,
        amount < min ==> amount_check(amount, min, max) == Err::<(), RefusalView>(
            RefusalView {
                code: StatusCode::BadRequest,
                status: "ERROR"@,
                reason: "`amount` below minimum: "@ + decimal(amount as nat) + "<"@ + decimal(
                    min as nat,
                ),
            },
        ),
        min <= amount && amount > max ==> amount_check(amount, min, max) == Err::<(), RefusalView>(
            RefusalView {
                code: StatusCode::BadRequest,
                status: "ERROR"@,
                reason: "`amount` above maximum: "@ + decimal(amount as nat) + ">"@ + decimal(
                    max as nat,
                ),
            },
        ),
{
}

/// A comment is accepted exactly if it has no more characters than are allowed; no
/// comment always is.
pub proof fn law_comments_up_to_the_limit_are_accepted(comment: Seq<char>, allowed: u64)
    ensures
        comment_check(None, allowed) is Ok,
        comment_check(Some(comment), allowed) is Ok <==> comment.len() <= allowed,
        comment.len() > allowed ==> comment_check(Some(comment), allowed) == Err::<(), RefusalView>(
            RefusalView {
                code: StatusCode::BadRequest,
                status: "ERROR"@,
                reason: "`comment` exceeds maximum length: "@ + decimal(comment.len()) + ">"@
                    + decimal(allowed as nat),
            },
        ),
{
}

/// What is refused is refused with the status and for the reason that are given.
pub proof fn law_refusals_hold_their_reason(
    code: StatusCode,
    reason: Seq<char>,
    said: Refusal,
    user: Seq<char>,
)
    ensures
        refusal(code, reason).code == code,
        refusal(code, reason).status == "ERROR"@,
        refusal(code, reason).reason == reason,
        said@.code == said.code,
        said@.status == said.body.status@,
        said@.reason == said.body.reason@,
        missing_user_text(user) == "User `"@ + user + "` not found!"@,
{
}

/// What a payer is shown of a user: first its description, or that of the server
/// where it has none; then its address, as an e-mail address exactly if it is marked
/// as one, and as an identifier if it is marked as none or not marked at all.
pub proof fn law_rows_of_a_user(
    default_description: Seq<char>,
    base: BaseUrlView,
    user: Seq<char>,
    settings: UserMetadataView,
)
    ensures
        ({
            let rows = user_rows(default_description, base, user, settings);
            &&& rows.len() == 2
            &&& rows[0].len() == 2 && rows[0][0] == "text/plain"@
            &&& settings.description matches Some(own) ==> rows[0][1] == own
            &&& settings.description is None ==> rows[0][1] == default_description
            &&& rows[1].len() == 2
            &&& settings.is_email == Some(true) ==> rows[1][0] == "text/email"@
            &&& settings.is_email == Some(false) ==> rows[1][0] == "text/identifier"@
            &&& settings.is_email is None ==> rows[1][0] == "text/identifier"@
            &&& base.port is None ==> rows[1][1] == user + "@"@ + base.host
            &&& base.port matches Some(port) ==> rows[1][1] == user + "@"@ + base.host + ":"@
                + decimal(port as nat)
        }),
        direct_rows(default_description).len() == 1,
        direct_rows(default_description)[0] == seq!["text/plain"@, default_description],
{
}

/// An address that is marked as no e-mail address is shown as one that is not marked
/// at all; and nothing else of what a payer is shown depends on the mark.
pub proof fn law_the_mark_decides_the_name_of_the_address(
    default_description: Seq<char>,
    base: BaseUrlView,
    user: Seq<char>,
    settings: UserMetadataView,
)
    ensures
        ({
            let as_no_mail = user_rows(
                default_description,
                base,
                user,
                UserMetadataView { is_email: Some(false), ..settings },
            );
            let as_mail = user_rows(
                default_description,
                base,
                user,
                UserMetadataView { is_email: Some(true), ..settings },
            );
            &&& as_no_mail == user_rows(
                default_description,
                base,
                user,
                UserMetadataView { is_email: None, ..settings },
            )
            &&& as_mail != as_no_mail
            &&& as_mail[0] == as_no_mail[0]
            &&& as_mail[1][1] == as_no_mail[1][1]
        }),
{
    let as_no_mail = user_rows(
        default_description,
        base,
        user,
        UserMetadataView { is_email: Some(false), ..settings },
    );
    let as_mail = user_rows(
        default_description,
        base,
        user,
        UserMetadataView { is_email: Some(true), ..settings },
    );
    reveal_strlit("text/email");
    reveal_strlit("text/identifier");
    assert("text/email"@.len() != "text/identifier"@.len());
    assert(as_mail[1][0] != as_no_mail[1][0]);
}

/// What is offered for a user: its own limits, or those of the server where it has
/// none; its own comment limit; what a payer is shown of it; and zaps, with the key
/// of the server, unless there is no key or the user disables them.
pub proof fn law_offer_of_a_user(state: PluginState, user: Seq<char>)
    requires
        state.users@.contains_key(user),
    ensures
        offer_or_refusal(state, Some(user)) matches Ok(config) && {
            let own = state.users@[user];
            &&& config.tag == "payRequest"@
            &&& own.min_sendable_msat matches Some(min) ==> config.min_sendable == min
            &&& own.min_sendable_msat is None ==> config.min_sendable == state.min_sendable_msat
            &&& own.max_sendable_msat matches Some(max) ==> config.max_sendable == max
            &&& own.max_sendable_msat is None ==> config.max_sendable == state.max_sendable_msat
            &&& config.comment_allowed == own.comment_allowed
            &&& config.metadata == rows_json(
                user_rows(state.default_description@, state.base_url@, user, own),
            )
            &&& state.nostr_zapper_keys is None || own.nostr_enabled == Some(false)
                ==> !config.allows_nostr && config.nostr_pubkey is None
            &&& state.nostr_zapper_keys matches Some(keys) ==> own.nostr_enabled != Some(false)
                ==> config.allows_nostr && config.nostr_pubkey == Some(lower_hex(keys.public_key@))
            &&& config.callback == callback_url(state.base_url@.text, Some(user))
        },
{
}

/// What is offered for no user in particular: the limits of the server, no comments,
/// the description of the server, and zaps with the key of the server if it has one.
pub proof fn law_offer_of_the_server(state: PluginState)
    ensures
        offer_or_refusal(state, None) matches Ok(config) && {
            &&& config.tag == "payRequest"@
            &&& config.min_sendable == state.min_sendable_msat
            &&& config.max_sendable == state.max_sendable_msat
            &&& config.comment_allowed is None
            &&& config.metadata == rows_json(
                seq![seq!["text/plain"@, state.default_description@]],
            )
            &&& state.nostr_zapper_keys is None ==> !config.allows_nostr && config.nostr_pubkey
                is None
            &&& state.nostr_zapper_keys matches Some(keys) ==> config.allows_nostr
                && config.nostr_pubkey == Some(lower_hex(keys.public_key@))
            &&& config.callback == callback_url(state.base_url@.text, None)
        },
{
}

/// A user that is not there is offered nothing, and it is said which user that is.
pub proof fn law_unknown_users_are_not_found(state: PluginState, user: Seq<char>)
    requires
        !state.users@.contains_key(user),
    ensures
        offer_or_refusal(state, Some(user)) == Err::<LnurlpConfigView, RefusalView>(
            RefusalView {
                code: StatusCode::NotFound,
                status: "ERROR"@,
                reason: "User `"@ + user + "` not found!"@,
            },
        ),
{
}

/// No field of an offer is lost in its view.
pub proof fn law_offer_view_keeps_every_field(config: LnurlpConfig)
    ensures
        config@.callback == config.callback@,
        config@.max_sendable == config.max_sendable,
        config@.min_sendable == config.min_sendable,
        config@.metadata == config.metadata@,
        config@.tag == config.tag@,
        config@.comment_allowed == config.comment_allowed,
        config@.allows_nostr == config.allows_nostr,
        config.nostr_pubkey matches Some(key) ==> config@.nostr_pubkey == Some(key@),
        config.nostr_pubkey is None ==> config@.nostr_pubkey is None,
{
}

/// Nothing of a result is lost in its view.
pub proof fn law_refusal_results_keep_everything(text: String, config: LnurlpConfig, said: Refusal)
    ensures
        check_view(Ok(())) is Ok,
        check_view(Err(said)) == Err::<(), RefusalView>(said@),
        text_or_refusal_view(Ok(text)) == Ok::<Seq<char>, RefusalView>(text@),
        text_or_refusal_view(Err(said)) == Err::<Seq<char>, RefusalView>(said@),
        config_view(Ok(config)) == Ok::<LnurlpConfigView, RefusalView>(config@),
        config_view(Err(said)) == Err::<LnurlpConfigView, RefusalView>(said@),
{
}

} // verus!
