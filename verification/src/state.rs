//! The state of a server, and what goes in and out of it.

use vstd::prelude::*;

use crate::base_url::BaseUrl;
use crate::event::ZapperKeys;
use crate::user::{UserMetadata, UserMetadataView};
use crate::users::Users;

verus! {

/// The state of a server.
pub struct PluginState {
    /// Where the node's RPC socket is.
    pub rpc_path: String,
    /// The largest amount to be received, in millisatoshi.
    pub max_sendable_msat: u64,
    /// The smallest amount to be received, in millisatoshi.
    pub min_sendable_msat: u64,
    /// The description of addresses that have none of their own.
    pub default_description: String,
    /// The users, each with the settings of its address.
    pub users: Users,
    /// Where the server keeps its files.
    pub plugin_dir: String,
    /// The URL that the server is reached under.
    pub base_url: BaseUrl,
    /// The keys that zap receipts are signed with, if zaps are configured.
    pub nostr_zapper_keys: Option<ZapperKeys>,
    /// The index of the last paid invoice that a receipt was considered for.
    pub payindex: u64,
    /// The address that the server listens on.
    pub listen_address: String,
}

/// Two states that differ in their users at most.
pub open spec fn same_but_users(a: PluginState, b: PluginState) -> bool {
    &&& a.rpc_path == b.rpc_path
    &&& a.max_sendable_msat == b.max_sendable_msat
    &&& a.min_sendable_msat == b.min_sendable_msat
    &&& a.default_description == b.default_description
    &&& a.plugin_dir == b.plugin_dir
    &&& a.base_url == b.base_url
    &&& a.nostr_zapper_keys == b.nostr_zapper_keys
    &&& a.payindex == b.payindex
    &&& a.listen_address == b.listen_address
}

/// What a server offers to pay to an address.
#[derive(Debug)]
pub struct LnurlpConfig {
    /// Where an invoice is asked for.
    pub callback: String,
    /// The largest amount to be received, in millisatoshi.
    pub max_sendable: u64,
    /// The smallest amount to be received, in millisatoshi.
    pub min_sendable: u64,
    /// The description and the identifier of the address, as JSON.
    pub metadata: String,
    /// What sort of offer this is.
    pub tag: String,
    /// The longest comment that a payer may send, in characters.
    pub comment_allowed: Option<u64>,
    /// Whether zaps are accepted.
    pub allows_nostr: bool,
    /// The key that zap receipts are signed with, in hexadecimal.
    pub nostr_pubkey: Option<String>,
}

/// What a payer asks an invoice for.
#[derive(Debug)]
pub struct InvoiceQueryParams {
    /// The amount, in millisatoshi.
    pub amount: u64,
    /// The zap request, as JSON, if the payment is a zap.
    pub nostr: Option<String>,
    /// A comment of the payer.
    pub comment: Option<String>,
}

/// The answer to a payer who asked for an invoice.
#[derive(Debug)]
pub struct LnurlpCallback {
    /// The invoice.
    pub pr: String,
    /// Routes to the node; always none.
    pub routes: Vec<String>,
}

impl UserMetadataView {
    /// Whether zaps are accepted, where `configured` says that the server can
    /// sign their receipts.
    pub open spec fn accepts_zaps(self, configured: bool) -> bool {
        configured && self.nostr_enabled != Some(false)
    }
}

impl UserMetadata {
    /// The smallest amount that the address receives.
    pub fn effective_min_sendable_msat(&self, state: &PluginState) -> (r: u64)
        ensures
            r == self@.min_sendable(state.min_sendable_msat),
    {
        self.min_sendable_msat.unwrap_or(state.min_sendable_msat)
    }

    /// The largest amount that the address receives.
    pub fn effective_max_sendable_msat(&self, state: &PluginState) -> (r: u64)
        ensures
            r == self@.max_sendable(state.max_sendable_msat),
    {
        self.max_sendable_msat.unwrap_or(state.max_sendable_msat)
    }

    /// Whether the address accepts zaps.
    pub fn allows_nostr(&self, state: &PluginState) -> (r: bool)
        ensures
            r == self@.accepts_zaps(state.nostr_zapper_keys is Some),
    {
        state.nostr_zapper_keys.is_some() && self.nostr_enabled.unwrap_or(true)
    }
}

/// Two states that differ in their users at most agree in everything else.
pub proof fn law_everything_but_the_users_is_kept(a: PluginState, b: PluginState)
    ensures
        same_but_users(a, b) <==> {
            &&& a.rpc_path == b.rpc_path
            &&& a.max_sendable_msat == b.max_sendable_msat
            &&& a.min_sendable_msat == b.min_sendable_msat
            &&& a.default_description == b.default_description
            &&& a.plugin_dir == b.plugin_dir
            &&& a.base_url == b.base_url
            &&& a.nostr_zapper_keys == b.nostr_zapper_keys
            &&& a.payindex == b.payindex
            &&& a.listen_address == b.listen_address
        },
{
}

/// An address accepts zaps where the server can sign receipts, unless the address
/// disables them.
pub proof fn law_zaps_are_accepted_unless_disabled(settings: UserMetadataView, configured: bool)
    ensures
        !configured ==> !settings.accepts_zaps(configured),
        settings.nostr_enabled == Some(false) ==> !settings.accepts_zaps(configured),
        configured && (settings.nostr_enabled is None || settings.nostr_enabled == Some(true))
            ==> settings.accepts_zaps(configured),
{
}

} // verus!
