//! The options that a server is started with.

use vstd::prelude::*;
use vstd::string::*;

use crate::base_url::{parsed_url, slash_ended, BaseUrl, BaseUrlError};
use crate::event::{is_key_pair, keys_view, parse_keys, parsed_keys, ZapperKeys};
use crate::rpc::accepted_settings;
use crate::state::PluginState;
use crate::text::{
    chars_of, digits, is_blank, law_trimming_takes_all_margins, lemma_trimmed_ignores_margins,
    push_number, text_view, trim, trimmed, white_space,
};
use crate::user::UserMetadataView;
use crate::users::Users;

verus! {

/// Why a server does not start, where `S` stands for the texts that an error
/// holds.
#[derive(Debug)]
pub enum StartupFault<S> {
    /// The address to listen on has no port.
    ListenWithoutPort,
    /// `localhost` could not be looked up; what is said of it.
    Unresolved(S),
    /// `localhost` has no address.
    NoLocalhost,
    /// The address to listen on is not an IP address with a port.
    NotAnAddress,
    /// There is no base URL.
    MissingBaseUrl,
    /// The base URL is no URL; what is said against it.
    MalformedBaseUrl(S),
    /// The base URL has no host; its serialization.
    MissingHost(S),
    /// The smallest or the largest amount is negative.
    NegativeAmount,
    /// The smallest amount is above the largest.
    CrossedLimits,
    /// The key for zap receipts is given twice.
    TwoSecrets,
    /// The path of the key file is empty.
    EmptyPath,
    /// The key file could not be looked at; its path.
    Stat(S),
    /// The key file is a symbolic link.
    Symlink,
    /// The key file is not a regular file.
    NotRegular,
    /// Others than its owner may use the key file, which has this mode.
    TooBroad(u32),
    /// The key file could not be read; its path.
    Read(S),
    /// The key for zap receipts is empty.
    EmptySecret,
    /// The key for zap receipts is not a key.
    InvalidSecret,
}

/// Why a server does not start.
pub type StartupError = StartupFault<String>;

/// Why a server does not start, over sequences.
pub type StartupErrorView = StartupFault<Seq<char>>;

impl View for StartupFault<String> {
    type V = StartupFault<Seq<char>>;

    open spec fn view(&self) -> StartupFault<Seq<char>> {
        match self {
            StartupFault::ListenWithoutPort => StartupFault::ListenWithoutPort,
            StartupFault::Unresolved(said) => StartupFault::Unresolved(said@),
            StartupFault::NoLocalhost => StartupFault::NoLocalhost,
            StartupFault::NotAnAddress => StartupFault::NotAnAddress,
            StartupFault::MissingBaseUrl => StartupFault::MissingBaseUrl,
            StartupFault::MalformedBaseUrl(said) => StartupFault::MalformedBaseUrl(said@),
            StartupFault::MissingHost(href) => StartupFault::MissingHost(href@),
            StartupFault::NegativeAmount => StartupFault::NegativeAmount,
            StartupFault::CrossedLimits => StartupFault::CrossedLimits,
            StartupFault::TwoSecrets => StartupFault::TwoSecrets,
            StartupFault::EmptyPath => StartupFault::EmptyPath,
            StartupFault::Stat(path) => StartupFault::Stat(path@),
            StartupFault::Symlink => StartupFault::Symlink,
            StartupFault::NotRegular => StartupFault::NotRegular,
            StartupFault::TooBroad(mode) => StartupFault::TooBroad(*mode),
            StartupFault::Read(path) => StartupFault::Read(path@),
            StartupFault::EmptySecret => StartupFault::EmptySecret,
            StartupFault::InvalidSecret => StartupFault::InvalidSecret,
        }
    }
}

impl StartupFault<Seq<char>> {
    /// What is said of this error.
    pub open spec fn text(self) -> Seq<char> {
        match self {
            StartupFault::ListenWithoutPort =>
                "`clnaddress-listen` is invalid, it should have one `:`"@,
            StartupFault::Unresolved(said) => said,
            StartupFault::NoLocalhost => "No address found for localhost"@,
            StartupFault::NotAnAddress => "`clnaddress-listen` should be a valid IP."@,
            StartupFault::MissingBaseUrl => "Please specify a base URL!"@,
            StartupFault::MalformedBaseUrl(said) => said,
            StartupFault::MissingHost(href) => "Invalid base URL! Missing host part! "@ + href,
            StartupFault::NegativeAmount => "out of range integral type conversion attempted"@,
            StartupFault::CrossedLimits =>
                "`clnaddress-min-receivable` is greater than `clnaddress-max-receivable`!"@,
            StartupFault::TwoSecrets =>
                "configure only one of `clnaddress-nostr-privkey` or `clnaddress-nostr-privkey-file`"@,
            StartupFault::EmptyPath => "Nostr private key file path is empty"@,
            StartupFault::Stat(path) => "could not stat Nostr private key file "@ + path,
            StartupFault::Symlink => "Nostr private key file must not be a symbolic link"@,
            StartupFault::NotRegular => "Nostr private key path must reference a regular file"@,
            StartupFault::TooBroad(mode) =>
                "Nostr private key file permissions are too broad ("@ + digits(mode as nat, 8)
                + "); use mode 0600 or stricter"@,
            StartupFault::Read(path) => "could not read Nostr private key file "@ + path,
            StartupFault::EmptySecret => "Nostr zap receipt private key is empty"@,
            StartupFault::InvalidSecret => "invalid Nostr zap receipt private key"@,
        }
    }
}

impl StartupFault<String> {
    /// What is said of this error.
    pub fn message(&self) -> (r: String)
        ensures
            r@ == self@.text(),
    {
        match self {
            StartupFault::ListenWithoutPort =>
                "`clnaddress-listen` is invalid, it should have one `:`".to_owned(),
            StartupFault::Unresolved(said) => said.clone(),
            StartupFault::NoLocalhost => "No address found for localhost".to_owned(),
            StartupFault::NotAnAddress => "`clnaddress-listen` should be a valid IP.".to_owned(),
            StartupFault::MissingBaseUrl => "Please specify a base URL!".to_owned(),
            StartupFault::MalformedBaseUrl(said) => said.clone(),
            StartupFault::MissingHost(href) => {
                let mut out = "Invalid base URL! Missing host part! ".to_owned();
                out.append(href.as_str());
                out
            },
            StartupFault::NegativeAmount =>
                "out of range integral type conversion attempted".to_owned(),
            StartupFault::CrossedLimits =>
                "`clnaddress-min-receivable` is greater than `clnaddress-max-receivable`!".to_owned(),
            StartupFault::TwoSecrets =>
                "configure only one of `clnaddress-nostr-privkey` or `clnaddress-nostr-privkey-file`".to_owned(),
            StartupFault::EmptyPath => "Nostr private key file path is empty".to_owned(),
            StartupFault::Stat(path) => {
                let mut out = "could not stat Nostr private key file ".to_owned();
                out.append(path.as_str());
                out
            },
            StartupFault::Symlink =>
                "Nostr private key file must not be a symbolic link".to_owned(),
            StartupFault::NotRegular =>
                "Nostr private key path must reference a regular file".to_owned(),
            StartupFault::TooBroad(mode) => {
                let mut out = "Nostr private key file permissions are too broad (".to_owned();
                push_number(&mut out, *mode as u64, 8);
                out.append("); use mode 0600 or stricter");
                out
            },
            StartupFault::Read(path) => {
                let mut out = "could not read Nostr private key file ".to_owned();
                out.append(path.as_str());
                out
            },
            StartupFault::EmptySecret => "Nostr zap receipt private key is empty".to_owned(),
            StartupFault::InvalidSecret => "invalid Nostr zap receipt private key".to_owned(),
        }
    }
}

/// What stands in `s` before the last `sep`, if there is one.
pub open spec fn before_last(s: Seq<char>, sep: char) -> Option<Seq<char>>
    decreases s.len(),
{
    if s.len() == 0 {
        None
    } else if s.last() == sep {
        Some(s.drop_last())
    } else {
        before_last(s.drop_last(), sep)
    }
}

/// Whether the address to listen on is a port of `localhost`, which is then to be
/// looked up; else it is to be read as an IP address with a port.
pub open spec fn listen_host(listen: Seq<char>) -> Result<bool, StartupErrorView> {
    match before_last(listen, ':') {
        None => Err(StartupFault::ListenWithoutPort),
        Some(host) => Ok(host == "localhost"@),
    }
}

/// Whether the address to listen on is a port of `localhost`, which is then to be
/// looked up; else it is to be read as an IP address with a port.
pub fn listens_on_localhost(listen: &str) -> (r: Result<bool, StartupError>)
    ensures
        match r {
            Ok(localhost) => listen_host(listen@) == Ok::<bool, StartupErrorView>(localhost),
            Err(e) => listen_host(listen@) == Err::<bool, StartupErrorView>(e@),
        },
{
    let chars = chars_of(listen);
    let mut end: usize = chars.len();
    assert(listen@.take(end as int) =~= listen@);
    while end > 0
        invariant
            chars@ == listen@,
            end <= chars@.len(),
            before_last(listen@, ':') == before_last(listen@.take(end as int), ':'),
        decreases end,
    {
        assert(listen@.take(end as int).drop_last() =~= listen@.take(end - 1));
        if chars[end - 1] == ':' {
            let host = listen.substring_char(0, end - 1);
            assert(host@ =~= listen@.take(end - 1));
            let localhost = "localhost".to_owned();
            return Ok(host.to_owned() == localhost);
        }
        end = end - 1;
    }
    Err(StartupFault::ListenWithoutPort)
}

/// The address to listen on, where `lookup` is what came of looking it up: an
/// address, none, or why it failed.
pub open spec fn listen_address(
    listen: Seq<char>,
    lookup: Result<Option<Seq<char>>, Seq<char>>,
) -> Result<Seq<char>, StartupErrorView> {
    match (listen_host(listen), lookup) {
        (Err(e), _) => Err(e),
        (_, Ok(Some(address))) => Ok(address),
        (Ok(true), Ok(None)) => Err(StartupFault::NoLocalhost),
        (Ok(true), Err(said)) => Err(StartupFault::Unresolved(said)),
        (Ok(false), _) => Err(StartupFault::NotAnAddress),
    }
}

/// What came of looking up an address, over sequences.
pub open spec fn lookup_view(lookup: Result<Option<String>, String>) -> Result<
    Option<Seq<char>>,
    Seq<char>,
> {
    match lookup {
        Ok(address) => Ok(text_view(address)),
        Err(said) => Err(said@),
    }
}

/// The result of reading a text, over sequences.
pub open spec fn startup_text_view(r: Result<String, StartupError>) -> Result<
    Seq<char>,
    StartupErrorView,
> {
    match r {
        Ok(text) => Ok(text@),
        Err(e) => Err(e@),
    }
}

/// The address to listen on, where `lookup` is what came of looking it up.
pub fn choose_listen_address(listen: &str, lookup: Result<Option<String>, String>) -> (r: Result<
    String,
    StartupError,
>)
    ensures
        startup_text_view(r) == listen_address(listen@, lookup_view(lookup)),
{
    let localhost = listens_on_localhost(listen)?;
    match lookup {
        Ok(Some(address)) => Ok(address),
        Ok(None) => if localhost {
            Err(StartupFault::NoLocalhost)
        } else {
            Err(StartupFault::NotAnAddress)
        },
        Err(said) => if localhost {
            Err(StartupFault::Unresolved(said))
        } else {
            Err(StartupFault::NotAnAddress)
        },
    }
}

/// What sort of file a path leads to.
#[derive(Debug, Clone, Copy, PartialEq, Eq, Structural)]
pub enum FileKind {
    Regular,
    Symlink,
    Other,
}

/// What is known of a file that was not opened.
#[derive(Debug, Clone, Copy, PartialEq, Eq, Structural)]
pub struct FileFacts {
    /// What sort of file it is.
    pub kind: FileKind,
    /// Its mode, on systems where files have one.
    pub mode: Option<u32>,
}

/// The file that holds the key for zap receipts.
#[derive(Debug)]
pub struct SecretFile {
    /// Its path.
    pub path: String,
    /// What is known of it, if it could be looked at.
    pub facts: Option<FileFacts>,
    /// What it holds, if it could be read.
    pub contents: Option<String>,
}

/// Why the file at `path` must not be read, if so: it is to be a regular file that
/// nobody but its owner can use.
pub open spec fn secret_path_fault(path: Seq<char>, facts: Option<FileFacts>) -> Option<
    StartupErrorView,
> {
    if path.len() == 0 {
        Some(StartupFault::EmptyPath)
    } else if facts is None {
        Some(StartupFault::Stat(path))
    } else if facts->0.kind == FileKind::Symlink {
        Some(StartupFault::Symlink)
    } else if facts->0.kind != FileKind::Regular {
        Some(StartupFault::NotRegular)
    } else if facts->0.mode is Some && facts->0.mode->0 & 0o077 != 0 {
        Some(StartupFault::TooBroad(facts->0.mode->0 & 0o777))
    } else {
        None
    }
}

/// Refuses a file that must not be read.
pub fn check_secret_path(path: &str, facts: Option<FileFacts>) -> (r: Result<(), StartupError>)
    ensures
        match secret_path_fault(path@, facts) {
            Some(fault) => r matches Err(e) && e@ == fault,
            None => r is Ok,
        },
{
    if path.is_empty() {
        return Err(StartupFault::EmptyPath);
    }
    let facts = match facts {
        Some(facts) => facts,
        None => return Err(StartupFault::Stat(path.to_owned())),
    };
    if facts.kind == FileKind::Symlink {
        return Err(StartupFault::Symlink);
    }
    if facts.kind != FileKind::Regular {
        return Err(StartupFault::NotRegular);
    }
    if let Some(mode) = facts.mode {
        let permissions: u32 = mode & 0o777;
        assert((mode & 0o777) & 0o077 == mode & 0o077) by (bit_vector);
        if permissions & 0o077 != 0 {
            return Err(StartupFault::TooBroad(permissions));
        }
    }
    Ok(())
}

/// What the file at `path` holds, if it may be read and could be.
pub open spec fn secret_contents(
    path: Seq<char>,
    facts: Option<FileFacts>,
    contents: Option<Seq<char>>,
) -> Result<Seq<char>, StartupErrorView> {
    match (secret_path_fault(path, facts), contents) {
        (Some(fault), _) => Err(fault),
        (None, Some(contents)) => Ok(contents),
        (None, None) => Err(StartupFault::Read(path)),
    }
}

/// What the file holds, if it may be read and could be.
pub fn read_secret_file(file: SecretFile) -> (r: Result<String, StartupError>)
    ensures
        startup_text_view(r) == secret_contents(file.path@, file.facts, text_view(file.contents)),
{
    check_secret_path(file.path.as_str(), file.facts)?;
    match file.contents {
        Some(contents) => Ok(contents),
        None => Err(StartupFault::Read(file.path)),
    }
}

/// The text of the key for zap receipts, where one is given: inline or in a file,
/// not both.
pub open spec fn secret_text(inline: Option<Seq<char>>, file: Option<SecretFile>) -> Result<
    Option<Seq<char>>,
    StartupErrorView,
> {
    match (inline, file) {
        (Some(_), Some(_)) => Err(StartupFault::TwoSecrets),
        (Some(secret), None) => Ok(Some(secret)),
        (None, Some(file)) => match secret_contents(
            file.path@,
            file.facts,
            text_view(file.contents),
        ) {
            Ok(secret) => Ok(Some(secret)),
            Err(e) => Err(e),
        },
        (None, None) => Ok(None),
    }
}

/// The keys that receipts are signed with, over sequences: the secret key in
/// hexadecimal and the public key.
pub type KeysView = (Seq<char>, Seq<u8>);

/// The keys that the text `secret` gives, without the white space around it.
pub open spec fn keys_from_secret(secret: Seq<char>) -> Result<KeysView, StartupErrorView> {
    if trimmed(secret).len() == 0 {
        Err(StartupFault::EmptySecret)
    } else {
        accepted_keys(parsed_keys(trimmed(secret)))
    }
}

/// The keys that receipts are signed with, where `parsed` was made of a secret.
pub open spec fn accepted_keys(parsed: Option<KeysView>) -> Result<KeysView, StartupErrorView> {
    match parsed {
        Some(keys) => Ok(keys),
        None => Err(StartupFault::InvalidSecret),
    }
}

/// The keys that receipts are signed with, where a secret is given.
pub open spec fn configured_keys(inline: Option<Seq<char>>, file: Option<SecretFile>) -> Result<
    Option<KeysView>,
    StartupErrorView,
> {
    match secret_text(inline, file) {
        Err(e) => Err(e),
        Ok(None) => Ok(None),
        Ok(Some(secret)) => match keys_from_secret(secret) {
            Ok(keys) => Ok(Some(keys)),
            Err(e) => Err(e),
        },
    }
}

/// The result of reading keys, over sequences.
pub open spec fn keys_result_view(r: Result<ZapperKeys, StartupError>) -> Result<
    KeysView,
    StartupErrorView,
> {
    match r {
        Ok(keys) => Ok((keys.secret_key@, keys.public_key@)),
        Err(e) => Err(e@),
    }
}

/// The result of reading keys that may be missing, over sequences.
pub open spec fn optional_keys_result_view(r: Result<Option<ZapperKeys>, StartupError>) -> Result<
    Option<KeysView>,
    StartupErrorView,
> {
    match r {
        Ok(keys) => Ok(keys_view(keys)),
        Err(e) => Err(e@),
    }
}

/// The keys that receipts are signed with, where `parsed` was made of a secret.
pub fn accept_keys(parsed: Option<ZapperKeys>) -> (r: Result<ZapperKeys, StartupError>)
    ensures
        keys_result_view(r) == accepted_keys(keys_view(parsed)),
{
    match parsed {
        Some(keys) => Ok(keys),
        None => Err(StartupFault::InvalidSecret),
    }
}

/// The keys that receipts are signed with, where a secret is given: inline or in a
/// file, not both.
pub fn load_nostr_zapper_keys(inline_privkey: Option<String>, privkey_file: Option<SecretFile>) -> (r:
    Result<Option<ZapperKeys>, StartupError>)
    ensures
        optional_keys_result_view(r) == configured_keys(text_view(inline_privkey), privkey_file),
        r matches Ok(Some(keys)) ==> is_key_pair(keys.secret_key@, keys.public_key@),
{
    let secret = match (inline_privkey, privkey_file) {
        (Some(_), Some(_)) => return Err(StartupFault::TwoSecrets),
        (Some(secret), None) => secret,
        (None, Some(file)) => read_secret_file(file)?,
        (None, None) => return Ok(None),
    };
    let secret = trim(secret.as_str());
    if secret.is_empty() {
        return Err(StartupFault::EmptySecret);
    }
    match accept_keys(parse_keys(secret)) {
        Ok(keys) => Ok(Some(keys)),
        Err(e) => Err(e),
    }
}

/// What a server is started with: its options, and what came of looking up the
/// address to listen on and the key file.
pub struct StartupOptions {
    /// Where the node's RPC socket is.
    pub rpc_path: String,
    /// Where the server keeps its files.
    pub plugin_dir: String,
    /// The address to listen on, as it was given.
    pub listen: String,
    /// What came of looking up that address: an address, none, or why it failed.
    pub listen_lookup: Result<Option<String>, String>,
    /// The base URL, as it was given.
    pub base_url: Option<String>,
    /// The smallest amount to be received, in millisatoshi.
    pub min_receivable: i64,
    /// The largest amount to be received, in millisatoshi.
    pub max_receivable: i64,
    /// The description of addresses that have none of their own.
    pub description: String,
    /// The key for zap receipts, where it is given inline.
    pub nostr_privkey: Option<String>,
    /// The key for zap receipts, where it is given in a file.
    pub nostr_privkey_file: Option<SecretFile>,
}

/// What is wrong with a base URL.
pub open spec fn base_url_fault(text: Option<Seq<char>>) -> Option<StartupErrorView> {
    match text {
        None => Some(StartupFault::MissingBaseUrl),
        Some(text) => match parsed_url(slash_ended(text)) {
            Err(said) => Some(StartupFault::MalformedBaseUrl(said)),
            Ok((href, None, _)) => Some(StartupFault::MissingHost(href)),
            Ok((_, Some(_), _)) => None,
        },
    }
}

/// Why a server with the options `options` does not start, if so.
pub open spec fn startup_fault(options: StartupOptions) -> Option<StartupErrorView> {
    if let Err(e) = listen_address(options.listen@, lookup_view(options.listen_lookup)) {
        Some(e)
    } else if base_url_fault(text_view(options.base_url)) is Some {
        base_url_fault(text_view(options.base_url))
    } else if options.min_receivable < 0 || options.max_receivable < 0 {
        Some(StartupFault::NegativeAmount)
    } else if options.min_receivable > options.max_receivable {
        Some(StartupFault::CrossedLimits)
    } else if let Err(e) = configured_keys(
        text_view(options.nostr_privkey),
        options.nostr_privkey_file,
    ) {
        Some(e)
    } else {
        None
    }
}

/// `state` is the state that a server with the options `options` starts in.
pub open spec fn is_initial_state(state: PluginState, options: StartupOptions) -> bool {
    &&& state.rpc_path == options.rpc_path
    &&& state.plugin_dir == options.plugin_dir
    &&& state.min_sendable_msat == options.min_receivable
    &&& state.max_sendable_msat == options.max_receivable
    &&& state.default_description == options.description
    &&& state.users@ == Map::<Seq<char>, UserMetadataView>::empty()
    &&& state.base_url@.text == slash_ended(options.base_url->0@)
    &&& parsed_url(state.base_url@.text) == Ok::<
        (Seq<char>, Option<Seq<char>>, Option<u16>),
        Seq<char>,
    >((state.base_url@.href, Some(state.base_url@.host), state.base_url@.port))
    &&& configured_keys(text_view(options.nostr_privkey), options.nostr_privkey_file) == Ok::<
        Option<KeysView>,
        StartupErrorView,
    >(keys_view(state.nostr_zapper_keys))
    &&& state.payindex == 0
    &&& listen_address(options.listen@, lookup_view(options.listen_lookup)) == Ok::<
        Seq<char>,
        StartupErrorView,
    >(state.listen_address@)
}

/// The state that a server with the options `options` starts in, or why it does
/// not start.
pub fn get_startup_options(options: StartupOptions) -> (r: Result<PluginState, StartupError>)
    ensures
        match startup_fault(options) {
            Some(fault) => r matches Err(e) && e@ == fault,
            None => r matches Ok(state) && is_initial_state(state, options),
        },
        r matches Ok(state) ==> state.min_sendable_msat <= state.max_sendable_msat
            && accepted_settings(state.users@, state.min_sendable_msat, state.max_sendable_msat),
        r matches Ok(state) ==> (state.nostr_zapper_keys matches Some(keys) ==> is_key_pair(
            keys.secret_key@,
            keys.public_key@,
        )),
{
    let listen_address = choose_listen_address(options.listen.as_str(), options.listen_lookup)?;
    let base_url = match options.base_url {
        None => return Err(StartupFault::MissingBaseUrl),
        Some(text) => match BaseUrl::parse(text) {
            Ok(url) => url,
            Err(BaseUrlError::Malformed(said)) => {
                return Err(StartupFault::MalformedBaseUrl(said));
            },
            Err(BaseUrlError::MissingHost(href)) => return Err(StartupFault::MissingHost(href)),
        },
    };
    if options.min_receivable < 0 || options.max_receivable < 0 {
        return Err(StartupFault::NegativeAmount);
    }
    let min_sendable_msat: u64 = options.min_receivable as u64;
    let max_sendable_msat: u64 = options.max_receivable as u64;
    if min_sendable_msat > max_sendable_msat {
        return Err(StartupFault::CrossedLimits);
    }
    let nostr_zapper_keys = load_nostr_zapper_keys(
        options.nostr_privkey,
        options.nostr_privkey_file,
    )?;
    Ok(
        PluginState {
            rpc_path: options.rpc_path,
            max_sendable_msat,
            min_sendable_msat,
            default_description: options.description,
            users: Users::new(),
            plugin_dir: options.plugin_dir,
            base_url,
            nostr_zapper_keys,
            payindex: 0,
            listen_address,
        },
    )
}

/// A key that is given both inline and in a file is refused, whatever the two are.
pub proof fn law_two_secrets_are_refused(inline: Option<Seq<char>>, file: Option<SecretFile>)
    requires
        inline is Some,
        file is Some,
    ensures
        configured_keys(inline, file) == Err::<Option<KeysView>, StartupErrorView>(
            StartupFault::TwoSecrets,
        ),
{
}

/// White space around a key makes no difference.
pub proof fn law_margins_of_a_secret_are_ignored(
    before: Seq<char>,
    secret: Seq<char>,
    after: Seq<char>,
)
    requires
        is_blank(before),
        is_blank(after),
    ensures
        keys_from_secret(before + secret + after) == keys_from_secret(secret),
{
    lemma_trimmed_ignores_margins(before, secret, after);
}

/// A key in a file that may be read gives the same keys as it does inline.
pub proof fn law_file_and_inline_agree(file: SecretFile)
    requires
        secret_path_fault(file.path@, file.facts) is None,
        file.contents is Some,
    ensures
        configured_keys(None, Some(file)) == configured_keys(text_view(file.contents), None),
{
}

/// A key file is only read if it is a regular file and its mode gives nothing to
/// its group or to others.
pub proof fn law_only_private_files_are_read(file: SecretFile)
    requires
        configured_keys(None, Some(file)) is Ok,
    ensures
        file.path@.len() > 0,
        file.facts matches Some(facts) && facts.kind == FileKind::Regular && (facts.mode matches Some(
            mode,
        ) ==> mode & 0o077 == 0),
{
}

proof fn lemma_before_last(host: Seq<char>, sep: char, port: Seq<char>)
    requires
        !port.contains(sep),
    ensures
        before_last(host + seq![sep] + port, sep) == Some(host),
    decreases port.len(),
{
    let whole = host + seq![sep] + port;
    if port.len() == 0 {
        assert(whole.drop_last() =~= host);
    } else {
        assert(port.contains(port.last()));
        assert(whole.drop_last() =~= host + seq![sep] + port.drop_last());
        assert(!port.drop_last().contains(sep)) by {
            assert forall|i: int| 0 <= i < port.len() - 1 implies port.drop_last()[i] != sep by {
                assert(port.contains(port[i]));
            }
        }
        lemma_before_last(host, sep, port.drop_last());
    }
}

proof fn lemma_before_none(s: Seq<char>, sep: char)
    requires
        !s.contains(sep),
    ensures
        before_last(s, sep) is None,
    decreases s.len(),
{
    if s.len() > 0 {
        assert(s.contains(s.last()));
        assert(!s.drop_last().contains(sep)) by {
            assert forall|i: int| 0 <= i < s.len() - 1 implies s.drop_last()[i] != sep by {
                assert(s.contains(s[i]));
            }
        }
        lemma_before_none(s.drop_last(), sep);
    }
}

/// The host to listen on is what stands before the last colon, whatever the port
/// behind it is, and it is looked up exactly if it is `localhost`; without a colon
/// there is none.
pub proof fn law_host_is_before_the_last_colon(host: Seq<char>, port: Seq<char>)
    requires
        !port.contains(':'),
    ensures
        before_last(host + seq![':'] + port, ':') == Some(host),
        listen_host(host + seq![':'] + port) == Ok::<bool, StartupErrorView>(host == "localhost"@),
        listen_host(port) == Err::<bool, StartupErrorView>(StartupFault::ListenWithoutPort),
{
    lemma_before_last(host, ':', port);
    lemma_before_none(port, ':');
}

/// The address that was found is listened on, where a port was given; else it is
/// said why there is none.
pub proof fn law_found_address_is_listened_on(
    listen: Seq<char>,
    address: Seq<char>,
    error: Seq<char>,
)
    ensures
        listen_host(listen) is Ok ==> listen_address(listen, Ok(Some(address))) == Ok::<
            Seq<char>,
            StartupErrorView,
        >(address),
        listen_host(listen) == Ok::<bool, StartupErrorView>(true) ==> listen_address(
            listen,
            Ok(None),
        ) == Err::<Seq<char>, StartupErrorView>(StartupFault::NoLocalhost),
        listen_host(listen) == Ok::<bool, StartupErrorView>(true) ==> listen_address(
            listen,
            Err(error),
        ) == Err::<Seq<char>, StartupErrorView>(StartupFault::Unresolved(error)),
        listen_host(listen) == Ok::<bool, StartupErrorView>(false) ==> listen_address(
            listen,
            Ok(None),
        ) == Err::<Seq<char>, StartupErrorView>(StartupFault::NotAnAddress),
        listen_host(listen) is Err ==> listen_address(listen, Ok(Some(address))) == Err::<
            Seq<char>,
            StartupErrorView,
        >(StartupFault::ListenWithoutPort),
{
}

/// A key file may be read exactly if it has a path, could be looked at, is a regular
/// file, and has a mode that gives nothing to its group and to others, or no mode;
/// and what is then read is what it holds.
pub proof fn law_key_files(path: Seq<char>, facts: Option<FileFacts>, contents: Option<Seq<char>>)
    ensures
        secret_path_fault(path, facts) is None <==> path.len() > 0 && (facts matches Some(known)
            && known.kind == FileKind::Regular && (known.mode matches Some(mode) ==> mode & 0o077u32
            == 0)),
        secret_contents(path, facts, contents) matches Ok(text) ==> contents == Some(text)
            && secret_path_fault(path, facts) is None,
        secret_path_fault(path, facts) is None ==> (contents matches Some(text) ==> secret_contents(
            path,
            facts,
            contents,
        ) == Ok::<Seq<char>, StartupErrorView>(text)),
        secret_path_fault(path, facts) is None && contents is None ==> secret_contents(
            path,
            facts,
            contents,
        ) == Err::<Seq<char>, StartupErrorView>(StartupFault::Read(path)),
{
}

/// What a key file is refused for: a symbolic link whatever its mode, and a mode that
/// gives something to others as the nine bits of its permissions.
pub proof fn law_refused_key_files(path: Seq<char>, mode: u32)
    requires
        path.len() > 0,
    ensures
        secret_path_fault(path, Some(FileFacts { kind: FileKind::Symlink, mode: Some(mode) }))
            == Some(StartupFault::<Seq<char>>::Symlink),
        secret_path_fault(path, Some(FileFacts { kind: FileKind::Other, mode: Some(mode) })) == Some(
            StartupFault::<Seq<char>>::NotRegular,
        ),
        mode & 0o077u32 != 0 ==> secret_path_fault(
            path,
            Some(FileFacts { kind: FileKind::Regular, mode: Some(mode) }),
        ) == Some(StartupFault::<Seq<char>>::TooBroad(mode & 0o777u32)),
        secret_path_fault(path, None) == Some(StartupFault::Stat(path)),
        secret_path_fault(Seq::empty(), None) == Some(StartupFault::<Seq<char>>::EmptyPath),
{
}

/// The keys of a server are those that its one secret gives without the white space
/// around it; without a secret there are none, and a secret that is blank or no key
/// is refused.
pub proof fn law_configured_keys(secret: Seq<char>)
    ensures
        configured_keys(None, None) == Ok::<Option<KeysView>, StartupErrorView>(None),
        is_blank(secret) ==> configured_keys(Some(secret), None) == Err::<
            Option<KeysView>,
            StartupErrorView,
        >(StartupFault::EmptySecret),
        secret.len() > 0 && !white_space(secret[0]) && !white_space(secret.last()) ==> (parsed_keys(
            secret,
        ) matches Some(keys) ==> configured_keys(Some(secret), None) == Ok::<
            Option<KeysView>,
            StartupErrorView,
        >(Some(keys))),
        secret.len() > 0 && !white_space(secret[0]) && !white_space(secret.last()) && parsed_keys(
            secret,
        ) is None ==> configured_keys(Some(secret), None) == Err::<
            Option<KeysView>,
            StartupErrorView,
        >(StartupFault::InvalidSecret),
{
    if is_blank(secret) {
        law_trimming_takes_all_margins(secret);
        if trimmed(secret).len() > 0 {
            let (from, to) = choose|from: int, to: int|
                0 <= from <= to <= secret.len() && trimmed(secret) == #[trigger] secret.subrange(
                    from,
                    to,
                ) && is_blank(secret.take(from)) && is_blank(secret.skip(to));
            assert(trimmed(secret)[0] == secret[from]);
            assert(white_space(secret[from]));
        }
    }
    if secret.len() > 0 && !white_space(secret[0]) && !white_space(secret.last()) {
        assert(trimmed(secret) == secret);
    }
}

/// A server starts exactly if the address to listen on was found, the base URL is a
/// URL with a host, neither amount limit is negative, the smallest amount is not
/// above the largest, and the secret, if there is one, gives keys.
pub proof fn law_servers_that_start(options: StartupOptions)
    ensures
        startup_fault(options) is None <==> {
            &&& listen_address(options.listen@, lookup_view(options.listen_lookup)) is Ok
            &&& options.base_url matches Some(text) && (parsed_url(slash_ended(text@)) matches Ok(
                (_, host, _),
            ) && host is Some)
            &&& 0 <= options.min_receivable <= options.max_receivable
            &&& configured_keys(text_view(options.nostr_privkey), options.nostr_privkey_file) is Ok
        },
        listen_address(options.listen@, lookup_view(options.listen_lookup)) matches Err(e)
            ==> startup_fault(options) == Some(e),
        listen_address(options.listen@, lookup_view(options.listen_lookup)) is Ok ==> {
            &&& options.base_url is None ==> startup_fault(options) == Some(
                StartupFault::<Seq<char>>::MissingBaseUrl,
            )
            &&& options.base_url matches Some(text) ==> {
                let parsed = parsed_url(slash_ended(text@));
                &&& parsed matches Err(said) ==> startup_fault(options) == Some(
                    StartupFault::MalformedBaseUrl(said),
                )
                &&& parsed matches Ok((href, host, _)) ==> host is None ==> startup_fault(options)
                    == Some(StartupFault::MissingHost(href))
                &&& parsed matches Ok((_, host, _)) ==> host is Some ==> {
                    &&& options.min_receivable < 0 || options.max_receivable < 0 ==> startup_fault(
                        options,
                    ) == Some(StartupFault::<Seq<char>>::NegativeAmount)
                    &&& 0 <= options.max_receivable < options.min_receivable ==> startup_fault(
                        options,
                    ) == Some(StartupFault::<Seq<char>>::CrossedLimits)
                }
            }
        },
{
}

/// The state of a server that was started is made of its options.
pub proof fn law_initial_states(state: PluginState, options: StartupOptions)
    requires
        is_initial_state(state, options),
    ensures
        state.rpc_path == options.rpc_path,
        state.plugin_dir == options.plugin_dir,
        state.min_sendable_msat == options.min_receivable,
        state.max_sendable_msat == options.max_receivable,
        state.default_description == options.description,
        state.users@.dom() =~= Set::<Seq<char>>::empty(),
        state.payindex == 0,
        parsed_url(slash_ended(options.base_url->0@)) == Ok::<
            (Seq<char>, Option<Seq<char>>, Option<u16>),
            Seq<char>,
        >((state.base_url@.href, Some(state.base_url@.host), state.base_url@.port)),
        state.base_url@.text == slash_ended(options.base_url->0@),
        configured_keys(text_view(options.nostr_privkey), options.nostr_privkey_file) == Ok::<
            Option<KeysView>,
            StartupErrorView,
        >(keys_view(state.nostr_zapper_keys)),
        listen_address(options.listen@, lookup_view(options.listen_lookup)) == Ok::<
            Seq<char>,
            StartupErrorView,
        >(state.listen_address@),
{
}

/// What an error says holds what it is about.
pub proof fn law_errors_at_the_start_are_said(said: Seq<char>, mode: u32)
    ensures
        StartupFault::Unresolved(said).text() == said,
        StartupFault::MalformedBaseUrl(said).text() == said,
        StartupFault::MissingHost(said).text() == "Invalid base URL! Missing host part! "@ + said,
        StartupFault::Stat(said).text() == "could not stat Nostr private key file "@ + said,
        StartupFault::Read(said).text() == "could not read Nostr private key file "@ + said,
        StartupFault::<Seq<char>>::TooBroad(mode).text()
            == "Nostr private key file permissions are too broad ("@ + digits(mode as nat, 8)
            + "); use mode 0600 or stricter"@,
{
}

/// Nothing of a result is lost in its view.
pub proof fn law_startup_views_keep_everything(
    text: String,
    error: StartupError,
    keys: ZapperKeys,
    mode: u32,
)
    ensures
        startup_text_view(Ok(text)) == Ok::<Seq<char>, StartupErrorView>(text@),
        startup_text_view(Err(error)) == Err::<Seq<char>, StartupErrorView>(error@),
        lookup_view(Ok(Some(text))) == Ok::<Option<Seq<char>>, Seq<char>>(Some(text@)),
        lookup_view(Ok(None)) == Ok::<Option<Seq<char>>, Seq<char>>(None),
        lookup_view(Err(text)) == Err::<Option<Seq<char>>, Seq<char>>(text@),
        keys_result_view(Ok(keys)) == Ok::<KeysView, StartupErrorView>(
            (keys.secret_key@, keys.public_key@),
        ),
        keys_result_view(Err(error)) == Err::<KeysView, StartupErrorView>(error@),
        optional_keys_result_view(Ok(Some(keys))) == Ok::<Option<KeysView>, StartupErrorView>(
            Some((keys.secret_key@, keys.public_key@)),
        ),
        optional_keys_result_view(Ok(None)) == Ok::<Option<KeysView>, StartupErrorView>(None),
        optional_keys_result_view(Err(error)) == Err::<Option<KeysView>, StartupErrorView>(error@),
        StartupFault::Unresolved(text)@ == StartupFault::Unresolved(text@),
        StartupFault::MalformedBaseUrl(text)@ == StartupFault::MalformedBaseUrl(text@),
        StartupFault::MissingHost(text)@ == StartupFault::MissingHost(text@),
        StartupFault::Stat(text)@ == StartupFault::Stat(text@),
        StartupFault::Read(text)@ == StartupFault::Read(text@),
        StartupFault::<String>::TooBroad(mode)@ == StartupFault::<Seq<char>>::TooBroad(mode),
        error is ListenWithoutPort <==> error@ is ListenWithoutPort,
        error is Unresolved <==> error@ is Unresolved,
        error is NoLocalhost <==> error@ is NoLocalhost,
        error is NotAnAddress <==> error@ is NotAnAddress,
        error is MissingBaseUrl <==> error@ is MissingBaseUrl,
        error is MalformedBaseUrl <==> error@ is MalformedBaseUrl,
        error is MissingHost <==> error@ is MissingHost,
        error is NegativeAmount <==> error@ is NegativeAmount,
        error is CrossedLimits <==> error@ is CrossedLimits,
        error is TwoSecrets <==> error@ is TwoSecrets,
        error is EmptyPath <==> error@ is EmptyPath,
        error is Stat <==> error@ is Stat,
        error is Symlink <==> error@ is Symlink,
        error is NotRegular <==> error@ is NotRegular,
        error is TooBroad <==> error@ is TooBroad,
        error is Read <==> error@ is Read,
        error is EmptySecret <==> error@ is EmptySecret,
        error is InvalidSecret <==> error@ is InvalidSecret,
{
}

} // verus!
