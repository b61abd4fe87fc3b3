//! The URL that a server is reached under. Parsing and joining URLs is the work
//! of the `url` crate.

use vstd::prelude::*;
use vstd::string::*;

use crate::text::{chars_of, str_view, text_view};
use crate::user::{canonical_user, user_char, user_edge_char};

verus! {

/// What `url::Url::parse` makes of `text`: the serialization, the host where
/// there is one, and the port where it is not the default of the scheme; or what
/// it says against it.
pub uninterp spec fn parsed_url(text: Seq<char>) -> Result<
    (Seq<char>, Option<Seq<char>>, Option<u16>),
    Seq<char>,
>;

/// What `url::Url::join` makes of `input` on the URL that `base` is parsed to,
/// serialized, or nothing if it refuses it.
pub uninterp spec fn joined_url(base: Seq<char>, input: Seq<char>) -> Option<Seq<char>>;

/// The URL ends in a slash of its path: it has neither a query nor a fragment.
pub open spec fn is_directory(href: Seq<char>) -> bool {
    &&& href.len() > 0
    &&& href.last() == '/'
    &&& !href.contains('?')
    &&& !href.contains('#')
}

/// A relative path that URLs hold as it is written: segments of user characters
/// between single slashes, each of which starts with a letter or a digit.
pub open spec fn is_plain_path(s: Seq<char>) -> bool {
    &&& s.len() > 0
    &&& s.last() != '/'
    &&& forall|i: int| 0 <= i < s.len() ==> user_char(#[trigger] s[i]) || s[i] == '/'
    &&& forall|i: int|
        0 <= i < s.len() && (i == 0 || s[i - 1] == '/') ==> user_edge_char(#[trigger] s[i])
}

/// If `base` is parsed to a URL with a host, then `joined` is there; and if that
/// URL is a directory, then `joined` is `path` appended to it.
pub open spec fn is_below(base: Seq<char>, path: Seq<char>, joined: Option<Seq<char>>) -> bool {
    parsed_url(base) matches Ok((href, Some(_), _)) ==> joined is Some && (is_directory(href)
        ==> joined->0 == href + path)
}

/// A parsed URL.
pub(crate) struct UrlParts {
    pub(crate) href: String,
    pub(crate) host: Option<String>,
    pub(crate) port: Option<u16>,
}

/// The result of a call, over sequences.
pub(crate) open spec fn url_result_view(r: Result<UrlParts, String>) -> Result<
    (Seq<char>, Option<Seq<char>>, Option<u16>),
    Seq<char>,
> {
    match r {
        Ok(parts) => Ok((parts.href@, text_view(parts.host), parts.port)),
        Err(e) => Err(e@),
    }
}

/// `url::Url::parse`, with `as_str`, `host_str` and `port` of the result, which is
/// a function of the text alone.
#[verifier::external_body]
fn parse_url(text: &str) -> (r: Result<UrlParts, String>)
    ensures
        url_result_view(r) == parsed_url(text@),
{
    let url = url::Url::parse(text).map_err(|e| e.to_string())?;
    Ok(UrlParts {
        href: url.as_str().to_string(),
        host: url.host_str().map(|host| host.to_string()),
        port: url.port(),
    })
}

/// `url::Url::join`, on the URL that `base` is parsed to. The result is a
/// function of the two texts alone. On a URL with a host, a plain path is always
/// accepted; where the URL is a directory, the path is appended to it.
#[verifier::external_body]
fn join_url(base: &str, input: &str) -> (r: Option<String>)
    ensures
        text_view(r) == joined_url(base@, input@),
        is_plain_path(input@) ==> is_below(base@, input@, text_view(r)),
{
    let base = url::Url::parse(base).ok()?;
    base.join(input).ok().map(|url| url.to_string())
}

/// The URL that a server is reached under: a URL with a host, and the text that it
/// was parsed from.
pub struct BaseUrl {
    text: String,
    href: String,
    host: String,
    port: Option<u16>,
}

/// The URL that a server is reached under, over sequences.
pub struct BaseUrlView {
    /// The text that it was parsed from.
    pub text: Seq<char>,
    /// The serialization.
    pub href: Seq<char>,
    /// The host.
    pub host: Seq<char>,
    /// The port, where it is not the default of the scheme.
    pub port: Option<u16>,
}

impl View for BaseUrl {
    type V = BaseUrlView;

    closed spec fn view(&self) -> BaseUrlView {
        BaseUrlView {
            text: self.text@,
            href: self.href@,
            host: self.host@,
            port: self.port,
        }
    }
}

/// Why a text is no base URL.
#[derive(Debug)]
pub enum BaseUrlError {
    /// It is no URL; what is said against it.
    Malformed(String),
    /// It is a URL without a host; its serialization.
    MissingHost(String),
}

/// `s` with a slash at its end.
pub open spec fn slash_ended(s: Seq<char>) -> Seq<char> {
    if s.len() > 0 && s.last() == '/' {
        s
    } else {
        s.push('/')
    }
}

/// `text` with a slash at its end, added where there is none.
pub fn with_trailing_slash(text: String) -> (r: String)
    ensures
        r@ == slash_ended(text@),
{
    let chars = chars_of(text.as_str());
    let mut text = text;
    if chars.len() == 0 || chars[chars.len() - 1] != '/' {
        proof {
            reveal_strlit("/");
        }
        text.append("/");
        assert(text@ =~= chars@.push('/'));
    }
    text
}

/// A slash at the end of a base URL makes no difference: with and without it, the
/// same URL is parsed.
pub proof fn law_trailing_slash_is_optional(text: Seq<char>)
    requires
        text.len() == 0 || text.last() != '/',
    ensures
        parsed_url(slash_ended(text.push('/'))) == parsed_url(slash_ended(text)),
{
}

/// The path below the base URL that leads to the callback.
pub open spec fn callback_path(user: Option<Seq<char>>) -> Seq<char> {
    match user {
        None => "invoice"@,
        Some(user) => "invoice/"@ + user,
    }
}

/// The callback that a payment to `user`, or to no user in particular, is
/// announced with, where the base URL is parsed from `text`.
pub open spec fn callback_url(text: Seq<char>, user: Option<Seq<char>>) -> Seq<char> {
    joined_url(text, callback_path(user))->0
}

proof fn lemma_callback_path_is_plain(user: Option<Seq<char>>)
    requires
        user matches Some(user) ==> canonical_user(user),
    ensures
        is_plain_path(callback_path(user)),
{
    reveal_strlit("invoice");
    reveal_strlit("invoice/");
    if user is Some {
        let name = user->0;
        let path = callback_path(user);
        assert forall|i: int| 0 <= i < path.len() implies user_char(#[trigger] path[i]) || path[i]
            == '/' by {
            if i >= 8 {
                assert(user_char(name[i - 8]));
            }
        }
        assert forall|i: int|
            0 <= i < path.len() && (i == 0 || path[i - 1] == '/') implies user_edge_char(
            #[trigger] path[i],
        ) by {
            if i > 8 {
                assert(user_char(name[i - 9]));
            }
        }
        assert(user_char(name[name.len() - 1]));
    }
}

impl BaseUrl {
    #[verifier::type_invariant]
    spec fn well_formed(self) -> bool {
        parsed_url(self.text@) == Ok::<(Seq<char>, Option<Seq<char>>, Option<u16>), Seq<char>>(
            (self.href@, Some(self.host@), self.port),
        )
    }

    /// Takes `text`, with a slash added where it does not end in one, for a URL
    /// with a host.
    pub fn parse(text: String) -> (r: Result<BaseUrl, BaseUrlError>)
        ensures
            match parsed_url(slash_ended(text@)) {
                Err(reason) => r matches Err(BaseUrlError::Malformed(said)) && said@ == reason,
                Ok((href, None, _)) => r matches Err(BaseUrlError::MissingHost(said)) && said@
                    == href,
                Ok((href, Some(host), port)) => r matches Ok(url) && url@ == (BaseUrlView {
                    text: slash_ended(text@),
                    href,
                    host,
                    port,
                }),
            },
    {
        let text = with_trailing_slash(text);
        match parse_url(text.as_str()) {
            Err(reason) => Err(BaseUrlError::Malformed(reason)),
            Ok(parts) => match parts.host {
                None => Err(BaseUrlError::MissingHost(parts.href)),
                Some(host) => Ok(BaseUrl { text, href: parts.href, host, port: parts.port }),
            },
        }
    }

    /// The serialization of the URL.
    pub fn as_str(&self) -> (r: &str)
        ensures
            r@ == self@.href,
    {
        self.href.as_str()
    }

    /// The host.
    pub fn host(&self) -> (r: &str)
        ensures
            r@ == self@.host,
    {
        self.host.as_str()
    }

    /// The port, where it is not the default of the scheme.
    pub fn port(&self) -> (r: Option<u16>)
        ensures
            r == self@.port,
    {
        self.port
    }

    /// The callback that a payment to `user`, or to no user in particular, is
    /// announced with: the invoice path, joined to the URL.
    pub fn callback(&self, user: Option<&str>) -> (r: String)
        requires
            user matches Some(user) ==> canonical_user(user@),
        ensures
            r@ == callback_url(self@.text, str_view(user)),
            is_directory(self@.href) ==> r@ == self@.href + callback_path(str_view(user)),
    {
        proof {
            use_type_invariant(&*self);
            lemma_callback_path_is_plain(str_view(user));
        }
        let path = match user {
            None => "invoice".to_owned(),
            Some(user) => {
                let mut path = "invoice/".to_owned();
                path.append(user);
                path
            },
        };
        join_url(self.text.as_str(), path.as_str()).unwrap()
    }
}

/// A base URL is read with exactly one slash more, and only where it ends in none.
pub proof fn law_slash_is_added_where_it_is_missing(text: Seq<char>)
    ensures
        text.len() > 0 && text[text.len() - 1] == '/' ==> slash_ended(text) == text,
        text.len() == 0 || text[text.len() - 1] != '/' ==> slash_ended(text) == text + seq!['/'],
{
    assert(text.push('/') =~= text + seq!['/']);
}

/// Invoices for a user are asked for below `invoice/`, under the name of the user,
/// and others at `invoice`; so no two users share a callback path.
pub proof fn law_callback_paths(text: Seq<char>, user: Seq<char>)
    ensures
        callback_url(text, None) == joined_url(text, "invoice"@)->0,
        callback_url(text, Some(user)) == joined_url(text, "invoice/"@ + user)->0,
        callback_path(None) == "invoice"@,
        callback_path(Some(user)) == "invoice/"@ + user,
        callback_path(Some(user)).skip(8) == user,
        callback_path(Some(user)) != callback_path(None),
{
    reveal_strlit("invoice");
    reveal_strlit("invoice/");
    assert(("invoice/"@ + user).skip(8) =~= user);
    assert(callback_path(Some(user)).len() != callback_path(None).len());
}

/// A URL is a directory exactly if it ends in a slash and has neither a query nor a
/// fragment.
pub proof fn law_directories(href: Seq<char>)
    ensures
        is_directory(href) <==> href.len() > 0 && href[href.len() - 1] == '/' && (forall|i: int|
            0 <= i < href.len() ==> #[trigger] href[i] != '?' && href[i] != '#'),
{
    if href.len() > 0 && href[href.len() - 1] == '/' && (forall|i: int|
        0 <= i < href.len() ==> #[trigger] href[i] != '?' && href[i] != '#') {
        assert(!href.contains('?') && !href.contains('#'));
    }
    if is_directory(href) {
        assert forall|i: int| 0 <= i < href.len() implies #[trigger] href[i] != '?' && href[i]
            != '#' by {
            assert(href.contains(href[i]));
        }
    }
}

} // verus!
