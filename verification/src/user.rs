//! Lightning Address users: their canonical names, and the settings that each
//! address may have of its own.

use vstd::prelude::*;
use vstd::string::*;
use vstd::utf8::*;

use crate::text::{chars_of, decimal, is_digit, push_number, text_view};

verus! {

/// The longest user name, in bytes.
pub const MAX_USER_LENGTH: usize = 64;

/// The longest description of an address, in characters.
pub const MAX_DESCRIPTION_LENGTH: usize = 512;

/// The longest comment that an address may allow, in characters.
pub const MAX_COMMENT_ALLOWED: u64 = 512;

/// Why a user name is not canonical.
#[derive(Debug, Clone, Copy, PartialEq, Eq, Structural)]
pub enum UserError {
    /// It is empty, or longer than `MAX_USER_LENGTH` bytes.
    Length,
    /// It holds a character outside ASCII.
    NotAscii,
    /// It holds an uppercase letter.
    NotLowercase,
    /// It holds a character other than a letter, a digit, `.`, `_` and `-`.
    Unsupported,
    /// Its first or its last character is not a letter or a digit.
    Edge,
    /// It holds two dots in a row.
    ConsecutiveDots,
}

impl UserError {
    /// What is said of this error.
    pub open spec fn text(self) -> Seq<char> {
        match self {
            UserError::Length => "user must contain between 1 and 64 ASCII characters"@,
            UserError::NotAscii => "user must contain ASCII characters only"@,
            UserError::NotLowercase => "user must be lowercase canonical form"@,
            UserError::Unsupported => "user contains unsupported characters"@,
            UserError::Edge => "user must start and end with an ASCII letter or digit"@,
            UserError::ConsecutiveDots => "user must not contain consecutive dots"@,
        }
    }

    /// What is said of this error.
    pub fn message(&self) -> (r: String)
        ensures
            r@ == self.text(),
    {
        match self {
            UserError::Length => "user must contain between 1 and 64 ASCII characters".to_owned(),
            UserError::NotAscii => "user must contain ASCII characters only".to_owned(),
            UserError::NotLowercase => "user must be lowercase canonical form".to_owned(),
            UserError::Unsupported => "user contains unsupported characters".to_owned(),
            UserError::Edge => "user must start and end with an ASCII letter or digit".to_owned(),
            UserError::ConsecutiveDots => "user must not contain consecutive dots".to_owned(),
        }
    }
}

/// A lowercase ASCII letter.
pub open spec fn is_lower(c: char) -> bool {
    'a' <= c <= 'z'
}

/// An uppercase ASCII letter.
pub open spec fn is_upper(c: char) -> bool {
    'A' <= c <= 'Z'
}

/// A character that may stand at either end of a user name.
pub open spec fn user_edge_char(c: char) -> bool {
    is_lower(c) || is_digit(c)
}

/// A character that may stand in a user name.
pub open spec fn user_char(c: char) -> bool {
    user_edge_char(c) || c == '.' || c == '_' || c == '-'
}

/// Two dots in a row at `i`.
pub open spec fn double_dot_at(s: Seq<char>, i: int) -> bool {
    s[i] == '.' && s[i + 1] == '.'
}

/// The names that an address can be configured under: 1 to 64 lowercase
/// letters, digits, `.`, `_` and `-`, with a letter or a digit at both ends and
/// no two dots in a row.
pub open spec fn canonical_user(s: Seq<char>) -> bool {
    &&& 1 <= s.len() <= MAX_USER_LENGTH
    &&& forall|i: int| 0 <= i < s.len() ==> user_char(#[trigger] s[i])
    &&& user_edge_char(s[0])
    &&& user_edge_char(s.last())
    &&& forall|i: int| 0 <= i < s.len() - 1 ==> !#[trigger] double_dot_at(s, i)
}

/// The first rule that `s` breaks, if it breaks one.
pub open spec fn user_fault(s: Seq<char>) -> Option<UserError> {
    if s.len() == 0 || encode_utf8(s).len() > MAX_USER_LENGTH {
        Some(UserError::Length)
    } else if !is_ascii_chars(s) {
        Some(UserError::NotAscii)
    } else if exists|i: int| 0 <= i < s.len() && is_upper(#[trigger] s[i]) {
        Some(UserError::NotLowercase)
    } else if !(forall|i: int| 0 <= i < s.len() ==> user_char(#[trigger] s[i])) {
        Some(UserError::Unsupported)
    } else if !user_edge_char(s[0]) || !user_edge_char(s.last()) {
        Some(UserError::Edge)
    } else if exists|i: int| 0 <= i < s.len() - 1 && #[trigger] double_dot_at(s, i) {
        Some(UserError::ConsecutiveDots)
    } else {
        None
    }
}

/// A name breaks no rule exactly if it is canonical.
pub proof fn lemma_canonical_iff_no_fault(s: Seq<char>)
    ensures
        canonical_user(s) <==> user_fault(s) is None,
{
    if canonical_user(s) {
        assert(is_ascii_chars(s)) by {
            assert forall|i: int| 0 <= i < s.len() implies (0 <= #[trigger] s[i] < 128) by {
                assert(user_char(s[i]));
            }
        }
        is_ascii_chars_encode_utf8(s);
        assert forall|i: int| 0 <= i < s.len() implies !is_upper(#[trigger] s[i]) by {
            assert(user_char(s[i]));
        }
    }
    if user_fault(s) is None {
        is_ascii_chars_encode_utf8(s);
    }
}

fn has_uppercase(chars: &Vec<char>) -> (r: bool)
    ensures
        r == exists|i: int| 0 <= i < chars@.len() && is_upper(#[trigger] chars@[i]),
{
    let mut i: usize = 0;
    while i < chars.len()
        invariant
            i <= chars.len(),
            forall|k: int| 0 <= k < i ==> !is_upper(#[trigger] chars@[k]),
        decreases chars.len() - i,
    {
        let c = chars[i];
        if 'A' <= c && c <= 'Z' {
            assert(is_upper(chars@[i as int]));
            return true;
        }
        i = i + 1;
    }
    false
}

fn is_user_edge_char(c: char) -> (r: bool)
    ensures
        r == user_edge_char(c),
{
    ('a' <= c && c <= 'z') || ('0' <= c && c <= '9')
}

fn all_user_chars(chars: &Vec<char>) -> (r: bool)
    ensures
        r == forall|i: int| 0 <= i < chars@.len() ==> user_char(#[trigger] chars@[i]),
{
    let mut i: usize = 0;
    while i < chars.len()
        invariant
            i <= chars.len(),
            forall|k: int| 0 <= k < i ==> user_char(#[trigger] chars@[k]),
        decreases chars.len() - i,
    {
        let c = chars[i];
        if !(is_user_edge_char(c) || c == '.' || c == '_' || c == '-') {
            assert(!user_char(chars@[i as int]));
            return false;
        }
        i = i + 1;
    }
    true
}

fn has_double_dot(chars: &Vec<char>) -> (r: bool)
    ensures
        r == exists|i: int| 0 <= i < chars@.len() - 1 && #[trigger] double_dot_at(chars@, i),
{
    let mut i: usize = 1;
    while i < chars.len()
        invariant
            1 <= i,
            forall|k: int|
                0 <= k < i - 1 && k < chars@.len() - 1 ==> !#[trigger] double_dot_at(chars@, k),
        decreases chars.len() - i,
    {
        if chars[i - 1] == '.' && chars[i] == '.' {
            assert(double_dot_at(chars@, i - 1));
            return true;
        }
        i = i + 1;
    }
    false
}

/// Accepts exactly the canonical user names.
pub fn validate_user(user: &str) -> (r: Result<(), UserError>)
    ensures
        match user_fault(user@) {
            Some(fault) => r == Err::<(), UserError>(fault),
            None => r is Ok,
        },
        r is Ok <==> canonical_user(user@),
{
    proof {
        lemma_canonical_iff_no_fault(user@);
    }
    if user.is_empty() || user.as_bytes().len() > MAX_USER_LENGTH {
        return Err(UserError::Length);
    }
    if !user.is_ascii() {
        return Err(UserError::NotAscii);
    }
    let chars = chars_of(user);
    if has_uppercase(&chars) {
        return Err(UserError::NotLowercase);
    }
    if !all_user_chars(&chars) {
        return Err(UserError::Unsupported);
    }
    if !is_user_edge_char(chars[0]) || !is_user_edge_char(chars[chars.len() - 1]) {
        return Err(UserError::Edge);
    }
    if has_double_dot(&chars) {
        return Err(UserError::ConsecutiveDots);
    }
    Ok(())
}

/// Settings that an address may have of its own. What is left out falls back to
/// the settings of the server.
#[derive(Debug)]
pub struct UserMetadata {
    /// Whether the address is announced as an e-mail address.
    pub is_email: Option<bool>,
    /// The description shown to a payer.
    pub description: Option<String>,
    /// The smallest amount to be received, in millisatoshi.
    pub min_sendable_msat: Option<u64>,
    /// The largest amount to be received, in millisatoshi.
    pub max_sendable_msat: Option<u64>,
    /// The longest comment that a payer may send, in characters.
    pub comment_allowed: Option<u64>,
    /// Whether zaps are accepted, where the server can sign their receipts.
    pub nostr_enabled: Option<bool>,
}

/// The settings of an address, with the description as a sequence of characters.
pub struct UserMetadataView {
    pub is_email: Option<bool>,
    pub description: Option<Seq<char>>,
    pub min_sendable_msat: Option<u64>,
    pub max_sendable_msat: Option<u64>,
    pub comment_allowed: Option<u64>,
    pub nostr_enabled: Option<bool>,
}

impl View for UserMetadata {
    type V = UserMetadataView;

    open spec fn view(&self) -> UserMetadataView {
        UserMetadataView {
            is_email: self.is_email,
            description: text_view(self.description),
            min_sendable_msat: self.min_sendable_msat,
            max_sendable_msat: self.max_sendable_msat,
            comment_allowed: self.comment_allowed,
            nostr_enabled: self.nostr_enabled,
        }
    }
}

impl UserMetadataView {
    /// No settings at all.
    pub open spec fn unset() -> UserMetadataView {
        UserMetadataView {
            is_email: None,
            description: None,
            min_sendable_msat: None,
            max_sendable_msat: None,
            comment_allowed: None,
            nostr_enabled: None,
        }
    }

    /// The smallest amount to be received where the server's is `default_min`.
    pub open spec fn min_sendable(self, default_min: u64) -> u64 {
        match self.min_sendable_msat {
            Some(min) => min,
            None => default_min,
        }
    }

    /// The largest amount to be received where the server's is `default_max`.
    pub open spec fn max_sendable(self, default_max: u64) -> u64 {
        match self.max_sendable_msat {
            Some(max) => max,
            None => default_max,
        }
    }

    /// The first rule that these settings break, if they break one.
    pub open spec fn fault(self, default_min: u64, default_max: u64) -> Option<MetadataError> {
        if self.description is Some && self.description->0.len() > MAX_DESCRIPTION_LENGTH {
            Some(MetadataError::DescriptionTooLong)
        } else if self.comment_allowed is Some && !(1 <= self.comment_allowed->0
            <= MAX_COMMENT_ALLOWED) {
            Some(MetadataError::CommentAllowed)
        } else if self.min_sendable(default_min) > self.max_sendable(default_max) {
            Some(
                MetadataError::CrossedLimits {
                    min: self.min_sendable(default_min),
                    max: self.max_sendable(default_max),
                },
            )
        } else {
            None
        }
    }
}

/// Settings are accepted exactly if the description has at most 512 characters, the
/// comment limit is between 1 and 512, and the smallest amount that results is not
/// above the largest.
pub proof fn law_settings_accepted_iff_within_bounds(
    settings: UserMetadataView,
    default_min: u64,
    default_max: u64,
)
    ensures
        settings.fault(default_min, default_max) is None <==> {
            &&& settings.description matches Some(description) ==> description.len() <= 512
            &&& settings.comment_allowed matches Some(allowed) ==> 1 <= allowed <= 512
            &&& settings.min_sendable(default_min) <= settings.max_sendable(default_max)
        },
{
}

/// Why settings of an address are refused.
#[derive(Debug, Clone, Copy, PartialEq, Eq, Structural)]
pub enum MetadataError {
    /// The description is longer than `MAX_DESCRIPTION_LENGTH` characters.
    DescriptionTooLong,
    /// The comment limit is not between 1 and `MAX_COMMENT_ALLOWED`.
    CommentAllowed,
    /// The smallest amount is above the largest.
    CrossedLimits { min: u64, max: u64 },
}

impl MetadataError {
    /// What is said of this error.
    pub open spec fn text(self) -> Seq<char> {
        match self {
            MetadataError::DescriptionTooLong =>
                "description exceeds maximum length of 512 characters"@,
            MetadataError::CommentAllowed =>
                "comment_allowed must be between 1 and 512 characters"@,
            MetadataError::CrossedLimits { min, max } => "effective min_sendable_msat ("@
                + decimal(min as nat) + ") exceeds max_sendable_msat ("@ + decimal(max as nat)
                + ")"@,
        }
    }

    /// What is said of this error.
    pub fn message(&self) -> (r: String)
        ensures
            r@ == self.text(),
    {
        match self {
            MetadataError::DescriptionTooLong =>
                "description exceeds maximum length of 512 characters".to_owned(),
            MetadataError::CommentAllowed =>
                "comment_allowed must be between 1 and 512 characters".to_owned(),
            MetadataError::CrossedLimits { min, max } => {
                let mut out = "effective min_sendable_msat (".to_owned();
                push_number(&mut out, *min, 10);
                out.append(") exceeds max_sendable_msat (");
                push_number(&mut out, *max, 10);
                out.append(")");
                out
            },
        }
    }
}

impl Default for UserMetadata {
    fn default() -> (r: UserMetadata)
        ensures
            r@ == UserMetadataView::unset(),
    {
        UserMetadata {
            is_email: None,
            description: None,
            min_sendable_msat: None,
            max_sendable_msat: None,
            comment_allowed: None,
            nostr_enabled: None,
        }
    }
}

impl Clone for UserMetadata {
    fn clone(&self) -> (r: UserMetadata)
        ensures
            r == *self,
    {
        UserMetadata {
            is_email: self.is_email,
            description: match &self.description {
                Some(description) => Some(description.clone()),
                None => None,
            },
            min_sendable_msat: self.min_sendable_msat,
            max_sendable_msat: self.max_sendable_msat,
            comment_allowed: self.comment_allowed,
            nostr_enabled: self.nostr_enabled,
        }
    }
}

impl UserMetadata {
    /// Accepts the settings that break no rule, where the server's smallest and
    /// largest amounts are `default_min_msat` and `default_max_msat`.
    pub fn validate(&self, default_min_msat: u64, default_max_msat: u64) -> (r: Result<
        (),
        MetadataError,
    >)
        ensures
            match self@.fault(default_min_msat, default_max_msat) {
                Some(fault) => r == Err::<(), MetadataError>(fault),
                None => r is Ok,
            },
    {
        if let Some(description) = &self.description {
            if description.as_str().unicode_len() > MAX_DESCRIPTION_LENGTH {
                return Err(MetadataError::DescriptionTooLong);
            }
        }
        if let Some(comment_allowed) = self.comment_allowed {
            if comment_allowed == 0 || comment_allowed > MAX_COMMENT_ALLOWED {
                return Err(MetadataError::CommentAllowed);
            }
        }
        let min_sendable_msat: u64 = self.min_sendable_msat.unwrap_or(default_min_msat);
        let max_sendable_msat: u64 = self.max_sendable_msat.unwrap_or(default_max_msat);
        if min_sendable_msat > max_sendable_msat {
            return Err(
                MetadataError::CrossedLimits { min: min_sendable_msat, max: max_sendable_msat },
            );
        }
        Ok(())
    }
}

/// The canonical names, spelled out: 1 to 64 characters of `a` to `z`, `0` to `9`,
/// `.`, `_` and `-`, of which the first and the last are letters or digits, and no
/// two neighbours are both dots.
pub proof fn law_canonical_names(s: Seq<char>)
    ensures
        canonical_user(s) <==> {
            &&& 1 <= s.len() <= 64
            &&& forall|i: int|
                0 <= i < s.len() ==> 'a' <= #[trigger] s[i] <= 'z' || '0' <= s[i] <= '9' || s[i]
                    == '.' || s[i] == '_' || s[i] == '-'
            &&& 'a' <= s[0] <= 'z' || '0' <= s[0] <= '9'
            &&& 'a' <= s[s.len() - 1] <= 'z' || '0' <= s[s.len() - 1] <= '9'
            &&& forall|i: int, j: int|
                0 <= i < s.len() && j == i + 1 && j < s.len() && #[trigger] s[i] == '.'
                    ==> #[trigger] s[j] != '.'
        },
{
    if canonical_user(s) {
        assert forall|i: int, j: int|
            0 <= i < s.len() && j == i + 1 && j < s.len() && #[trigger] s[i]
                == '.' implies #[trigger] s[j] != '.' by {
            assert(!double_dot_at(s, i));
        }
        assert forall|i: int| 0 <= i < s.len() implies 'a' <= #[trigger] s[i] <= 'z' || '0' <= s[i]
            <= '9' || s[i] == '.' || s[i] == '_' || s[i] == '-' by {
            assert(user_char(s[i]));
        }
    }
}

/// Two canonical names with a dot, an underscore or a hyphen between them are a
/// canonical name, as long as it has at most 64 characters.
pub proof fn law_names_are_joined_by_separators(a: Seq<char>, sep: char, b: Seq<char>)
    requires
        canonical_user(a),
        canonical_user(b),
        sep == '.' || sep == '_' || sep == '-',
        a.len() + 1 + b.len() <= 64,
    ensures
        canonical_user(a.push(sep) + b),
{
    let s = a.push(sep) + b;
    law_canonical_names(a);
    law_canonical_names(b);
    assert forall|i: int, j: int|
        0 <= i < s.len() && j == i + 1 && j < s.len() && #[trigger] s[i]
            == '.' implies #[trigger] s[j] != '.' by {
        if i < a.len() - 1 {
            assert(a[i] == s[i] && a[i + 1] == s[j]);
        } else if i == a.len() - 1 {
            assert(s[i] == a[a.len() - 1]);
        } else if i == a.len() {
            assert(s[j] == b[0]);
        } else {
            assert(b[i - a.len() - 1] == s[i] && b[i - a.len()] == s[j]);
        }
    }
    assert forall|i: int| 0 <= i < s.len() implies 'a' <= #[trigger] s[i] <= 'z' || '0' <= s[i]
        <= '9' || s[i] == '.' || s[i] == '_' || s[i] == '-' by {
        if i < a.len() {
            assert(a[i] == s[i]);
        } else if i > a.len() {
            assert(b[i - a.len() - 1] == s[i]);
        }
    }
    law_canonical_names(s);
}

/// What is said of a name, where several things are wrong with it: first its length
/// in bytes, then characters outside ASCII, then uppercase letters, then other
/// characters, then its two ends, then dots in a row.
pub proof fn law_first_fault_of_a_name(s: Seq<char>)
    ensures
        user_fault(s) == Some(UserError::Length) <==> s.len() == 0 || encode_utf8(s).len() > 64,
        user_fault(s) == Some(UserError::NotAscii) <==> 1 <= s.len() && encode_utf8(s).len() <= 64
            && !is_ascii_chars(s),
        user_fault(s) == Some(UserError::NotLowercase) ==> exists|i: int|
            0 <= i < s.len() && 'A' <= #[trigger] s[i] <= 'Z',
        1 <= s.len() <= 64 && is_ascii_chars(s) && (exists|i: int| 0 <= i < s.len() && 'A' <= #[trigger] s[i] <= 'Z') ==> user_fault(s)
            == Some(UserError::NotLowercase),
        user_fault(s) == Some(UserError::ConsecutiveDots) ==> exists|i: int|
            0 <= i < s.len() - 1 && s[i] == '.' && #[trigger] s[i + 1] == '.',
        user_fault(s) == Some(UserError::Edge) ==> s[0] == '.' || s[0] == '_' || s[0] == '-'
            || s.last() == '.' || s.last() == '_' || s.last() == '-',
{
    if user_fault(s) == Some(UserError::NotLowercase) {
        let i = choose|i: int| 0 <= i < s.len() && is_upper(#[trigger] s[i]);
        assert('A' <= s[i] <= 'Z');
    }
    if 1 <= s.len() <= 64 && is_ascii_chars(s) && (exists|i: int|
        0 <= i < s.len() && 'A' <= #[trigger] s[i] <= 'Z') {
        is_ascii_chars_encode_utf8(s);
        let i = choose|i: int| 0 <= i < s.len() && 'A' <= #[trigger] s[i] <= 'Z';
        assert(is_upper(s[i]));
    }
    if user_fault(s) == Some(UserError::ConsecutiveDots) {
        let i = choose|i: int| 0 <= i < s.len() - 1 && #[trigger] double_dot_at(s, i);
        assert(s[i + 1] == '.');
    }
    if user_fault(s) == Some(UserError::Edge) {
        assert(user_char(s[0]) && user_char(s[s.len() - 1]));
    }
}

/// An amount limit of an address counts where it has one, else that of the server.
pub proof fn law_own_limits_come_first(settings: UserMetadataView, min: u64, max: u64)
    ensures
        settings.min_sendable_msat matches Some(own) ==> settings.min_sendable(min) == own,
        settings.min_sendable_msat is None ==> settings.min_sendable(min) == min,
        settings.max_sendable_msat matches Some(own) ==> settings.max_sendable(max) == own,
        settings.max_sendable_msat is None ==> settings.max_sendable(max) == max,
{
}

/// Which rule is said to be broken by settings: the description first, then the
/// comment limit, then the amount limits that result.
pub proof fn law_first_fault_of_settings(settings: UserMetadataView, min: u64, max: u64)
    ensures
        settings.fault(min, max) == Some(MetadataError::DescriptionTooLong) <==> (
        settings.description matches Some(text) && text.len() > 512),
        settings.fault(min, max) == Some(MetadataError::CommentAllowed) ==> settings.comment_allowed
            == Some(0u64) || settings.comment_allowed->0 > 512,
        settings.fault(min, max) matches Some(MetadataError::CrossedLimits { min: low, max: high })
            ==> low > high && low == settings.min_sendable(min) && high == settings.max_sendable(
            max,
        ),
{
}

/// No field of the settings is lost in their view, and no settings at all are no
/// field at all.
pub proof fn law_settings_view_keeps_every_field(metadata: UserMetadata)
    ensures
        metadata@.is_email == metadata.is_email,
        metadata.description matches Some(text) ==> metadata@.description == Some(text@),
        metadata.description is None ==> metadata@.description is None,
        metadata@.min_sendable_msat == metadata.min_sendable_msat,
        metadata@.max_sendable_msat == metadata.max_sendable_msat,
        metadata@.comment_allowed == metadata.comment_allowed,
        metadata@.nostr_enabled == metadata.nostr_enabled,
        UserMetadataView::unset().is_email is None,
        UserMetadataView::unset().description is None,
        UserMetadataView::unset().min_sendable_msat is None,
        UserMetadataView::unset().max_sendable_msat is None,
        UserMetadataView::unset().comment_allowed is None,
        UserMetadataView::unset().nostr_enabled is None,
{
}

/// What an error says of crossed limits holds the two limits.
pub proof fn law_crossed_limits_are_said(min: u64, max: u64)
    ensures
        (MetadataError::CrossedLimits { min, max }).text() == "effective min_sendable_msat ("@
            + decimal(min as nat) + ") exceeds max_sendable_msat ("@ + decimal(max as nat) + ")"@,
{
}

} // verus!
