//! The commands that add, remove and list users.

use vstd::prelude::*;
use vstd::string::*;

use crate::state::{same_but_users, PluginState};
use crate::text::{
    decimal, law_decimal_is_read_back, law_only_digits_are_numbers, parse_unsigned, text_view,
    unsigned_value,
};
use crate::user::{
    canonical_user, law_settings_accepted_iff_within_bounds, lemma_canonical_iff_no_fault, user_fault, validate_user, MetadataError, UserError,
    UserMetadata, UserMetadataView,
};
use crate::users::{distinct_users, settings_of, UserEntry};
use crate::value::{get_member, member, Number, Value};

verus! {

/// The fields of a user.
#[derive(Debug, Clone, Copy, PartialEq, Eq, Structural)]
pub enum Field {
    User,
    IsEmail,
    Description,
    MinSendableMsat,
    MaxSendableMsat,
    CommentAllowed,
    NostrEnabled,
}

impl Field {
    /// The name of the field.
    pub open spec fn text(self) -> Seq<char> {
        match self {
            Field::User => "user"@,
            Field::IsEmail => "is_email"@,
            Field::Description => "description"@,
            Field::MinSendableMsat => "min_sendable_msat"@,
            Field::MaxSendableMsat => "max_sendable_msat"@,
            Field::CommentAllowed => "comment_allowed"@,
            Field::NostrEnabled => "nostr_enabled"@,
        }
    }

    /// The name of the field.
    pub fn name(&self) -> (r: &'static str)
        ensures
            r@ == self.text(),
    {
        match self {
            Field::User => "user",
            Field::IsEmail => "is_email",
            Field::Description => "description",
            Field::MinSendableMsat => "min_sendable_msat",
            Field::MaxSendableMsat => "max_sendable_msat",
            Field::CommentAllowed => "comment_allowed",
            Field::NostrEnabled => "nostr_enabled",
        }
    }
}

/// Why a command fails, where `S` stands for the texts that an error holds.
#[derive(Debug)]
pub enum RpcFault<S> {
    /// The arguments are of a type that holds no user.
    InvalidInput,
    /// No positional arguments.
    EmptyArray,
    /// More positional arguments than there are positions.
    ManyPositional,
    /// A named argument of a name that is not a field.
    UnknownField(S),
    /// No argument named `user`.
    MissingUser,
    /// A value of a type that the field cannot have.
    InvalidType(Field),
    /// A text that is neither `true` nor `false`.
    NotBool(Field),
    /// A number or a text that is no natural number of 64 bits.
    NotInteger(Field),
    /// A user name that is not canonical.
    User(UserError),
    /// Settings that are refused.
    Metadata(MetadataError),
    /// A named argument other than `user`, where only that one is known.
    UnknownSelector(S),
    /// More than one argument, where only a user is known.
    ManySelectors,
    /// No user, where one is needed.
    UserRequired,
    /// A user that cannot be removed, as it is not there.
    NotFound,
    /// A user that cannot be listed, as it is not there.
    NotListed(S),
}

/// Why a command fails.
pub type RpcError = RpcFault<String>;

/// Why a command fails, over sequences.
pub type RpcErrorView = RpcFault<Seq<char>>;

impl View for RpcFault<String> {
    type V = RpcFault<Seq<char>>;

    open spec fn view(&self) -> RpcFault<Seq<char>> {
        match self {
            RpcFault::InvalidInput => RpcFault::InvalidInput,
            RpcFault::EmptyArray => RpcFault::EmptyArray,
            RpcFault::ManyPositional => RpcFault::ManyPositional,
            RpcFault::UnknownField(name) => RpcFault::UnknownField(name@),
            RpcFault::MissingUser => RpcFault::MissingUser,
            RpcFault::InvalidType(field) => RpcFault::InvalidType(*field),
            RpcFault::NotBool(field) => RpcFault::NotBool(*field),
            RpcFault::NotInteger(field) => RpcFault::NotInteger(*field),
            RpcFault::User(fault) => RpcFault::User(*fault),
            RpcFault::Metadata(fault) => RpcFault::Metadata(*fault),
            RpcFault::UnknownSelector(name) => RpcFault::UnknownSelector(name@),
            RpcFault::ManySelectors => RpcFault::ManySelectors,
            RpcFault::UserRequired => RpcFault::UserRequired,
            RpcFault::NotFound => RpcFault::NotFound,
            RpcFault::NotListed(user) => RpcFault::NotListed(user@),
        }
    }
}

impl RpcFault<Seq<char>> {
    /// What is said of this error.
    pub open spec fn text(self) -> Seq<char> {
        match self {
            RpcFault::InvalidInput => "Not a valid input type"@,
            RpcFault::EmptyArray => "Empty array input"@,
            RpcFault::ManyPositional =>
                "positional clnaddress-adduser supports only `user [is_email] [description]`; use named parameters for per-address limits, comments, or Nostr settings"@,
            RpcFault::UnknownField(name) => "unknown clnaddress-adduser field `"@ + name + "`"@,
            RpcFault::MissingUser => "`user` field not found in object"@,
            RpcFault::InvalidType(field) => "`"@ + field.text() + "` has invalid type"@,
            RpcFault::NotBool(field) => "`"@ + field.text() + "` must be true or false"@,
            RpcFault::NotInteger(field) => "`"@ + field.text()
                + "` must be a non-negative integer"@,
            RpcFault::User(fault) => fault.text(),
            RpcFault::Metadata(fault) => fault.text(),
            RpcFault::UnknownSelector(name) => "unknown field `"@ + name + "`"@,
            RpcFault::ManySelectors => "expected zero or one user argument"@,
            RpcFault::UserRequired => "user is required"@,
            RpcFault::NotFound => "User not found"@,
            RpcFault::NotListed(user) => "User `"@ + user + "` not found!"@,
        }
    }
}

/// `before`, `middle` and `after` in a row.
fn enclosed(before: &str, middle: &str, after: &str) -> (r: String)
    ensures
        r@ == before@ + middle@ + after@,
{
    let mut out = before.to_owned();
    out.append(middle);
    out.append(after);
    out
}

impl RpcFault<String> {
    /// What is said of this error.
    pub fn message(&self) -> (r: String)
        ensures
            r@ == self@.text(),
    {
        match self {
            RpcFault::InvalidInput => "Not a valid input type".to_owned(),
            RpcFault::EmptyArray => "Empty array input".to_owned(),
            RpcFault::ManyPositional =>
                "positional clnaddress-adduser supports only `user [is_email] [description]`; use named parameters for per-address limits, comments, or Nostr settings".to_owned(),
            RpcFault::UnknownField(name) => enclosed(
                "unknown clnaddress-adduser field `",
                name.as_str(),
                "`",
            ),
            RpcFault::MissingUser => "`user` field not found in object".to_owned(),
            RpcFault::InvalidType(field) => enclosed("`", field.name(), "` has invalid type"),
            RpcFault::NotBool(field) => enclosed("`", field.name(), "` must be true or false"),
            RpcFault::NotInteger(field) => enclosed(
                "`",
                field.name(),
                "` must be a non-negative integer",
            ),
            RpcFault::User(fault) => fault.message(),
            RpcFault::Metadata(fault) => fault.message(),
            RpcFault::UnknownSelector(name) => enclosed("unknown field `", name.as_str(), "`"),
            RpcFault::ManySelectors => "expected zero or one user argument".to_owned(),
            RpcFault::UserRequired => "user is required".to_owned(),
            RpcFault::NotFound => "User not found".to_owned(),
            RpcFault::NotListed(user) => enclosed("User `", user.as_str(), "` not found!"),
        }
    }
}

/// The text that `value` gives for `field`: a string as it is, a number as it is
/// printed.
pub open spec fn text_of(value: Value, field: Field) -> Result<Seq<char>, RpcErrorView> {
    match value {
        Value::String(text) => Ok(text@),
        Value::Number(number) => Ok(number.text()),
        _ => Err(RpcFault::InvalidType(field)),
    }
}

/// The truth value that `value` gives for `field`.
pub open spec fn bool_of(value: Value, field: Field) -> Result<bool, RpcErrorView> {
    match value {
        Value::Bool(truth) => Ok(truth),
        Value::String(text) => if text@ == "true"@ {
            Ok(true)
        } else if text@ == "false"@ {
            Ok(false)
        } else {
            Err(RpcFault::NotBool(field))
        },
        _ => Err(RpcFault::InvalidType(field)),
    }
}

/// The natural number that `value` gives for `field`.
pub open spec fn u64_of(value: Value, field: Field) -> Result<u64, RpcErrorView> {
    match value {
        Value::Number(Number::PosInt(n)) => Ok(n),
        Value::Number(_) => Err(RpcFault::NotInteger(field)),
        Value::String(text) => match unsigned_value(text@, u64::MAX as nat) {
            Some(n) => Ok(n as u64),
            None => Err(RpcFault::NotInteger(field)),
        },
        _ => Err(RpcFault::InvalidType(field)),
    }
}

/// The result of reading a text, over sequences.
pub open spec fn text_read_view(r: Result<String, RpcError>) -> Result<Seq<char>, RpcErrorView> {
    match r {
        Ok(text) => Ok(text@),
        Err(e) => Err(e@),
    }
}

/// The result of reading a value, with the error over sequences.
pub open spec fn read_view<T>(r: Result<T, RpcError>) -> Result<T, RpcErrorView> {
    match r {
        Ok(value) => Ok(value),
        Err(e) => Err(e@),
    }
}

/// Reads a truth value.
pub fn value_to_bool(value: &Value, field: Field) -> (r: Result<bool, RpcError>)
    ensures
        read_view(r) == bool_of(*value, field),
{
    match value {
        Value::Bool(truth) => Ok(*truth),
        Value::String(text) => {
            proof {
                reveal_strlit("true");
                reveal_strlit("false");
            }
            if *text == "true".to_owned() {
                Ok(true)
            } else if *text == "false".to_owned() {
                Ok(false)
            } else {
                Err(RpcFault::NotBool(field))
            }
        },
        _ => Err(RpcFault::InvalidType(field)),
    }
}

/// Reads a text.
pub fn value_to_string(value: &Value, field: Field) -> (r: Result<String, RpcError>)
    ensures
        text_read_view(r) == text_of(*value, field),
{
    match value {
        Value::String(text) => Ok(text.clone()),
        Value::Number(number) => Ok(number.print()),
        _ => Err(RpcFault::InvalidType(field)),
    }
}

/// Reads a natural number.
pub fn value_to_u64(value: &Value, field: Field) -> (r: Result<u64, RpcError>)
    ensures
        read_view(r) == u64_of(*value, field),
{
    match value {
        Value::Number(number) => match number.as_u64() {
            Some(n) => Ok(n),
            None => Err(RpcFault::NotInteger(field)),
        },
        Value::String(text) => match parse_unsigned(text.as_str(), u64::MAX) {
            Some(n) => Ok(n),
            None => Err(RpcFault::NotInteger(field)),
        },
        _ => Err(RpcFault::InvalidType(field)),
    }
}

/// The fields that a user may be added with.
pub open spec fn user_add_fields_view() -> Seq<Field> {
    seq![
        Field::User,
        Field::IsEmail,
        Field::Description,
        Field::MinSendableMsat,
        Field::MaxSendableMsat,
        Field::CommentAllowed,
        Field::NostrEnabled,
    ]
}

/// The fields that a user may be added with.
fn user_add_fields() -> (r: Vec<Field>)
    ensures
        r@ == user_add_fields_view(),
{
    let mut fields: Vec<Field> = Vec::new();
    fields.push(Field::User);
    fields.push(Field::IsEmail);
    fields.push(Field::Description);
    fields.push(Field::MinSendableMsat);
    fields.push(Field::MaxSendableMsat);
    fields.push(Field::CommentAllowed);
    fields.push(Field::NostrEnabled);
    assert(fields@ =~= user_add_fields_view());
    fields
}

/// `name` is the name of one of `fields`.
pub open spec fn names_field(fields: Seq<Field>, name: Seq<char>) -> bool {
    exists|i: int| 0 <= i < fields.len() && (#[trigger] fields[i]).text() == name
}

/// The name of the first member that is not one of `fields`.
pub open spec fn first_unknown(members: Seq<(String, Value)>, fields: Seq<Field>) -> Option<Seq<char>>
    decreases members.len(),
{
    if members.len() == 0 {
        None
    } else if !names_field(fields, members[0].0@) {
        Some(members[0].0@)
    } else {
        first_unknown(members.skip(1), fields)
    }
}

/// Whether `name` is the name of one of `fields`.
fn is_field_name(fields: &Vec<Field>, name: &String) -> (r: bool)
    ensures
        r == names_field(fields@, name@),
{
    let mut i: usize = 0;
    while i < fields.len()
        invariant
            i <= fields@.len(),
            forall|k: int| 0 <= k < i ==> (#[trigger] fields@[k]).text() != name@,
        decreases fields.len() - i,
    {
        if *name == fields[i].name().to_owned() {
            return true;
        }
        i = i + 1;
    }
    false
}

/// The name of the first member that is not one of `fields`.
fn unknown_member(members: &Vec<(String, Value)>, fields: &Vec<Field>) -> (r: Option<String>)
    ensures
        text_view(r) == first_unknown(members@, fields@),
{
    let mut i: usize = 0;
    assert(members@.skip(0) =~= members@);
    while i < members.len()
        invariant
            i <= members@.len(),
            first_unknown(members@, fields@) == first_unknown(members@.skip(i as int), fields@),
        decreases members.len() - i,
    {
        assert(members@.skip(i as int).skip(1) =~= members@.skip(i + 1));
        if !is_field_name(fields, &members[i].0) {
            return Some(members[i].0.clone());
        }
        i = i + 1;
    }
    None
}

/// The truth value of `field`, where there is one.
pub open spec fn optional_bool_of(value: Option<Value>, field: Field) -> Result<
    Option<bool>,
    RpcErrorView,
> {
    match value {
        None => Ok(None),
        Some(value) => match bool_of(value, field) {
            Ok(truth) => Ok(Some(truth)),
            Err(e) => Err(e),
        },
    }
}

/// The text of `field`, where there is one.
pub open spec fn optional_text_of(value: Option<Value>, field: Field) -> Result<
    Option<Seq<char>>,
    RpcErrorView,
> {
    match value {
        None => Ok(None),
        Some(value) => match text_of(value, field) {
            Ok(text) => Ok(Some(text)),
            Err(e) => Err(e),
        },
    }
}

/// The natural number of `field`, where there is one.
pub open spec fn optional_u64_of(value: Option<Value>, field: Field) -> Result<
    Option<u64>,
    RpcErrorView,
> {
    match value {
        None => Ok(None),
        Some(value) => match u64_of(value, field) {
            Ok(n) => Ok(Some(n)),
            Err(e) => Err(e),
        },
    }
}

/// The result of reading a text that may be missing, over sequences.
pub open spec fn optional_text_read_view(r: Result<Option<String>, RpcError>) -> Result<
    Option<Seq<char>>,
    RpcErrorView,
> {
    match r {
        Ok(text) => Ok(text_view(text)),
        Err(e) => Err(e@),
    }
}

/// Reads the truth value of `field`, where there is one.
fn optional_bool(members: &Vec<(String, Value)>, field: Field) -> (r: Result<
    Option<bool>,
    RpcError,
>)
    ensures
        read_view(r) == optional_bool_of(member(members@, field.text()), field),
{
    match get_member(members, field.name()) {
        None => Ok(None),
        Some(value) => match value_to_bool(value, field) {
            Ok(truth) => Ok(Some(truth)),
            Err(e) => Err(e),
        },
    }
}

/// Reads the text of `field`, where there is one.
fn optional_string(members: &Vec<(String, Value)>, field: Field) -> (r: Result<
    Option<String>,
    RpcError,
>)
    ensures
        optional_text_read_view(r) == optional_text_of(member(members@, field.text()), field),
{
    match get_member(members, field.name()) {
        None => Ok(None),
        Some(value) => match value_to_string(value, field) {
            Ok(text) => Ok(Some(text)),
            Err(e) => Err(e),
        },
    }
}

/// Reads the natural number of `field`, where there is one.
fn optional_u64(members: &Vec<(String, Value)>, field: Field) -> (r: Result<Option<u64>, RpcError>)
    ensures
        read_view(r) == optional_u64_of(member(members@, field.text()), field),
{
    match get_member(members, field.name()) {
        None => Ok(None),
        Some(value) => match value_to_u64(value, field) {
            Ok(n) => Ok(Some(n)),
            Err(e) => Err(e),
        },
    }
}

/// The value at position `i`, where there is one.
pub open spec fn at_position(values: Seq<Value>, i: int) -> Option<Value> {
    if i < values.len() {
        Some(values[i])
    } else {
        None
    }
}

/// The user and the settings that positional arguments give: a name, then
/// whether it is an e-mail address, then a description.
pub open spec fn positional_user(values: Seq<Value>) -> Result<
    (Seq<char>, UserMetadataView),
    RpcErrorView,
> {
    if values.len() == 0 {
        Err(RpcFault::EmptyArray)
    } else if values.len() > 3 {
        Err(RpcFault::ManyPositional)
    } else {
        match (
            text_of(values[0], Field::User),
            optional_bool_of(at_position(values, 1), Field::IsEmail),
            optional_text_of(at_position(values, 2), Field::Description),
        ) {
            (Err(e), _, _) => Err(e),
            (_, Err(e), _) => Err(e),
            (_, _, Err(e)) => Err(e),
            (Ok(user), Ok(is_email), Ok(description)) => Ok(
                (user, UserMetadataView { is_email, description, ..UserMetadataView::unset() }),
            ),
        }
    }
}

/// The settings that named arguments give.
pub open spec fn named_settings(members: Seq<(String, Value)>) -> Result<
    UserMetadataView,
    RpcErrorView,
> {
    match (
        optional_bool_of(member(members, Field::IsEmail.text()), Field::IsEmail),
        optional_text_of(member(members, Field::Description.text()), Field::Description),
        optional_u64_of(member(members, Field::MinSendableMsat.text()), Field::MinSendableMsat),
        optional_u64_of(member(members, Field::MaxSendableMsat.text()), Field::MaxSendableMsat),
        optional_u64_of(member(members, Field::CommentAllowed.text()), Field::CommentAllowed),
        optional_bool_of(member(members, Field::NostrEnabled.text()), Field::NostrEnabled),
    ) {
        (Err(e), _, _, _, _, _) => Err(e),
        (_, Err(e), _, _, _, _) => Err(e),
        (_, _, Err(e), _, _, _) => Err(e),
        (_, _, _, Err(e), _, _) => Err(e),
        (_, _, _, _, Err(e), _) => Err(e),
        (_, _, _, _, _, Err(e)) => Err(e),
        (
            Ok(is_email),
            Ok(description),
            Ok(min_sendable_msat),
            Ok(max_sendable_msat),
            Ok(comment_allowed),
            Ok(nostr_enabled),
        ) => Ok(
            UserMetadataView {
                is_email,
                description,
                min_sendable_msat,
                max_sendable_msat,
                comment_allowed,
                nostr_enabled,
            },
        ),
    }
}

/// The user and the settings that named arguments give.
pub open spec fn named_user(members: Seq<(String, Value)>) -> Result<
    (Seq<char>, UserMetadataView),
    RpcErrorView,
> {
    match first_unknown(members, user_add_fields_view()) {
        Some(name) => Err(RpcFault::UnknownField(name)),
        None => match member(members, Field::User.text()) {
            None => Err(RpcFault::MissingUser),
            Some(value) => match (text_of(value, Field::User), named_settings(members)) {
                (Err(e), _) => Err(e),
                (_, Err(e)) => Err(e),
                (Ok(user), Ok(settings)) => Ok((user, settings)),
            },
        },
    }
}

/// The user and the settings that arguments of any form give, where the name of
/// the user may be any.
pub open spec fn given_user(args: Value) -> Result<(Seq<char>, UserMetadataView), RpcErrorView> {
    match args {
        Value::String(user) => Ok((user@, UserMetadataView::unset())),
        Value::Number(user) => Ok((user.text(), UserMetadataView::unset())),
        Value::Array(values) => positional_user(values@),
        Value::Object(members) => named_user(members@),
        _ => Err(RpcFault::InvalidInput),
    }
}

/// The user and the settings that arguments of any form give.
pub open spec fn user_to_add(args: Value) -> Result<(Seq<char>, UserMetadataView), RpcErrorView> {
    match given_user(args) {
        Err(e) => Err(e),
        Ok((user, settings)) => match user_fault(user) {
            Some(fault) => Err(RpcFault::User(fault)),
            None => Ok((user, settings)),
        },
    }
}

/// The result of reading a user and its settings, over views.
pub open spec fn user_read_view(r: Result<(String, UserMetadata), RpcError>) -> Result<
    (Seq<char>, UserMetadataView),
    RpcErrorView,
> {
    match r {
        Ok((user, metadata)) => Ok((user@, metadata@)),
        Err(e) => Err(e@),
    }
}

/// Reads a user and its settings from positional arguments.
fn parse_legacy_user_array(values: &Vec<Value>) -> (r: Result<(String, UserMetadata), RpcError>)
    ensures
        user_read_view(r) == positional_user(values@),
{
    if values.is_empty() {
        return Err(RpcFault::EmptyArray);
    }
    if values.len() > 3 {
        return Err(RpcFault::ManyPositional);
    }
    let user = match value_to_string(&values[0], Field::User) {
        Ok(user) => user,
        Err(e) => return Err(e),
    };
    let is_email: Option<bool> = if values.len() > 1 {
        match value_to_bool(&values[1], Field::IsEmail) {
            Ok(is_email) => Some(is_email),
            Err(e) => return Err(e),
        }
    } else {
        None
    };
    let description: Option<String> = if values.len() > 2 {
        match value_to_string(&values[2], Field::Description) {
            Ok(description) => Some(description),
            Err(e) => return Err(e),
        }
    } else {
        None
    };
    Ok(
        (
            user,
            UserMetadata {
                is_email,
                description,
                min_sendable_msat: None,
                max_sendable_msat: None,
                comment_allowed: None,
                nostr_enabled: None,
            },
        ),
    )
}

/// Reads a user and its settings from named arguments.
fn parse_user_object(members: &Vec<(String, Value)>) -> (r: Result<
    (String, UserMetadata),
    RpcError,
>)
    ensures
        user_read_view(r) == named_user(members@),
{
    if let Some(name) = unknown_member(members, &user_add_fields()) {
        return Err(RpcFault::UnknownField(name));
    }
    let user = match get_member(members, Field::User.name()) {
        None => return Err(RpcFault::MissingUser),
        Some(value) => value_to_string(value, Field::User)?,
    };
    let is_email: Option<bool> = optional_bool(members, Field::IsEmail)?;
    let description = optional_string(members, Field::Description)?;
    let min_sendable_msat: Option<u64> = optional_u64(members, Field::MinSendableMsat)?;
    let max_sendable_msat: Option<u64> = optional_u64(members, Field::MaxSendableMsat)?;
    let comment_allowed: Option<u64> = optional_u64(members, Field::CommentAllowed)?;
    let nostr_enabled: Option<bool> = optional_bool(members, Field::NostrEnabled)?;
    Ok(
        (
            user,
            UserMetadata {
                is_email,
                description,
                min_sendable_msat,
                max_sendable_msat,
                comment_allowed,
                nostr_enabled,
            },
        ),
    )
}

/// Reads the user to be added and its settings: a name alone, positional
/// arguments, or named ones.
pub fn parse_user_add_args(args: &Value) -> (r: Result<(String, UserMetadata), RpcError>)
    ensures
        user_read_view(r) == user_to_add(*args),
{
    let (user, metadata) = match args {
        Value::String(user) => (user.clone(), UserMetadata::default()),
        Value::Number(user) => (user.print(), UserMetadata::default()),
        Value::Array(values) => parse_legacy_user_array(values)?,
        Value::Object(members) => parse_user_object(members)?,
        _ => return Err(RpcFault::InvalidInput),
    };
    match validate_user(user.as_str()) {
        Err(fault) => Err(RpcFault::User(fault)),
        Ok(()) => Ok((user, metadata)),
    }
}

/// The user that arguments of any form select, if any.
pub open spec fn given_selector(args: Value) -> Result<Option<Seq<char>>, RpcErrorView> {
    match args {
        Value::Null => Ok(None),
        Value::String(user) => Ok(Some(user@)),
        Value::Number(user) => Ok(Some(user.text())),
        Value::Array(values) => if values@.len() > 1 {
            Err(RpcFault::ManySelectors)
        } else {
            optional_text_of(at_position(values@, 0), Field::User)
        },
        Value::Object(members) => match first_unknown(members@, seq![Field::User]) {
            Some(name) => Err(RpcFault::UnknownSelector(name)),
            None => optional_text_of(member(members@, Field::User.text()), Field::User),
        },
        Value::Bool(_) => Err(RpcFault::InvalidInput),
    }
}

/// The user that the arguments select, if any.
pub open spec fn selected_user(args: Value) -> Result<Option<Seq<char>>, RpcErrorView> {
    match given_selector(args) {
        Ok(Some(user)) => match user_fault(user) {
            Some(fault) => Err(RpcFault::User(fault)),
            None => Ok(Some(user)),
        },
        other => other,
    }
}

/// Reads the user that the arguments select, if any.
pub fn parse_optional_user_selector(args: &Value) -> (r: Result<Option<String>, RpcError>)
    ensures
        optional_text_read_view(r) == selected_user(*args),
{
    let user: Option<String> = match args {
        Value::Null => None,
        Value::String(user) => Some(user.clone()),
        Value::Number(user) => Some(user.print()),
        Value::Array(values) => {
            if values.is_empty() {
                None
            } else if values.len() == 1 {
                match value_to_string(&values[0], Field::User) {
                    Ok(user) => Some(user),
                    Err(e) => return Err(e),
                }
            } else {
                return Err(RpcFault::ManySelectors);
            }
        },
        Value::Object(members) => {
            let mut fields: Vec<Field> = Vec::new();
            fields.push(Field::User);
            assert(fields@ =~= seq![Field::User]);
            if let Some(name) = unknown_member(members, &fields) {
                return Err(RpcFault::UnknownSelector(name));
            }
            optional_string(members, Field::User)?
        },
        Value::Bool(_) => return Err(RpcFault::InvalidInput),
    };
    if let Some(user) = &user {
        if let Err(fault) = validate_user(user.as_str()) {
            return Err(RpcFault::User(fault));
        }
    }
    Ok(user)
}

/// The user that the arguments select, where one is needed.
pub open spec fn required_user(args: Value) -> Result<Seq<char>, RpcErrorView> {
    match selected_user(args) {
        Ok(Some(user)) => Ok(user),
        Ok(None) => Err(RpcFault::UserRequired),
        Err(e) => Err(e),
    }
}

/// Reads the user that the arguments select, where one is needed.
pub fn parse_required_user_selector(args: &Value) -> (r: Result<String, RpcError>)
    ensures
        text_read_view(r) == required_user(*args),
{
    match parse_optional_user_selector(args)? {
        Some(user) => Ok(user),
        None => Err(RpcFault::UserRequired),
    }
}

/// What a command does to a user.
#[derive(Debug, Clone, Copy, PartialEq, Eq, Structural)]
pub enum ChangeMode {
    Added,
    Updated,
    Deleted,
}

impl ChangeMode {
    /// The name of the mode.
    pub open spec fn text(self) -> Seq<char> {
        match self {
            ChangeMode::Added => "added"@,
            ChangeMode::Updated => "updated"@,
            ChangeMode::Deleted => "deleted"@,
        }
    }

    /// The name of the mode.
    pub fn name(&self) -> (r: &'static str)
        ensures
            r@ == self.text(),
    {
        match self {
            ChangeMode::Added => "added",
            ChangeMode::Updated => "updated",
            ChangeMode::Deleted => "deleted",
        }
    }
}

/// What a command did to a user.
#[derive(Debug)]
pub struct UserChange {
    /// Whether the user was added, updated or deleted.
    pub mode: ChangeMode,
    /// The name of the user.
    pub user: String,
    /// The settings that the user was given, or had until it was deleted.
    pub metadata: UserMetadata,
}

/// The user and the settings that a server, which receives from `default_min` to
/// `default_max`, takes from the arguments.
pub open spec fn accepted_user(args: Value, default_min: u64, default_max: u64) -> Result<
    (Seq<char>, UserMetadataView),
    RpcErrorView,
> {
    match user_to_add(args) {
        Err(e) => Err(e),
        Ok((user, settings)) => match settings.fault(default_min, default_max) {
            Some(fault) => Err(RpcFault::Metadata(fault)),
            None => Ok((user, settings)),
        },
    }
}

/// The settings of every user are settings that are accepted where the server
/// receives from `default_min` to `default_max`.
pub open spec fn accepted_settings(
    users: Map<Seq<char>, UserMetadataView>,
    default_min: u64,
    default_max: u64,
) -> bool {
    forall|user: Seq<char>| #[trigger]
        users.contains_key(user) ==> users[user].fault(default_min, default_max) is None
}

/// The users after the arguments were given to `user_add`.
pub open spec fn users_after_add(
    users: Map<Seq<char>, UserMetadataView>,
    args: Value,
    default_min: u64,
    default_max: u64,
) -> Map<Seq<char>, UserMetadataView> {
    match accepted_user(args, default_min, default_max) {
        Ok((user, settings)) => users.insert(user, settings),
        Err(_) => users,
    }
}

/// The users after the arguments were given to `user_del`.
pub open spec fn users_after_del(users: Map<Seq<char>, UserMetadataView>, args: Value) -> Map<
    Seq<char>,
    UserMetadataView,
> {
    match required_user(args) {
        Ok(user) => users.remove(user),
        Err(_) => users,
    }
}

/// Adds a user, or gives a user other settings.
pub fn user_add(state: &mut PluginState, args: &Value) -> (r: Result<UserChange, RpcError>)
    ensures
        same_but_users(*final(state), *old(state)),
        match accepted_user(*args, old(state).min_sendable_msat, old(state).max_sendable_msat) {
            Err(e) => r matches Err(said) && said@ == e,
            Ok((user, settings)) => {
                &&& r matches Ok(change)
                &&& change.user@ == user
                &&& change.metadata@ == settings
                &&& change.mode == if old(state).users@.contains_key(user) {
                    ChangeMode::Updated
                } else {
                    ChangeMode::Added
                }
            },
        },
        final(state).users@ == users_after_add(
            old(state).users@,
            *args,
            old(state).min_sendable_msat,
            old(state).max_sendable_msat,
        ),
        accepted_settings(
            old(state).users@,
            old(state).min_sendable_msat,
            old(state).max_sendable_msat,
        ) ==> accepted_settings(
            final(state).users@,
            final(state).min_sendable_msat,
            final(state).max_sendable_msat,
        ),
{
    let (user, metadata) = parse_user_add_args(args)?;
    if let Err(fault) = metadata.validate(state.min_sendable_msat, state.max_sendable_msat) {
        return Err(RpcFault::Metadata(fault));
    }
    proof {
        lemma_canonical_iff_no_fault(user@);
    }
    let before = state.users.insert(user.clone(), metadata.clone());
    let mode = if before.is_some() {
        ChangeMode::Updated
    } else {
        ChangeMode::Added
    };
    Ok(UserChange { mode, user, metadata })
}

/// Removes a user.
pub fn user_del(state: &mut PluginState, args: &Value) -> (r: Result<UserChange, RpcError>)
    ensures
        same_but_users(*final(state), *old(state)),
        match required_user(*args) {
            Err(e) => r matches Err(said) && said@ == e,
            Ok(user) => if old(state).users@.contains_key(user) {
                &&& r matches Ok(change)
                &&& change.mode == ChangeMode::Deleted
                &&& change.user@ == user
                &&& change.metadata@ == old(state).users@[user]
            } else {
                r matches Err(RpcFault::NotFound)
            },
        },
        final(state).users@ == users_after_del(old(state).users@, *args),
        accepted_settings(
            old(state).users@,
            old(state).min_sendable_msat,
            old(state).max_sendable_msat,
        ) ==> accepted_settings(
            final(state).users@,
            final(state).min_sendable_msat,
            final(state).max_sendable_msat,
        ),
{
    let user = parse_required_user_selector(args)?;
    match state.users.remove(user.as_str()) {
        Some(metadata) => Ok(UserChange { mode: ChangeMode::Deleted, user, metadata }),
        None => Err(RpcFault::NotFound),
    }
}

/// Lists the user that is selected, or every user where none is.
pub fn user_list(state: &PluginState, args: &Value) -> (r: Result<Vec<UserEntry>, RpcError>)
    ensures
        match selected_user(*args) {
            Err(e) => r matches Err(said) && said@ == e,
            Ok(None) => {
                &&& r matches Ok(entries)
                &&& distinct_users(entries@)
                &&& settings_of(entries@) == state.users@
            },
            Ok(Some(user)) => if state.users@.contains_key(user) {
                &&& r matches Ok(entries)
                &&& entries@.len() == 1
                &&& entries@[0].user@ == user
                &&& entries@[0].metadata@ == state.users@[user]
            } else {
                r matches Err(said) && said@ == RpcFault::NotListed(user)
            },
        },
{
    match parse_optional_user_selector(args)? {
        Some(user) => match state.users.get(user.as_str()) {
            Some(metadata) => {
                let mut entries: Vec<UserEntry> = Vec::new();
                entries.push(UserEntry { user, metadata });
                Ok(entries)
            },
            None => Err(RpcFault::NotListed(user)),
        },
        None => {
            let listed = state.users.entries();
            let mut entries: Vec<UserEntry> = Vec::new();
            let mut i: usize = 0;
            while i < listed.len()
                invariant
                    i <= listed@.len(),
                    entries@ == listed@.take(i as int),
                decreases listed.len() - i,
            {
                entries.push(listed[i].clone());
                assert(listed@.take(i + 1) =~= listed@.take(i as int).push(listed@[i as int]));
                i = i + 1;
            }
            assert(entries@ =~= listed@);
            Ok(entries)
        },
    }
}

/// Users are only added, selected and removed under canonical names.
pub proof fn law_users_have_canonical_names(args: Value)
    ensures
        user_to_add(args) matches Ok((user, _)) ==> canonical_user(user),
        selected_user(args) matches Ok(Some(user)) ==> canonical_user(user),
        required_user(args) matches Ok(user) ==> canonical_user(user),
{
    if let Ok((user, _)) = user_to_add(args) {
        lemma_canonical_iff_no_fault(user);
    }
    if let Ok(Some(user)) = selected_user(args) {
        lemma_canonical_iff_no_fault(user);
    }
}

/// Named arguments of which one is not a field are refused, whatever the others
/// are.
pub proof fn law_unknown_fields_are_refused(members: Vec<(String, Value)>, i: int)
    requires
        0 <= i < members@.len(),
        !names_field(user_add_fields_view(), members@[i].0@),
    ensures
        user_to_add(Value::Object(members)) matches Err(RpcFault::UnknownField(_)),
{
    lemma_unknown_is_found(members@, user_add_fields_view(), i);
}

/// Named arguments that select a user are refused where one is not `user`.
pub proof fn law_unknown_selectors_are_refused(members: Vec<(String, Value)>, i: int)
    requires
        0 <= i < members@.len(),
        members@[i].0@ != Field::User.text(),
    ensures
        selected_user(Value::Object(members)) matches Err(RpcFault::UnknownSelector(_)),
{
    lemma_unknown_is_found(members@, seq![Field::User], i);
}

proof fn lemma_unknown_is_found(members: Seq<(String, Value)>, fields: Seq<Field>, i: int)
    requires
        0 <= i < members.len(),
        !names_field(fields, members[i].0@),
    ensures
        first_unknown(members, fields) is Some,
    decreases members.len(),
{
    if i > 0 && names_field(fields, members[0].0@) {
        lemma_unknown_is_found(members.skip(1), fields, i - 1);
    }
}

/// The fields that positional arguments give, in their order.
pub open spec fn positional_fields() -> Seq<Field> {
    seq![Field::User, Field::IsEmail, Field::Description]
}

/// One of the members is named after `field` and has the value `value`.
pub open spec fn has_member(members: Seq<(String, Value)>, field: Field, value: Value) -> bool {
    exists|j: int|
        0 <= j < members.len() && (#[trigger] members[j]).0@ == field.text() && members[j].1
            == value
}

proof fn lemma_member_is_found(members: Seq<(String, Value)>, name: Seq<char>, j: int)
    requires
        0 <= j < members.len(),
        members[j].0@ == name,
        forall|k: int| 0 <= k < members.len() && (#[trigger] members[k]).0@ == name ==> k == j,
    ensures
        member(members, name) == Some(members[j].1),
    decreases members.len(),
{
    if j > 0 {
        assert(members[0].0@ != name);
        let rest = members.skip(1);
        assert forall|k: int| 0 <= k < rest.len() && (#[trigger] rest[k]).0@ == name implies k == j
            - 1 by {
            assert(members[k + 1].0@ == name);
        }
        lemma_member_is_found(rest, name, j - 1);
    }
}

proof fn lemma_member_is_missing(members: Seq<(String, Value)>, name: Seq<char>)
    requires
        forall|k: int| 0 <= k < members.len() ==> (#[trigger] members[k]).0@ != name,
    ensures
        member(members, name) is None,
    decreases members.len(),
{
    if members.len() > 0 {
        assert(members[0].0@ != name);
        let rest = members.skip(1);
        assert forall|k: int| 0 <= k < rest.len() implies (#[trigger] rest[k]).0@ != name by {
            assert(members[k + 1].0@ != name);
        }
        lemma_member_is_missing(rest, name);
    }
}

proof fn lemma_no_unknown(members: Seq<(String, Value)>, fields: Seq<Field>)
    requires
        forall|k: int|
            0 <= k < members.len() ==> names_field(fields, (#[trigger] members[k]).0@),
    ensures
        first_unknown(members, fields) is None,
    decreases members.len(),
{
    if members.len() > 0 {
        assert(names_field(fields, members[0].0@));
        let rest = members.skip(1);
        assert forall|k: int| 0 <= k < rest.len() implies names_field(
            fields,
            (#[trigger] rest[k]).0@,
        ) by {
            assert(names_field(fields, members[k + 1].0@));
        }
        lemma_no_unknown(rest, fields);
    }
}

/// Positional arguments mean the same as the arguments named `user`, `is_email`
/// and `description`, in whatever order these come.
pub proof fn law_positional_and_named_agree(values: Vec<Value>, members: Vec<(String, Value)>)
    requires
        1 <= values@.len() <= 3,
        members@.len() == values@.len(),
        forall|i: int|
            0 <= i < values@.len() ==> has_member(
                members@,
                positional_fields()[i],
                #[trigger] values@[i],
            ),
    ensures
        user_to_add(Value::Array(values)) == user_to_add(Value::Object(members)),
{
    lemma_field_names_differ();
    let fields = user_add_fields_view();
    let order = positional_fields();
    let m = members@;
    let n = m.len();
    let at = |i: int| choose|j: int|
        0 <= j < m.len() && (#[trigger] m[j]).0@ == order[i].text() && m[j].1 == values@[i];
    assert forall|i: int| 0 <= i < n implies 0 <= #[trigger] at(i) < n && m[at(i)].0@
        == order[i].text() && m[at(i)].1 == values@[i] by {
        assert(has_member(m, order[i], values@[i]));
    }
    assert(order[0] == Field::User && order[1] == Field::IsEmail && order[2]
        == Field::Description);
    assert(fields[0] == order[0] && fields[1] == order[1] && fields[2] == order[2]);
    assert(m[at(0)].0@ == order[0].text());
    if n >= 2 {
        assert(m[at(1)].0@ == order[1].text());
    }
    if n >= 3 {
        assert(m[at(2)].0@ == order[2].text());
    }
    let place = |k: int| choose|i: int| 0 <= i < n && k == #[trigger] at(i);
    assert forall|k: int| 0 <= k < n implies 0 <= #[trigger] place(k) < n && k == at(place(k)) by {
        if n == 1 {
            assert(k == at(0));
        } else if n == 2 {
            assert(k == at(0) || k == at(1));
        } else {
            assert(k == at(0) || k == at(1) || k == at(2));
        }
    }
    assert forall|k: int| 0 <= k < n implies names_field(fields, (#[trigger] m[k]).0@) by {
        let i = place(k);
        assert(fields[i] == order[i]);
        assert(fields[i].text() == m[k].0@);
    }
    lemma_no_unknown(m, fields);
    assert forall|i: int| 0 <= i < n implies #[trigger] member(m, order[i].text()) == Some(
        values@[i],
    ) by {
        assert forall|k: int| 0 <= k < n && (#[trigger] m[k]).0@ == order[i].text() implies k == at(
            i,
        ) by {
            let h = place(k);
            assert(m[at(h)].0@ == order[h].text());
            assert(order[h] == order[i]);
            assert(h == i);
        }
        lemma_member_is_found(m, order[i].text(), at(i));
    }
    assert forall|field: Field|
        (forall|i: int| 0 <= i < n ==> #[trigger] order[i] != field) implies #[trigger] member(
        m,
        field.text(),
    ) is None by {
        assert forall|k: int| 0 <= k < n implies (#[trigger] m[k]).0@ != field.text() by {
            let i = place(k);
            assert(m[at(i)].0@ == order[i].text());
            assert(order[i] != field);
        }
        lemma_member_is_missing(m, field.text());
    }
    assert(member(m, Field::User.text()) == Some(values@[0])) by {
        assert(member(m, order[0].text()) == Some(values@[0]));
    }
    assert(member(m, Field::IsEmail.text()) == at_position(values@, 1)) by {
        if n >= 2 {
            assert(member(m, order[1].text()) == Some(values@[1]));
        }
    }
    assert(member(m, Field::Description.text()) == at_position(values@, 2)) by {
        if n >= 3 {
            assert(member(m, order[2].text()) == Some(values@[2]));
        }
    }
    assert(member(m, Field::MinSendableMsat.text()) is None);
    assert(member(m, Field::MaxSendableMsat.text()) is None);
    assert(member(m, Field::CommentAllowed.text()) is None);
    assert(member(m, Field::NostrEnabled.text()) is None);
}

/// A name alone means the same as one positional argument.
pub proof fn law_name_alone_is_positional(user: String, values: Vec<Value>)
    requires
        values@.len() == 1,
        values@[0] == Value::String(user),
    ensures
        user_to_add(Value::String(user)) == user_to_add(Value::Array(values)),
{
}

proof fn lemma_field_names_differ()
    ensures
        forall|a: Field, b: Field| #[trigger] a.text() == #[trigger] b.text() ==> a == b,
{
    reveal_strlit("user");
    reveal_strlit("is_email");
    reveal_strlit("description");
    reveal_strlit("min_sendable_msat");
    reveal_strlit("max_sendable_msat");
    reveal_strlit("comment_allowed");
    reveal_strlit("nostr_enabled");
    assert forall|a: Field, b: Field| #[trigger] a.text() == #[trigger] b.text() implies a == b by {
        assert(a.text().len() == b.text().len());
        assert(a.text()[0] == b.text()[0]);
        assert(a.text()[1] == b.text()[1]);
    }
}

/// A user that was added is listed with the settings that it was given, and every
/// other user is what it was.
pub proof fn law_added_user_is_there(
    users: Map<Seq<char>, UserMetadataView>,
    args: Value,
    default_min: u64,
    default_max: u64,
)
    requires
        accepted_user(args, default_min, default_max) is Ok,
    ensures
        ({
            let (user, settings) = accepted_user(args, default_min, default_max)->Ok_0;
            let after = users_after_add(users, args, default_min, default_max);
            &&& after.contains_key(user)
            &&& after[user] == settings
            &&& forall|other: Seq<char>|
                other != user ==> (#[trigger] after.contains_key(other) == users.contains_key(other))
                    && (users.contains_key(other) ==> after[other] == users[other])
        }),
{
}

/// A user that was deleted is gone, and every other user is what it was.
pub proof fn law_deleted_user_is_gone(users: Map<Seq<char>, UserMetadataView>, args: Value)
    requires
        required_user(args) is Ok,
    ensures
        ({
            let user = required_user(args)->Ok_0;
            let after = users_after_del(users, args);
            &&& !after.contains_key(user)
            &&& forall|other: Seq<char>|
                other != user ==> (#[trigger] after.contains_key(other) == users.contains_key(other))
                    && (users.contains_key(other) ==> after[other] == users[other])
        }),
{
}

/// Deleting a user that was not there before it was added leaves the users as they
/// were before.
pub proof fn law_delete_undoes_add(
    users: Map<Seq<char>, UserMetadataView>,
    add: Value,
    del: Value,
    default_min: u64,
    default_max: u64,
)
    requires
        accepted_user(add, default_min, default_max) matches Ok((user, _)) && !users.contains_key(
            user,
        ) && required_user(del) == Ok::<Seq<char>, RpcErrorView>(user),
    ensures
        users_after_del(users_after_add(users, add, default_min, default_max), del) == users,
{
    assert(users_after_del(users_after_add(users, add, default_min, default_max), del) =~= users);
}

/// Adding a user twice with the same arguments is adding it once.
pub proof fn law_adding_twice_is_adding_once(
    users: Map<Seq<char>, UserMetadataView>,
    args: Value,
    default_min: u64,
    default_max: u64,
)
    ensures
        ({
            let once = users_after_add(users, args, default_min, default_max);
            users_after_add(once, args, default_min, default_max) == once
        }),
{
    let once = users_after_add(users, args, default_min, default_max);
    assert(users_after_add(once, args, default_min, default_max) =~= once);
}

/// A truth value is read as itself, and so are the two texts that spell one; any
/// other text is said to be neither, and anything else to be of the wrong type.
pub proof fn law_truth_values_are_kept(truth: bool, text: String, value: Value, field: Field)
    ensures
        bool_of(Value::Bool(truth), field) == Ok::<bool, RpcErrorView>(truth),
        text@ == "true"@ ==> bool_of(Value::String(text), field) == bool_of(
            Value::Bool(true),
            field,
        ),
        text@ == "false"@ ==> bool_of(Value::String(text), field) == bool_of(
            Value::Bool(false),
            field,
        ),
        text@ != "true"@ && text@ != "false"@ ==> bool_of(Value::String(text), field) == Err::<
            bool,
            RpcErrorView,
        >(RpcFault::NotBool(field)),
        !(value is Bool) && !(value is String) ==> bool_of(value, field) == Err::<
            bool,
            RpcErrorView,
        >(RpcFault::InvalidType(field)),
{
    reveal_strlit("true");
    reveal_strlit("false");
    assert("true"@.len() != "false"@.len());
}

/// A natural number is read as itself, and so is a text that spells it in decimal;
/// other numbers and texts are said to be no such number, and anything else to be of
/// the wrong type.
pub proof fn law_natural_numbers_are_kept(n: u64, text: String, value: Value, field: Field)
    ensures
        u64_of(Value::Number(Number::PosInt(n)), field) == Ok::<u64, RpcErrorView>(n),
        text@ == decimal(n as nat) ==> u64_of(Value::String(text), field) == Ok::<
            u64,
            RpcErrorView,
        >(n),
        u64_of(Value::String(text), field) is Ok ==> forall|i: int|
            0 <= i < text@.len() ==> '0' <= #[trigger] text@[i] <= '9' || (i == 0 && text@[i]
                == '+'),
        u64_of(Value::String(text), field) is Err ==> u64_of(Value::String(text), field) == Err::<
            u64,
            RpcErrorView,
        >(RpcFault::NotInteger(field)),
        value matches Value::Number(number) && !(number is PosInt) ==> u64_of(value, field) == Err::<
            u64,
            RpcErrorView,
        >(RpcFault::NotInteger(field)),
        !(value is Number) && !(value is String) ==> u64_of(value, field) == Err::<
            u64,
            RpcErrorView,
        >(RpcFault::InvalidType(field)),
{
    law_decimal_is_read_back(n as nat, u64::MAX as nat);
    law_only_digits_are_numbers(text@, u64::MAX as nat);
}

/// A text is read as itself, and a number as it is printed; anything else is said to
/// be of the wrong type.
pub proof fn law_texts_are_kept(text: String, number: Number, value: Value, field: Field)
    ensures
        text_of(Value::String(text), field) == Ok::<Seq<char>, RpcErrorView>(text@),
        text_of(Value::Number(number), field) == Ok::<Seq<char>, RpcErrorView>(number.text()),
        !(value is Number) && !(value is String) ==> text_of(value, field) == Err::<
            Seq<char>,
            RpcErrorView,
        >(RpcFault::InvalidType(field)),
{
}

/// A user that is added with named arguments has exactly the settings that were
/// given, each under its name, and no others.
pub proof fn law_named_settings_are_stored(
    members: Vec<(String, Value)>,
    default_min: u64,
    default_max: u64,
)
    requires
        accepted_user(Value::Object(members), default_min, default_max) is Ok,
    ensures
        ({
            let (user, settings) = accepted_user(
                Value::Object(members),
                default_min,
                default_max,
            )->Ok_0;
            let m = members@;
            &&& member(m, "user"@) is Some
            &&& member(m, "user"@) matches Some(Value::String(text)) ==> user == text@
            &&& member(m, "user"@) matches Some(Value::Number(n)) ==> user == n.text()
            &&& member(m, "is_email"@) is None <==> settings.is_email is None
            &&& member(m, "is_email"@) matches Some(Value::Bool(b)) ==> settings.is_email == Some(b)
            &&& member(m, "is_email"@) matches Some(Value::String(text)) ==> settings.is_email
                == Some(text@ == "true"@)
            &&& member(m, "description"@) is None <==> settings.description is None
            &&& member(m, "description"@) matches Some(Value::String(text)) ==> settings.description
                == Some(text@)
            &&& member(m, "description"@) matches Some(Value::Number(n)) ==> settings.description
                == Some(n.text())
            &&& member(m, "min_sendable_msat"@) is None <==> settings.min_sendable_msat is None
            &&& member(m, "min_sendable_msat"@) matches Some(Value::Number(Number::PosInt(n)))
                ==> settings.min_sendable_msat == Some(n)
            &&& member(m, "min_sendable_msat"@) matches Some(Value::String(text))
                ==> settings.min_sendable_msat is Some && unsigned_value(
                text@,
                0xffff_ffff_ffff_ffff,
            ) == Some(settings.min_sendable_msat->0 as nat)
            &&& member(m, "max_sendable_msat"@) is None <==> settings.max_sendable_msat is None
            &&& member(m, "max_sendable_msat"@) matches Some(Value::Number(Number::PosInt(n)))
                ==> settings.max_sendable_msat == Some(n)
            &&& member(m, "max_sendable_msat"@) matches Some(Value::String(text))
                ==> settings.max_sendable_msat is Some && unsigned_value(
                text@,
                0xffff_ffff_ffff_ffff,
            ) == Some(settings.max_sendable_msat->0 as nat)
            &&& member(m, "comment_allowed"@) is None <==> settings.comment_allowed is None
            &&& member(m, "comment_allowed"@) matches Some(Value::Number(Number::PosInt(n)))
                ==> settings.comment_allowed == Some(n)
            &&& member(m, "comment_allowed"@) matches Some(Value::String(text))
                ==> settings.comment_allowed is Some && unsigned_value(text@, 0xffff_ffff_ffff_ffff)
                == Some(settings.comment_allowed->0 as nat)
            &&& member(m, "nostr_enabled"@) is None <==> settings.nostr_enabled is None
            &&& member(m, "nostr_enabled"@) matches Some(Value::Bool(b)) ==> settings.nostr_enabled
                == Some(b)
            &&& member(m, "nostr_enabled"@) matches Some(Value::String(text))
                ==> settings.nostr_enabled == Some(text@ == "true"@)
        }),
{
    let m = members@;
    reveal_strlit("true");
    reveal_strlit("false");
    assert("true"@.len() != "false"@.len());
    if let Some(Value::String(text)) = member(m, "min_sendable_msat"@) {
        law_only_digits_are_numbers(text@, u64::MAX as nat);
    }
    if let Some(Value::String(text)) = member(m, "max_sendable_msat"@) {
        law_only_digits_are_numbers(text@, u64::MAX as nat);
    }
    if let Some(Value::String(text)) = member(m, "comment_allowed"@) {
        law_only_digits_are_numbers(text@, u64::MAX as nat);
    }
}

/// A setting that is given as a truth value, anywhere among the named arguments, is
/// stored as that truth value.
pub proof fn law_given_truth_values_are_stored(
    members: Vec<(String, Value)>,
    j: int,
    truth: bool,
    default_min: u64,
    default_max: u64,
)
    requires
        0 <= j < members@.len(),
        members@[j].1 == Value::Bool(truth),
        forall|k: int|
            0 <= k < members@.len() && (#[trigger] members@[k]).0@ == members@[j].0@ ==> k == j,
    ensures
        accepted_user(Value::Object(members), default_min, default_max) matches Ok((_, settings))
            ==> (members@[j].0@ == "nostr_enabled"@ ==> settings.nostr_enabled == Some(truth)) && (
        members@[j].0@ == "is_email"@ ==> settings.is_email == Some(truth)),
{
    if accepted_user(Value::Object(members), default_min, default_max) is Ok {
        law_named_settings_are_stored(members, default_min, default_max);
        lemma_member_is_found(members@, members@[j].0@, j);
    }
}

/// Named arguments are accepted where every name is that of a field, the user is a
/// text with a canonical name, every setting is of its type, and the settings are
/// within bounds.
pub proof fn law_well_formed_arguments_are_accepted(
    members: Vec<(String, Value)>,
    default_min: u64,
    default_max: u64,
)
    requires
        ({
            let m = members@;
            &&& forall|i: int|
                0 <= i < m.len() ==> (#[trigger] m[i]).0@ == "user"@ || m[i].0@ == "is_email"@
                    || m[i].0@ == "description"@ || m[i].0@ == "min_sendable_msat"@ || m[i].0@
                    == "max_sendable_msat"@ || m[i].0@ == "comment_allowed"@ || m[i].0@
                    == "nostr_enabled"@
            &&& member(m, "user"@) matches Some(Value::String(text)) && canonical_user(text@)
            &&& member(m, "is_email"@) matches Some(value) ==> value is Bool
            &&& member(m, "description"@) matches Some(value) ==> value matches Value::String(text)
                && text@.len() <= 512
            &&& member(m, "min_sendable_msat"@) matches Some(value) ==> value matches Value::Number(
                Number::PosInt(n),
            ) && n <= default_max
            &&& member(m, "max_sendable_msat"@) is None
            &&& default_min <= default_max
            &&& member(m, "comment_allowed"@) matches Some(value) ==> value matches Value::Number(
                Number::PosInt(n),
            ) && 1 <= n <= 512
            &&& member(m, "nostr_enabled"@) matches Some(value) ==> value is Bool
        }),
    ensures
        accepted_user(Value::Object(members), default_min, default_max) is Ok,
{
    let m = members@;
    let fields = user_add_fields_view();
    assert forall|k: int| 0 <= k < m.len() implies names_field(fields, (#[trigger] m[k]).0@) by {
        assert(fields[0].text() == "user"@ && fields[1].text() == "is_email"@ && fields[2].text()
            == "description"@ && fields[3].text() == "min_sendable_msat"@ && fields[4].text()
            == "max_sendable_msat"@ && fields[5].text() == "comment_allowed"@ && fields[6].text()
            == "nostr_enabled"@);
    }
    lemma_no_unknown(m, fields);
    let user = member(m, "user"@)->0->String_0@;
    lemma_canonical_iff_no_fault(user);
    law_settings_accepted_iff_within_bounds(
        named_settings(m)->Ok_0,
        default_min,
        default_max,
    );
}

/// A limit that is given as a number is accepted exactly if the smallest amount that
/// results is not above the largest.
pub proof fn law_given_limits_are_accepted_unless_crossed(
    members: Vec<(String, Value)>,
    min: u64,
    max: u64,
    default_min: u64,
    default_max: u64,
)
    requires
        members@.len() == 3,
        members@[0].0@ == "user"@ && (members@[0].1 matches Value::String(text) && canonical_user(
            text@,
        )),
        members@[1].0@ == "min_sendable_msat"@ && members@[1].1 == Value::Number(
            Number::PosInt(min),
        ),
        members@[2].0@ == "max_sendable_msat"@ && members@[2].1 == Value::Number(
            Number::PosInt(max),
        ),
    ensures
        min <= max ==> accepted_user(Value::Object(members), default_min, default_max) == Ok::<
            (Seq<char>, UserMetadataView),
            RpcErrorView,
        >(
            (
                members@[0].1->String_0@,
                UserMetadataView {
                    is_email: None,
                    description: None,
                    min_sendable_msat: Some(min),
                    max_sendable_msat: Some(max),
                    comment_allowed: None,
                    nostr_enabled: None,
                },
            ),
        ),
        min > max ==> accepted_user(Value::Object(members), default_min, default_max) == Err::<
            (Seq<char>, UserMetadataView),
            RpcErrorView,
        >(RpcFault::Metadata(MetadataError::CrossedLimits { min, max })),
{
    let m = members@;
    lemma_field_names_differ();
    let fields = user_add_fields_view();
    assert(m[0].0@ == Field::User.text() && m[1].0@ == Field::MinSendableMsat.text() && m[2].0@
        == Field::MaxSendableMsat.text());
    assert forall|k: int| 0 <= k < m.len() implies names_field(fields, (#[trigger] m[k]).0@) by {
        assert(fields[0] == Field::User && fields[3] == Field::MinSendableMsat && fields[4]
            == Field::MaxSendableMsat);
    }
    lemma_no_unknown(m, fields);
    lemma_member_is_found(m, Field::User.text(), 0);
    lemma_member_is_found(m, Field::MinSendableMsat.text(), 1);
    lemma_member_is_found(m, Field::MaxSendableMsat.text(), 2);
    lemma_member_is_missing(m, Field::IsEmail.text());
    lemma_member_is_missing(m, Field::Description.text());
    lemma_member_is_missing(m, Field::CommentAllowed.text());
    lemma_member_is_missing(m, Field::NostrEnabled.text());
    lemma_canonical_iff_no_fault(m[0].1->String_0@);
}

/// A canonical name alone adds that user without settings, whatever the limits of
/// the server are, as long as they are not crossed; a number alone means the same as
/// the text that it prints as.
pub proof fn law_names_alone_are_added(
    user: String,
    number: Number,
    printed: String,
    default_min: u64,
    default_max: u64,
)
    requires
        default_min <= default_max,
        printed@ == number.text(),
    ensures
        canonical_user(user@) ==> accepted_user(Value::String(user), default_min, default_max)
            == Ok::<(Seq<char>, UserMetadataView), RpcErrorView>(
            (user@, UserMetadataView::unset()),
        ),
        !canonical_user(user@) ==> accepted_user(Value::String(user), default_min, default_max)
            matches Err(RpcFault::User(_)),
        user_to_add(Value::Number(number)) == user_to_add(Value::String(printed)),
        selected_user(Value::Number(number)) == selected_user(Value::String(printed)),
{
    lemma_canonical_iff_no_fault(user@);
}

/// Arguments that hold no user are refused as such: neither `null` nor a truth
/// value, no empty list and no list of more than three.
pub proof fn law_arguments_without_a_user_are_refused(truth: bool, values: Vec<Value>)
    ensures
        user_to_add(Value::Null) == Err::<(Seq<char>, UserMetadataView), RpcErrorView>(
            RpcFault::InvalidInput,
        ),
        user_to_add(Value::Bool(truth)) == Err::<(Seq<char>, UserMetadataView), RpcErrorView>(
            RpcFault::InvalidInput,
        ),
        values@.len() == 0 ==> user_to_add(Value::Array(values)) == Err::<
            (Seq<char>, UserMetadataView),
            RpcErrorView,
        >(RpcFault::EmptyArray),
        values@.len() > 3 ==> user_to_add(Value::Array(values)) == Err::<
            (Seq<char>, UserMetadataView),
            RpcErrorView,
        >(RpcFault::ManyPositional),
        selected_user(Value::Bool(truth)) == Err::<Option<Seq<char>>, RpcErrorView>(
            RpcFault::InvalidInput,
        ),
        values@.len() > 1 ==> selected_user(Value::Array(values)) == Err::<
            Option<Seq<char>>,
            RpcErrorView,
        >(RpcFault::ManySelectors),
{
}

/// A canonical name selects that user, alone, as the only one of a list, or under
/// the name `user`; nothing at all selects none.
pub proof fn law_selected_users(user: String, values: Vec<Value>, members: Vec<(String, Value)>)
    requires
        canonical_user(user@),
    ensures
        selected_user(Value::String(user)) == Ok::<Option<Seq<char>>, RpcErrorView>(Some(user@)),
        required_user(Value::String(user)) == Ok::<Seq<char>, RpcErrorView>(user@),
        values@.len() == 1 && values@[0] == Value::String(user) ==> selected_user(
            Value::Array(values),
        ) == Ok::<Option<Seq<char>>, RpcErrorView>(Some(user@)),
        members@.len() == 1 && members@[0].0@ == "user"@ && members@[0].1 == Value::String(user)
            ==> selected_user(Value::Object(members)) == Ok::<Option<Seq<char>>, RpcErrorView>(
            Some(user@),
        ),
        selected_user(Value::Null) == Ok::<Option<Seq<char>>, RpcErrorView>(None),
        values@.len() == 0 ==> selected_user(Value::Array(values)) == Ok::<
            Option<Seq<char>>,
            RpcErrorView,
        >(None),
        members@.len() == 0 ==> selected_user(Value::Object(members)) == Ok::<
            Option<Seq<char>>,
            RpcErrorView,
        >(None),
        required_user(Value::Null) == Err::<Seq<char>, RpcErrorView>(RpcFault::UserRequired),
{
    lemma_canonical_iff_no_fault(user@);
    if members@.len() == 1 && members@[0].0@ == "user"@ {
        assert(seq![Field::User][0].text() == "user"@);
        assert(names_field(seq![Field::User], members@[0].0@));
        lemma_no_unknown(members@, seq![Field::User]);
        lemma_member_is_found(members@, Field::User.text(), 0);
    }
}

/// Settings are accepted for all users exactly if they are for each.
pub proof fn law_accepted_settings_are_those_of_each_user(
    users: Map<Seq<char>, UserMetadataView>,
    user: Seq<char>,
    default_min: u64,
    default_max: u64,
)
    requires
        accepted_settings(users, default_min, default_max),
        users.contains_key(user),
    ensures
        users[user].min_sendable(default_min) <= users[user].max_sendable(default_max),
        users[user].description matches Some(text) ==> text.len() <= 512,
        users[user].comment_allowed matches Some(allowed) ==> 1 <= allowed <= 512,
{
    law_settings_accepted_iff_within_bounds(users[user], default_min, default_max);
}

/// What an error says holds what it is about.
pub proof fn law_errors_of_commands_are_said(name: Seq<char>, field: Field)
    ensures
        RpcFault::UnknownField(name).text() == "unknown clnaddress-adduser field `"@ + name + "`"@,
        RpcFault::UnknownSelector(name).text() == "unknown field `"@ + name + "`"@,
        RpcFault::NotListed(name).text() == "User `"@ + name + "` not found!"@,
        RpcFault::<Seq<char>>::InvalidType(field).text() == "`"@ + field.text()
            + "` has invalid type"@,
        RpcFault::<Seq<char>>::NotBool(field).text() == "`"@ + field.text()
            + "` must be true or false"@,
        RpcFault::<Seq<char>>::NotInteger(field).text() == "`"@ + field.text()
            + "` must be a non-negative integer"@,
        Field::User.text() == "user"@,
        Field::IsEmail.text() == "is_email"@,
        Field::Description.text() == "description"@,
        Field::MinSendableMsat.text() == "min_sendable_msat"@,
        Field::MaxSendableMsat.text() == "max_sendable_msat"@,
        Field::CommentAllowed.text() == "comment_allowed"@,
        Field::NostrEnabled.text() == "nostr_enabled"@,
{
}

/// Nothing of a result is lost in its view.
pub proof fn law_command_views_keep_everything(
    text: String,
    metadata: UserMetadata,
    truth: bool,
    error: RpcError,
    field: Field,
    fault: UserError,
    settings_fault: MetadataError,
)
    ensures
        read_view(Ok(truth)) == Ok::<bool, RpcErrorView>(truth),
        read_view(Err::<bool, RpcError>(error)) == Err::<bool, RpcErrorView>(error@),
        text_read_view(Ok(text)) == Ok::<Seq<char>, RpcErrorView>(text@),
        text_read_view(Err(error)) == Err::<Seq<char>, RpcErrorView>(error@),
        optional_text_read_view(Ok(Some(text))) == Ok::<Option<Seq<char>>, RpcErrorView>(
            Some(text@),
        ),
        optional_text_read_view(Ok(None)) == Ok::<Option<Seq<char>>, RpcErrorView>(None),
        optional_text_read_view(Err(error)) == Err::<Option<Seq<char>>, RpcErrorView>(error@),
        user_read_view(Ok((text, metadata))) == Ok::<(Seq<char>, UserMetadataView), RpcErrorView>(
            (text@, metadata@),
        ),
        user_read_view(Err(error)) == Err::<(Seq<char>, UserMetadataView), RpcErrorView>(error@),
        RpcFault::UnknownField(text)@ == RpcFault::UnknownField(text@),
        RpcFault::UnknownSelector(text)@ == RpcFault::UnknownSelector(text@),
        RpcFault::NotListed(text)@ == RpcFault::NotListed(text@),
        RpcFault::<String>::InvalidType(field)@ == RpcFault::<Seq<char>>::InvalidType(field),
        RpcFault::<String>::NotBool(field)@ == RpcFault::<Seq<char>>::NotBool(field),
        RpcFault::<String>::NotInteger(field)@ == RpcFault::<Seq<char>>::NotInteger(field),
        RpcFault::<String>::User(fault)@ == RpcFault::<Seq<char>>::User(fault),
        RpcFault::<String>::Metadata(settings_fault)@ == RpcFault::<Seq<char>>::Metadata(
            settings_fault,
        ),
        error is InvalidInput <==> error@ is InvalidInput,
        error is EmptyArray <==> error@ is EmptyArray,
        error is ManyPositional <==> error@ is ManyPositional,
        error is UnknownField <==> error@ is UnknownField,
        error is MissingUser <==> error@ is MissingUser,
        error is InvalidType <==> error@ is InvalidType,
        error is NotBool <==> error@ is NotBool,
        error is NotInteger <==> error@ is NotInteger,
        error is User <==> error@ is User,
        error is Metadata <==> error@ is Metadata,
        error is UnknownSelector <==> error@ is UnknownSelector,
        error is ManySelectors <==> error@ is ManySelectors,
        error is UserRequired <==> error@ is UserRequired,
        error is NotFound <==> error@ is NotFound,
        error is NotListed <==> error@ is NotListed,
{
}

/// The first thing that is wrong with named arguments is said: an unknown name, then
/// a missing user, then each field in turn.
pub proof fn law_first_fault_of_named_arguments(members: Vec<(String, Value)>)
    requires
        forall|i: int|
            0 <= i < members@.len() ==> names_field(
                user_add_fields_view(),
                (#[trigger] members@[i]).0@,
            ),
    ensures
        member(members@, "user"@) is None ==> user_to_add(Value::Object(members)) == Err::<
            (Seq<char>, UserMetadataView),
            RpcErrorView,
        >(RpcFault::MissingUser),
        member(members@, "user"@) matches Some(value) && !(value is String) && !(value is Number)
            ==> user_to_add(Value::Object(members)) == Err::<
            (Seq<char>, UserMetadataView),
            RpcErrorView,
        >(RpcFault::InvalidType(Field::User)),
{
    lemma_no_unknown(members@, user_add_fields_view());
}

/// Named arguments are read where every name is that of a field, there is a user with
/// a canonical name, and every setting can be read on its own: no setting stands in
/// the way of another.
pub proof fn law_settings_are_read_on_their_own(members: Vec<(String, Value)>)
    requires
        ({
            let m = members@;
            &&& forall|i: int|
                0 <= i < m.len() ==> names_field(user_add_fields_view(), (#[trigger] m[i]).0@)
            &&& member(m, "user"@) matches Some(value) && (text_of(value, Field::User) matches Ok(
                user,
            ) && canonical_user(user))
            &&& member(m, "is_email"@) matches Some(value) ==> bool_of(value, Field::IsEmail) is Ok
            &&& member(m, "description"@) matches Some(value) ==> text_of(value, Field::Description)
                is Ok
            &&& member(m, "min_sendable_msat"@) matches Some(value) ==> u64_of(
                value,
                Field::MinSendableMsat,
            ) is Ok
            &&& member(m, "max_sendable_msat"@) matches Some(value) ==> u64_of(
                value,
                Field::MaxSendableMsat,
            ) is Ok
            &&& member(m, "comment_allowed"@) matches Some(value) ==> u64_of(
                value,
                Field::CommentAllowed,
            ) is Ok
            &&& member(m, "nostr_enabled"@) matches Some(value) ==> bool_of(
                value,
                Field::NostrEnabled,
            ) is Ok
        }),
    ensures
        user_to_add(Value::Object(members)) is Ok,
{
    lemma_no_unknown(members@, user_add_fields_view());
    lemma_canonical_iff_no_fault(text_of(member(members@, "user"@)->0, Field::User)->Ok_0);
}

/// A user that was read is accepted, with the settings as they were read, exactly if
/// these are within bounds.
pub proof fn law_read_users_are_accepted_within_bounds(
    args: Value,
    default_min: u64,
    default_max: u64,
)
    ensures
        user_to_add(args) matches Ok((user, settings)) ==> {
            let within = {
                &&& settings.description matches Some(text) ==> text.len() <= 512
                &&& settings.comment_allowed matches Some(allowed) ==> 1 <= allowed <= 512
                &&& (match settings.min_sendable_msat {
                    Some(min) => min,
                    None => default_min,
                }) <= (match settings.max_sendable_msat {
                    Some(max) => max,
                    None => default_max,
                })
            };
            &&& within ==> accepted_user(args, default_min, default_max) == user_to_add(args)
            &&& !within ==> (accepted_user(args, default_min, default_max) matches Err(
                RpcFault::Metadata(_),
            ))
        },
        user_to_add(args) is Err ==> accepted_user(args, default_min, default_max) == user_to_add(
            args,
        ),
{
    if let Ok((_, settings)) = user_to_add(args) {
        law_settings_accepted_iff_within_bounds(settings, default_min, default_max);
    }
}

} // verus!
