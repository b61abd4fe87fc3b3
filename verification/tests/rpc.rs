use clnaddress::base_url::BaseUrl;
use clnaddress::rpc::{
    parse_optional_user_selector, parse_required_user_selector, parse_user_add_args, user_add,
    user_del, user_list, value_to_bool, value_to_string, value_to_u64, ChangeMode, Field, RpcError,
    RpcFault,
};
use clnaddress::state::PluginState;
use clnaddress::users::{UserEntry, Users};
use clnaddress::value::{get_member, Number, Value};

fn text(value: &str) -> Value {
    Value::String(value.to_string())
}

fn number(value: u64) -> Value {
    Value::Number(Number::PosInt(value))
}

fn array(values: Vec<Value>) -> Value {
    Value::Array(values)
}

fn object(members: Vec<(&str, Value)>) -> Value {
    Value::Object(members.into_iter().map(|(name, value)| (name.to_string(), value)).collect())
}

fn state() -> PluginState {
    PluginState {
        rpc_path: "/run/lightning-rpc".to_string(),
        max_sendable_msat: 100_000_000,
        min_sendable_msat: 1_000,
        default_description: "Thank you".to_string(),
        users: Users::new(),
        plugin_dir: "/var/clnaddress".to_string(),
        base_url: BaseUrl::parse("https://goats.example".to_string()).unwrap(),
        nostr_zapper_keys: None,
        payindex: 0,
        listen_address: "127.0.0.1:9797".to_string(),
    }
}

fn said<T>(result: Result<T, RpcError>) -> String {
    match result {
        Ok(_) => panic!("accepted"),
        Err(error) => error.message(),
    }
}

fn names(entries: &[UserEntry]) -> Vec<String> {
    let mut names: Vec<String> = entries.iter().map(|entry| entry.user.clone()).collect();
    names.sort();
    names
}

#[test]
fn legacy_positional_user_add_remains_compatible() {
    let (user, metadata) = parse_user_add_args(&array(vec![
        text("herd"),
        Value::Bool(true),
        text("Lightning Goats"),
    ]))
    .unwrap();
    assert_eq!(user, "herd");
    assert_eq!(metadata.is_email, Some(true));
    assert_eq!(metadata.description.as_deref(), Some("Lightning Goats"));
    assert_eq!(metadata.comment_allowed, None);
}

#[test]
fn named_user_add_parses_rich_settings() {
    let (user, metadata) = parse_user_add_args(&object(vec![
        ("user", text("herd")),
        ("description", text("Feed the Lightning Goats")),
        ("min_sendable_msat", number(1000)),
        ("max_sendable_msat", number(10_000_000)),
        ("comment_allowed", number(250)),
        ("nostr_enabled", Value::Bool(true)),
    ]))
    .unwrap();
    assert_eq!(user, "herd");
    assert_eq!(metadata.min_sendable_msat, Some(1000));
    assert_eq!(metadata.max_sendable_msat, Some(10_000_000));
    assert_eq!(metadata.comment_allowed, Some(250));
    assert_eq!(metadata.nostr_enabled, Some(true));
}

#[test]
fn named_user_add_rejects_unknown_fields_and_noncanonical_users() {
    assert!(parse_user_add_args(&object(vec![
        ("user", text("herd")),
        ("comment_allowd", number(250)),
    ]))
    .is_err());
    assert!(parse_user_add_args(&object(vec![("user", text("Herd"))])).is_err());
}

#[test]
fn positional_extensions_are_rejected_in_favor_of_named_args() {
    assert!(parse_user_add_args(&array(vec![
        text("herd"),
        Value::Bool(true),
        text("desc"),
        number(1000),
    ]))
    .is_err());
}

#[test]
fn a_name_alone_is_a_user_without_settings() {
    for args in [
        text("herd"),
        array(vec![text("herd")]),
        object(vec![("user", text("herd"))]),
    ] {
        let (user, metadata) = parse_user_add_args(&args).unwrap();
        assert_eq!(user, "herd");
        assert_eq!(metadata.is_email, None);
        assert_eq!(metadata.description, None);
        assert_eq!(metadata.min_sendable_msat, None);
        assert_eq!(metadata.max_sendable_msat, None);
        assert_eq!(metadata.comment_allowed, None);
        assert_eq!(metadata.nostr_enabled, None);
    }
}

#[test]
fn numbers_name_users() {
    assert_eq!(parse_user_add_args(&number(123)).unwrap().0, "123");
    assert_eq!(parse_user_add_args(&number(u64::MAX)).unwrap().0, "18446744073709551615");
    let negative = Value::Number(Number::NegInt(-5));
    assert_eq!(
        said(parse_user_add_args(&negative)),
        "user must start and end with an ASCII letter or digit"
    );
    let float = Value::Number(Number::Float("1.5".to_string()));
    assert_eq!(parse_user_add_args(&float).unwrap().0, "1.5");
}

#[test]
fn numbers_are_printed_in_decimal() {
    assert_eq!(Number::PosInt(0).print(), "0");
    assert_eq!(Number::PosInt(10).print(), "10");
    assert_eq!(Number::NegInt(-1).print(), "-1");
    assert_eq!(Number::NegInt(i64::MIN).print(), "-9223372036854775808");
    assert_eq!(Number::Float("0.25".to_string()).print(), "0.25");
    assert_eq!(Number::PosInt(7).as_u64(), Some(7));
    assert_eq!(Number::NegInt(-7).as_u64(), None);
}

#[test]
fn truth_values_may_be_texts() {
    assert!(value_to_bool(&Value::Bool(true), Field::IsEmail).unwrap());
    assert!(value_to_bool(&text("true"), Field::IsEmail).unwrap());
    assert!(!value_to_bool(&text("false"), Field::IsEmail).unwrap());
    assert_eq!(said(value_to_bool(&text("True"), Field::IsEmail)), "`is_email` must be true or false");
    assert_eq!(said(value_to_bool(&number(1), Field::NostrEnabled)), "`nostr_enabled` has invalid type");
}

#[test]
fn amounts_may_be_texts() {
    assert_eq!(value_to_u64(&number(5), Field::MinSendableMsat).unwrap(), 5);
    assert_eq!(value_to_u64(&text("1000"), Field::MinSendableMsat).unwrap(), 1000);
    assert_eq!(value_to_u64(&text("+7"), Field::MinSendableMsat).unwrap(), 7);
    assert_eq!(
        value_to_u64(&text("18446744073709551615"), Field::MaxSendableMsat).unwrap(),
        u64::MAX
    );
    for refused in ["", "+", "-1", "1.0", "18446744073709551616", " 1"] {
        assert_eq!(
            said(value_to_u64(&text(refused), Field::MaxSendableMsat)),
            "`max_sendable_msat` must be a non-negative integer"
        );
    }
    assert_eq!(
        said(value_to_u64(&Value::Number(Number::NegInt(-1)), Field::CommentAllowed)),
        "`comment_allowed` must be a non-negative integer"
    );
    assert_eq!(
        said(value_to_u64(&Value::Bool(true), Field::CommentAllowed)),
        "`comment_allowed` has invalid type"
    );
}

#[test]
fn descriptions_may_be_numbers() {
    assert_eq!(value_to_string(&number(42), Field::Description).unwrap(), "42");
    assert_eq!(
        said(value_to_string(&Value::Null, Field::Description)),
        "`description` has invalid type"
    );
}

#[test]
fn refused_arguments_say_why() {
    assert_eq!(said(parse_user_add_args(&Value::Null)), "Not a valid input type");
    assert_eq!(said(parse_user_add_args(&Value::Bool(true))), "Not a valid input type");
    assert_eq!(said(parse_user_add_args(&array(vec![]))), "Empty array input");
    assert_eq!(
        said(parse_user_add_args(&array(vec![text("a"), text("b"), text("c"), text("d")]))),
        "positional clnaddress-adduser supports only `user [is_email] [description]`; use named parameters for per-address limits, comments, or Nostr settings"
    );
    assert_eq!(
        said(parse_user_add_args(&object(vec![("users", text("herd"))]))),
        "unknown clnaddress-adduser field `users`"
    );
    assert_eq!(
        said(parse_user_add_args(&object(vec![("is_email", Value::Bool(true))]))),
        "`user` field not found in object"
    );
    assert_eq!(
        said(parse_user_add_args(&object(vec![("user", Value::Null)]))),
        "`user` has invalid type"
    );
    assert_eq!(
        said(parse_user_add_args(&array(vec![text("herd"), text("yes")]))),
        "`is_email` must be true or false"
    );
    assert_eq!(said(parse_user_add_args(&text("Herd"))), "user must be lowercase canonical form");
}

#[test]
fn the_first_unknown_field_is_named() {
    let args = object(vec![("user", text("herd")), ("b", Value::Null), ("a", Value::Null)]);
    assert_eq!(said(parse_user_add_args(&args)), "unknown clnaddress-adduser field `b`");
}

#[test]
fn selectors_are_read_from_any_form() {
    assert_eq!(parse_optional_user_selector(&Value::Null).unwrap(), None);
    assert_eq!(parse_optional_user_selector(&array(vec![])).unwrap(), None);
    assert_eq!(parse_optional_user_selector(&object(vec![])).unwrap(), None);
    for args in [
        text("herd"),
        array(vec![text("herd")]),
        object(vec![("user", text("herd"))]),
    ] {
        assert_eq!(parse_optional_user_selector(&args).unwrap().as_deref(), Some("herd"));
        assert_eq!(parse_required_user_selector(&args).unwrap(), "herd");
    }
    assert_eq!(parse_optional_user_selector(&number(7)).unwrap().as_deref(), Some("7"));
}

#[test]
fn refused_selectors_say_why() {
    assert_eq!(said(parse_optional_user_selector(&Value::Bool(true))), "Not a valid input type");
    assert_eq!(
        said(parse_optional_user_selector(&array(vec![text("a"), text("b")]))),
        "expected zero or one user argument"
    );
    assert_eq!(
        said(parse_optional_user_selector(&object(vec![("name", text("a"))]))),
        "unknown field `name`"
    );
    assert_eq!(
        said(parse_optional_user_selector(&array(vec![Value::Null]))),
        "`user` has invalid type"
    );
    assert_eq!(
        said(parse_optional_user_selector(&text("a..b"))),
        "user must not contain consecutive dots"
    );
    assert_eq!(said(parse_required_user_selector(&Value::Null)), "user is required");
}

#[test]
fn users_are_added_updated_listed_and_deleted() {
    let mut state = state();
    let added = user_add(&mut state, &array(vec![text("herd"), Value::Bool(false), text("Goats")])).unwrap();
    assert_eq!(added.mode, ChangeMode::Added);
    assert_eq!(added.mode.name(), "added");
    assert_eq!(added.user, "herd");
    assert_eq!(added.metadata.description.as_deref(), Some("Goats"));

    user_add(&mut state, &text("donate")).unwrap();
    assert_eq!(names(&user_list(&state, &Value::Null).unwrap()), vec!["donate", "herd"]);

    let updated = user_add(
        &mut state,
        &object(vec![("user", text("herd")), ("comment_allowed", number(10))]),
    )
    .unwrap();
    assert_eq!(updated.mode, ChangeMode::Updated);
    assert_eq!(updated.mode.name(), "updated");

    let listed = user_list(&state, &text("herd")).unwrap();
    assert_eq!(listed.len(), 1);
    assert_eq!(listed[0].user, "herd");
    assert_eq!(listed[0].metadata.description, None);
    assert_eq!(listed[0].metadata.comment_allowed, Some(10));

    let deleted = user_del(&mut state, &text("herd")).unwrap();
    assert_eq!(deleted.mode, ChangeMode::Deleted);
    assert_eq!(deleted.mode.name(), "deleted");
    assert_eq!(deleted.metadata.comment_allowed, Some(10));
    assert_eq!(names(&user_list(&state, &array(vec![])).unwrap()), vec!["donate"]);
}

#[test]
fn refused_commands_change_nothing() {
    let mut state = state();
    user_add(&mut state, &text("herd")).unwrap();
    assert_eq!(
        said(user_add(
            &mut state,
            &object(vec![("user", text("herd")), ("min_sendable_msat", number(100_000_001))]),
        )),
        "effective min_sendable_msat (100000001) exceeds max_sendable_msat (100000000)"
    );
    assert_eq!(
        said(user_add(
            &mut state,
            &object(vec![("user", text("herd")), ("comment_allowed", number(0))]),
        )),
        "comment_allowed must be between 1 and 512 characters"
    );
    assert_eq!(
        said(user_add(
            &mut state,
            &array(vec![text("herd"), Value::Bool(true), text(&"x".repeat(513))]),
        )),
        "description exceeds maximum length of 512 characters"
    );
    assert_eq!(said(user_del(&mut state, &text("goat"))), "User not found");
    assert_eq!(said(user_list(&state, &text("goat"))), "User `goat` not found!");
    let listed = user_list(&state, &Value::Null).unwrap();
    assert_eq!(listed.len(), 1);
    assert_eq!(listed[0].metadata.min_sendable_msat, None);
}

#[test]
fn deleting_what_was_added_restores_the_users() {
    let mut state = state();
    user_add(&mut state, &text("herd")).unwrap();
    user_add(&mut state, &text("goat")).unwrap();
    user_del(&mut state, &text("goat")).unwrap();
    assert_eq!(names(&user_list(&state, &Value::Null).unwrap()), vec!["herd"]);
}

#[test]
fn members_are_found_by_name() {
    let members = vec![("a".to_string(), Value::Bool(true)), ("b".to_string(), Value::Null)];
    assert!(matches!(get_member(&members, "b"), Some(Value::Null)));
    assert!(get_member(&members, "c").is_none());
}

#[test]
fn errors_of_commands_are_told_apart() {
    assert!(matches!(parse_user_add_args(&Value::Null), Err(RpcFault::InvalidInput)));
    assert!(matches!(
        parse_user_add_args(&object(vec![("x", Value::Null)])),
        Err(RpcFault::UnknownField(_))
    ));
}

#[test]
fn positional_and_named_arguments_agree() {
    let positional =
        parse_user_add_args(&array(vec![text("herd"), text("false"), number(42)])).unwrap();
    let named = parse_user_add_args(&object(vec![
        ("user", text("herd")),
        ("is_email", text("false")),
        ("description", number(42)),
    ]))
    .unwrap();
    let reordered = parse_user_add_args(&object(vec![
        ("description", number(42)),
        ("is_email", text("false")),
        ("user", text("herd")),
    ]))
    .unwrap();
    for (user, metadata) in [positional, named, reordered] {
        assert_eq!(user, "herd");
        assert_eq!(metadata.is_email, Some(false));
        assert_eq!(metadata.description.as_deref(), Some("42"));
        assert_eq!(metadata.min_sendable_msat, None);
        assert_eq!(metadata.max_sendable_msat, None);
        assert_eq!(metadata.comment_allowed, None);
        assert_eq!(metadata.nostr_enabled, None);
    }
}
