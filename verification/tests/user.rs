use clnaddress::user::{
    validate_user, MetadataError, UserError, UserMetadata, MAX_COMMENT_ALLOWED,
    MAX_DESCRIPTION_LENGTH, MAX_USER_LENGTH,
};

#[test]
fn accepts_canonical_lightning_address_users() {
    for user in ["herd", "sat", "goat-1", "goat_2", "goat.3", "123"] {
        validate_user(user).unwrap();
    }
}

#[test]
fn rejects_ambiguous_or_unsafe_users() {
    for user in [
        "",
        "Herd",
        "-herd",
        "herd-",
        ".herd",
        "herd.",
        "herd..goats",
        "herd:goats",
        "herd/goats",
        "hérd",
    ] {
        assert!(validate_user(user).is_err(), "accepted invalid user {user:?}");
    }
}

#[test]
fn validates_effective_limits_and_comment_bounds() {
    let metadata = UserMetadata {
        min_sendable_msat: Some(2_000),
        max_sendable_msat: Some(1_000),
        ..UserMetadata::default()
    };
    assert!(metadata.validate(1, 10_000).is_err());

    let metadata = UserMetadata {
        comment_allowed: Some(MAX_COMMENT_ALLOWED + 1),
        ..UserMetadata::default()
    };
    assert!(metadata.validate(1, 10_000).is_err());
}

#[test]
fn the_first_broken_rule_of_a_name_is_said() {
    let long = "a".repeat(MAX_USER_LENGTH + 1);
    for (user, fault, text) in [
        ("", UserError::Length, "user must contain between 1 and 64 ASCII characters"),
        (long.as_str(), UserError::Length, "user must contain between 1 and 64 ASCII characters"),
        ("h\u{e9}rd", UserError::NotAscii, "user must contain ASCII characters only"),
        ("Herd!", UserError::NotLowercase, "user must be lowercase canonical form"),
        ("herd!", UserError::Unsupported, "user contains unsupported characters"),
        ("-herd", UserError::Edge, "user must start and end with an ASCII letter or digit"),
        ("he..rd", UserError::ConsecutiveDots, "user must not contain consecutive dots"),
    ] {
        assert_eq!(validate_user(user), Err(fault));
        assert_eq!(fault.message(), text);
    }
    assert_eq!(validate_user(&"a".repeat(MAX_USER_LENGTH)), Ok(()));
    assert_eq!(validate_user(&"\u{e9}".repeat(33)), Err(UserError::Length));
}

#[test]
fn settings_within_bounds_are_accepted() {
    let metadata = UserMetadata {
        description: Some("\u{1f410}".repeat(MAX_DESCRIPTION_LENGTH)),
        comment_allowed: Some(MAX_COMMENT_ALLOWED),
        min_sendable_msat: Some(5),
        ..UserMetadata::default()
    };
    assert_eq!(metadata.validate(1, 5), Ok(()));
    assert_eq!(metadata.validate(1, 4), Err(MetadataError::CrossedLimits { min: 5, max: 4 }));
}

#[test]
fn settings_out_of_bounds_are_refused() {
    let long = UserMetadata {
        description: Some("x".repeat(MAX_DESCRIPTION_LENGTH + 1)),
        ..UserMetadata::default()
    };
    assert_eq!(long.validate(1, 2), Err(MetadataError::DescriptionTooLong));
    let none = UserMetadata { comment_allowed: Some(0), ..UserMetadata::default() };
    assert_eq!(none.validate(1, 2), Err(MetadataError::CommentAllowed));
    assert_eq!(
        MetadataError::DescriptionTooLong.message(),
        "description exceeds maximum length of 512 characters"
    );
    assert_eq!(
        MetadataError::CommentAllowed.message(),
        "comment_allowed must be between 1 and 512 characters"
    );
    assert_eq!(
        MetadataError::CrossedLimits { min: 10, max: 2 }.message(),
        "effective min_sendable_msat (10) exceeds max_sendable_msat (2)"
    );
}
