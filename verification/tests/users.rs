use clnaddress::user::{UserError, UserMetadata};
use clnaddress::users::{UserEntry, Users};

fn entry(user: &str, comment_allowed: u64) -> UserEntry {
    UserEntry {
        user: user.to_string(),
        metadata: UserMetadata {
            comment_allowed: Some(comment_allowed),
            ..UserMetadata::default()
        },
    }
}

#[test]
fn stored_users_are_loaded() {
    let users = Users::load(vec![entry("herd", 1), entry("goat", 2), entry("herd", 3)]).ok().unwrap();
    assert_eq!(users.entries().len(), 2);
    assert_eq!(users.get("herd").unwrap().comment_allowed, Some(3));
    assert_eq!(users.get("goat").unwrap().comment_allowed, Some(2));
    assert!(users.get("donate").is_none());
}

#[test]
fn stored_users_with_invalid_names_are_refused() {
    let refused = Users::load(vec![entry("herd", 1), entry("Goat", 2), entry("", 3)]);
    assert_eq!(refused.err(), Some(UserError::NotLowercase));
}

#[test]
fn what_is_stored_is_restored() {
    let mut users = Users::new();
    users.insert("herd".to_string(), entry("herd", 1).metadata);
    users.insert("goat".to_string(), entry("goat", 2).metadata);
    let restored = Users::load(users.entries().to_vec()).ok().unwrap();
    assert_eq!(restored.entries().len(), 2);
    assert_eq!(restored.get("herd").unwrap().comment_allowed, Some(1));
    assert_eq!(restored.get("goat").unwrap().comment_allowed, Some(2));
}

#[test]
fn inserting_returns_what_was_there() {
    let mut users = Users::new();
    assert!(users.insert("herd".to_string(), entry("herd", 1).metadata).is_none());
    let before = users.insert("herd".to_string(), entry("herd", 2).metadata).unwrap();
    assert_eq!(before.comment_allowed, Some(1));
    assert_eq!(users.remove("herd").unwrap().comment_allowed, Some(2));
    assert!(users.remove("herd").is_none());
    assert!(users.entries().is_empty());
}
