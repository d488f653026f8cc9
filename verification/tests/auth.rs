use ftp_server::auth::{AuthenticationError, TomlAuthenticator, UserEntry};

fn entry(username: &str, password: &str) -> UserEntry {
    UserEntry { username: username.to_string(), password: password.to_string() }
}

fn alice_only() -> TomlAuthenticator {
    TomlAuthenticator::from_users(vec![entry("alice", "password123")])
}

#[test]
fn from_users_loads_configured_users() {
    let auth = TomlAuthenticator::from_users(vec![
        entry("alice", "password123"),
        entry("bob", "secret456"),
    ]);
    assert_eq!(auth.usernames().len(), 2);
    assert_eq!(auth.password_of("alice").as_deref(), Some("password123"));
    assert_eq!(auth.password_of("carol"), None);
}

#[test]
fn a_later_entry_for_the_same_user_wins() {
    let auth = TomlAuthenticator::from_users(vec![entry("alice", "old"), entry("alice", "new")]);
    assert_eq!(auth.usernames(), vec!["alice".to_string()]);
    assert!(auth.authenticate("alice", Some("old")).is_err());
    assert_eq!(auth.authenticate("alice", Some("new")).unwrap().username, "alice");
}

#[test]
fn authenticate_succeeds_with_correct_password() {
    let principal = alice_only().authenticate("alice", Some("password123")).unwrap();
    assert_eq!(principal.username, "alice");
}

#[test]
fn authenticate_fails_with_wrong_password() {
    let result = alice_only().authenticate("alice", Some("wrong"));
    assert!(matches!(result, Err(AuthenticationError::BadPassword)));
}

#[test]
fn authenticate_fails_with_unknown_user() {
    let result = alice_only().authenticate("mallory", Some("password123"));
    assert!(matches!(result, Err(AuthenticationError::BadPassword)));
}

#[test]
fn authenticate_fails_without_password() {
    let result = alice_only().authenticate("alice", None);
    assert!(matches!(result, Err(AuthenticationError::BadPassword)));
}

#[test]
fn an_empty_table_lets_nobody_in() {
    let auth = TomlAuthenticator::from_users(Vec::new());
    assert!(auth.usernames().is_empty());
    assert!(auth.authenticate("", Some("")).is_err());
}
