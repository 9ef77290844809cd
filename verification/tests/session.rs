use hyperion::session::{SessionError, SessionTable};
use std::collections::HashSet;

#[test]
fn new_session_identifier_has_sixteen_letters_and_digits() {
    let mut table = SessionTable::new();
    let id = table.start_session(None);
    assert_eq!(id.chars().count(), 16);
    assert!(id.chars().all(|c| c.is_ascii_alphanumeric()));
    assert!(table.contains(&id));
    assert!(table.load(&id).is_empty());
}

#[test]
fn two_new_sessions_differ() {
    let mut table = SessionTable::new();
    let first = table.start_session(None);
    let second = table.start_session(None);
    assert_ne!(first, second);
    assert!(table.contains(&first));
    assert!(table.contains(&second));
}

#[test]
fn ten_thousand_identifiers_without_a_duplicate() {
    let mut table = SessionTable::new();
    let mut seen = HashSet::new();
    for _ in 0..10_000 {
        let id = table.start_session(None);
        assert!(seen.insert(id));
    }
    assert_eq!(seen.len(), 10_000);
}

#[test]
fn starting_a_known_session_changes_nothing() {
    let mut table = SessionTable::new();
    let id = table.start_session(None);
    assert_eq!(
        table.set_variable(&id, "k".to_string(), "v".to_string()),
        Ok(())
    );
    assert_eq!(table.start_session(Some(id.clone())), id);
    assert_eq!(table.load(&id).get("k"), Some(&"v".to_string()));
}

#[test]
fn starting_an_unknown_session_makes_it_known() {
    let mut table = SessionTable::new();
    assert!(!table.contains("abc"));
    assert_eq!(table.start_session(Some("abc".to_string())), "abc");
    assert!(table.contains("abc"));
    assert!(table.load("abc").is_empty());
}

#[test]
fn setting_a_variable_of_an_unknown_session_fails() {
    let mut table = SessionTable::new();
    let other = table.start_session(Some("other".to_string()));
    assert_eq!(
        table.set_variable("missing", "k".to_string(), "v".to_string()),
        Err(SessionError::SessionNotStarted)
    );
    assert!(!table.contains("missing"));
    assert!(table.contains(&other));
    assert!(table.load(&other).is_empty());
}

#[test]
fn loading_an_unknown_session_makes_it_known() {
    let mut table = SessionTable::new();
    assert!(!table.contains("fresh"));
    assert!(table.load("fresh").is_empty());
    assert!(table.contains("fresh"));
    assert_eq!(
        table.set_variable("fresh", "k".to_string(), "v".to_string()),
        Ok(())
    );
    let snapshot = table.load("fresh");
    assert_eq!(snapshot.len(), 1);
    assert_eq!(snapshot.get("k"), Some(&"v".to_string()));
}

#[test]
fn variable_round_trip() {
    let mut table = SessionTable::new();
    let id = table.start_session(None);
    assert_eq!(
        table.set_variable(&id, "k".to_string(), "v".to_string()),
        Ok(())
    );
    assert_eq!(table.load(&id).get("k"), Some(&"v".to_string()));
}

#[test]
fn later_value_overwrites_and_sessions_are_apart() {
    let mut table = SessionTable::new();
    let a = table.start_session(None);
    let b = table.start_session(None);
    table.set_variable(&a, "k".to_string(), "1".to_string()).unwrap();
    table.set_variable(&a, "k".to_string(), "2".to_string()).unwrap();
    table.set_variable(&a, "other".to_string(), "x".to_string()).unwrap();
    table.set_variable(&b, "k".to_string(), "b".to_string()).unwrap();
    let of_a = table.load(&a);
    assert_eq!(of_a.len(), 2);
    assert_eq!(of_a.get("k"), Some(&"2".to_string()));
    assert_eq!(of_a.get("other"), Some(&"x".to_string()));
    let of_b = table.load(&b);
    assert_eq!(of_b.len(), 1);
    assert_eq!(of_b.get("k"), Some(&"b".to_string()));
}

#[test]
fn snapshot_is_a_copy() {
    let mut table = SessionTable::new();
    let id = table.start_session(None);
    let mut snapshot = table.load(&id);
    snapshot.insert("local".to_string(), "1".to_string());
    assert!(table.load(&id).is_empty());
    table.set_variable(&id, "k".to_string(), "v".to_string()).unwrap();
    assert_eq!(snapshot.get("k"), None);
}

#[test]
fn session_error_messages() {
    assert_eq!(
        SessionError::SessionNotStarted.to_string(),
        "session_start wasn't called"
    );
    assert_eq!(
        SessionError::SessionIdTypeMismatch.to_string(),
        "SESSIONID must be a str"
    );
    assert_eq!(
        SessionError::WrongArguments.to_string(),
        "expected only two arguments variable name, value"
    );
    assert_eq!(SessionError::SessionUnset.to_string(), "SESSION is unset");
    assert_eq!(SessionError::SessionNotMap.to_string(), "SESSION is not a map");
}

#[test]
fn fresh_start_empties_a_session() {
    let mut table = SessionTable::new();
    assert_eq!(table.start_fresh("s".to_string()), "s");
    assert!(table.contains("s"));
    table.set_variable("s", "k".to_string(), "v".to_string()).unwrap();
    table.start_session(Some("t".to_string()));
    table.set_variable("t", "k".to_string(), "w".to_string()).unwrap();
    assert_eq!(table.start_fresh("s".to_string()), "s");
    assert!(table.load("s").is_empty());
    assert_eq!(table.load("t").get("k"), Some(&"w".to_string()));
}
