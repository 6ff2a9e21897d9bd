use searchfox_api::{normalize_context, normalize_optional_string, DecodeError, MatchContext};

#[test]
fn absent_text_stays_absent() {
    assert_eq!(normalize_optional_string(None), None);
}

#[test]
fn empty_text_becomes_absent() {
    assert_eq!(normalize_optional_string(Some(String::new())), None);
}

#[test]
fn filled_text_is_unchanged() {
    assert_eq!(
        normalize_optional_string(Some("/** a comment */".to_string())),
        Some("/** a comment */".to_string())
    );
}

#[test]
fn normalizing_twice_changes_nothing() {
    let once = normalize_optional_string(Some("x".to_string()));
    assert_eq!(normalize_optional_string(once), Some("x".to_string()));
    let none = normalize_optional_string(Some(String::new()));
    assert_eq!(normalize_optional_string(none), None);
}

#[test]
fn empty_context_pair_is_absent() {
    assert_eq!(normalize_context(String::new(), String::new()), Ok(None));
}

#[test]
fn context_without_symbol_is_invalid() {
    assert_eq!(
        normalize_context("a".to_string(), String::new()),
        Err(DecodeError::InvalidValue)
    );
}

#[test]
fn symbol_without_context_is_invalid() {
    assert_eq!(
        normalize_context(String::new(), "b".to_string()),
        Err(DecodeError::InvalidValue)
    );
}

#[test]
fn filled_context_pair_is_kept() {
    assert_eq!(
        normalize_context("a".to_string(), "b".to_string()),
        Ok(Some(MatchContext { context: "a".to_string(), symbol: "b".to_string() }))
    );
}
