use sui_id::json_util::{json_check_outcome, require_valid_json, StoreError};

#[test]
fn require_valid_json_accepts_valid_json() {
    assert!(require_valid_json::<Vec<String>>(r#"["a","b"]"#, "test").is_ok());
    assert!(require_valid_json::<Vec<String>>(r#"[]"#, "test").is_ok());
}

#[test]
fn require_valid_json_rejects_corrupt_json() {
    let err = require_valid_json::<Vec<String>>("not-json", "clients.redirect_uris");
    assert!(err.is_err(), "malformed JSON should return StoreError::CorruptJson");
    assert!(
        matches!(err.unwrap_err(), StoreError::CorruptJson { context, .. } if context == "clients.redirect_uris"),
        "error should be CorruptJson with the supplied context"
    );
}

#[test]
fn require_valid_json_rejects_wrong_shape() {
    let err = require_valid_json::<Vec<String>>(r#"{"key":"value"}"#, "test.col");
    assert!(err.is_err(), "wrong JSON shape should return an error");
}

#[test]
fn require_valid_json_rejects_array_of_numbers() {
    assert!(require_valid_json::<Vec<String>>("[1, 2]", "c").is_err());
    assert!(require_valid_json::<Vec<String>>(" [ \"x\" ] ", "c").is_ok());
}

#[test]
fn outcome_keeps_the_parse_error() {
    let parse_err = serde_json::from_str::<Vec<String>>("{").map(|_| ()).unwrap_err();
    let line = parse_err.line();
    match json_check_outcome(Err(parse_err), "users.email") {
        Err(StoreError::CorruptJson { context, source }) => {
            assert_eq!(context, "users.email");
            assert_eq!(source.line(), line);
        }
        Ok(()) => panic!("expected an error"),
    }
    assert!(json_check_outcome(Ok(()), "x").is_ok());
}
