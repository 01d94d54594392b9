//! Validation of JSON text columns before they are written.
//!
//! Every write path that stores application-controlled data in a TEXT column
//! that is later read back as JSON checks the text first with
//! [`require_valid_json`], so that corrupt data is refused at the write site
//! instead of failing later on a read.

use vstd::prelude::*;

verus! {

#[verifier::external_type_specification]
#[verifier::external_body]
pub struct ExJsonError(serde_json::Error);

/// Whether `serde_json` parses the text as a JSON array of strings
/// (the shape `Vec<String>`).
pub uninterp spec fn json_parses_as_string_list(text: Seq<char>) -> bool;

/// The error `serde_json` reports for a text that is not a JSON array of
/// strings (its category, line, column and message).
pub uninterp spec fn string_list_parse_error(text: Seq<char>) -> serde_json::Error;

/// Calls `serde_json::from_str::<Vec<String>>` and keeps the outcome
/// without the parsed value. Claimed: the call succeeds exactly when the
/// named predicate holds of the text, and a failure carries the named
/// error; both depend on the text alone.
#[verifier::external_body]
fn parse_string_list(text: &str) -> (r: Result<(), serde_json::Error>)
    ensures
        r.is_ok() == json_parses_as_string_list(text@),
        r matches Err(e) ==> e == string_list_parse_error(text@),
{
    serde_json::from_str::<Vec<String>>(text).map(|_| ())
}

/// Errors of the storage layer's write-side checks.
#[derive(Debug)]
pub enum StoreError {
    /// The JSON text for the named column does not have the expected shape.
    CorruptJson { context: &'static str, source: serde_json::Error },
}

/// A Rust type that a JSON column is read back as.
pub trait JsonColumn {
    /// Whether the text deserialises as this type.
    spec fn accepts_json(text: Seq<char>) -> bool;

    /// The error reported for a text that does not.
    spec fn json_error(text: Seq<char>) -> serde_json::Error;

    /// Try to deserialise the text as this type, keeping only the outcome.
    fn check_json(text: &str) -> (r: Result<(), serde_json::Error>)
        ensures
            r.is_ok() == Self::accepts_json(text@),
            r matches Err(e) ==> e == Self::json_error(text@),
    ;
}

impl JsonColumn for Vec<String> {
    open spec fn accepts_json(text: Seq<char>) -> bool {
        json_parses_as_string_list(text)
    }

    open spec fn json_error(text: Seq<char>) -> serde_json::Error {
        string_list_parse_error(text)
    }

    fn check_json(text: &str) -> (r: Result<(), serde_json::Error>) {
        parse_string_list(text)
    }
}

/// Turn the outcome of a deserialisation attempt into the storage result:
/// success stays success, a parse error becomes `CorruptJson` carrying the
/// column name.
pub fn json_check_outcome(parsed: Result<(), serde_json::Error>, context: &'static str) -> (r:
    Result<(), StoreError>)
    ensures
        parsed.is_ok() ==> r == Ok::<(), StoreError>(()),
        parsed.is_err() ==> (r matches Err(StoreError::CorruptJson { context: c, source: e })
            && c == context && e == parsed->Err_0),
{
    match parsed {
        Ok(()) => Ok(()),
        Err(e) => Err(StoreError::CorruptJson { context, source: e }),
    }
}

/// Validate that `json_str` deserialises as `T`.
///
/// Returns `Ok(())` when it does, and `Err(StoreError::CorruptJson)` naming
/// `context` when the text is not JSON or does not have the shape `T`.
pub fn require_valid_json<T: JsonColumn>(json_str: &str, context: &'static str) -> (r: Result<
    (),
    StoreError,
>)
    ensures
        r.is_ok() == T::accepts_json(json_str@),
        r matches Err(StoreError::CorruptJson { context: c, source: e }) ==> c == context && e
            == T::json_error(json_str@),
{
    let parsed = T::check_json(json_str);
    json_check_outcome(parsed, context)
}

} // verus!
