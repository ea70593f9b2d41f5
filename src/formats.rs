use vstd::prelude::*;

use crate::misc::push_all;

verus! {

#[verifier::external_type_specification]
#[verifier::external_body]
pub struct ExJsonError(serde_json::Error);

#[verifier::external_type_specification]
#[verifier::external_body]
pub struct ExTomlError(toml::de::Error);

/// The JSON text `s` read as a TOML value and written back as TOML, or none
/// where `s` is not JSON that TOML can hold.
pub uninterp spec fn toml_from_json_of(s: Seq<char>) -> Option<Seq<char>>;

/// The TOML document `s` read as a JSON value and written back as compact
/// JSON, or none where `s` is not a TOML document.
pub uninterp spec fn json_from_toml_of(s: Seq<char>) -> Option<Seq<char>>;

/// Relies on `serde_json::from_str` into a `toml::Value`, written out by the
/// value's `Display` (toml's value serialiser, which takes any value).
#[verifier::external_body]
fn parse_json_as_toml(text: &str) -> (r: Result<String, serde_json::Error>)
    ensures
        r is Ok <==> toml_from_json_of(text@) is Some,
        r is Ok ==> toml_from_json_of(text@) == Some(r->Ok_0@),
{
    serde_json::from_str::<toml::Value>(text).map(|v| v.to_string())
}

/// Relies on `toml::from_str` into a `serde_json::Value`, written out by the
/// value's `Display` (compact JSON, which takes any value).
#[verifier::external_body]
fn parse_toml_as_json(text: &str) -> (r: Result<String, toml::de::Error>)
    ensures
        r is Ok <==> json_from_toml_of(text@) is Some,
        r is Ok ==> json_from_toml_of(text@) == Some(r->Ok_0@),
{
    toml::from_str::<serde_json::Value>(text).map(|v| v.to_string())
}

/// Relies on `Display for serde_json::Error`: a description of the error.
#[verifier::external_body]
fn describe_json_error(e: &serde_json::Error) -> String {
    e.to_string()
}

/// Relies on `Display for toml::de::Error`: a description of the error.
#[verifier::external_body]
fn describe_toml_error(e: &toml::de::Error) -> String {
    e.to_string()
}

/// The JSON `text` written as TOML; an error, with its description, where
/// `text` is not JSON that TOML can hold.
pub fn json_to_toml(text: &str) -> (r: Result<String, String>)
    ensures
        r is Ok <==> toml_from_json_of(text@) is Some,
        r is Ok ==> toml_from_json_of(text@) == Some(r->Ok_0@),
{
    match parse_json_as_toml(text) {
        Ok(s) => Ok(s),
        Err(e) => {
            let mut m = String::new();
            push_all(&mut m, "Failed to read JSON: ");
            push_all(&mut m, describe_json_error(&e).as_str());
            Err(m)
        },
    }
}

/// The TOML `text` written as JSON; an error, with its description, where
/// `text` is not a TOML document.
pub fn toml_to_json(text: &str) -> (r: Result<String, String>)
    ensures
        r is Ok <==> json_from_toml_of(text@) is Some,
        r is Ok ==> json_from_toml_of(text@) == Some(r->Ok_0@),
{
    match parse_toml_as_json(text) {
        Ok(s) => Ok(s),
        Err(e) => {
            let mut m = String::new();
            push_all(&mut m, "Failed to read TOML: ");
            push_all(&mut m, describe_toml_error(&e).as_str());
            Err(m)
        },
    }
}

} // verus!
