//! JSON text for the list of worker instances.

use vstd::prelude::*;

verus! {

/// Declares `serde_json::Error`, the encoder's failure, as an opaque type that is carried through.
#[verifier::external_type_specification]
#[verifier::external_body]
pub struct ExJsonError(serde_json::Error);

/// What `serde_json` makes of a list of strings: the JSON text it writes, an
/// array of string literals in the order of the list, in the compact form,
/// with the escapes of `serde_json`; or `None` where it reports a failure.
pub uninterp spec fn json_string_list(items: Seq<Seq<char>>) -> Option<Seq<char>>;

/// The list could not be written as JSON.
#[derive(Clone, Copy, Debug, PartialEq, Eq, Structural)]
pub struct EncodeError;

/// Calls `serde_json::to_string` on a list of strings. Trusted: what the call returns, a text
/// or a failure, is what [`json_string_list`] names, which depends on the strings and their
/// order alone. Nothing is claimed about which lists it succeeds on, nor about a failure.
#[verifier::external_body]
fn to_json(items: &Vec<String>) -> (written: Result<String, serde_json::Error>)
    ensures
        match written {
            Ok(text) => json_string_list(items.deep_view()) == Some(text@),
            Err(_) => json_string_list(items.deep_view()) is None,
        },
{
    serde_json::to_string(items)
}

/// The library's own result for what the encoder returned: its text, or [`EncodeError`].
pub fn written_or_refused(written: Result<String, serde_json::Error>) -> (text: Result<
    String,
    EncodeError,
>)
    ensures
        match written {
            Ok(json) => text == Ok::<String, EncodeError>(json),
            Err(_) => text == Err::<String, EncodeError>(EncodeError),
        },
{
    match written {
        Ok(json) => Ok(json),
        Err(_) => Err(EncodeError),
    }
}

/// The JSON array that the encoder makes of a list of strings, or [`EncodeError`] where it fails.
pub fn string_list_json(items: &Vec<String>) -> (text: Result<String, EncodeError>)
    ensures
        match json_string_list(items.deep_view()) {
            Some(json) => text is Ok && text->Ok_0@ == json,
            None => text == Err::<String, EncodeError>(EncodeError),
        },
{
    written_or_refused(to_json(items))
}

} // verus!
