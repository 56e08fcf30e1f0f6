//! Addresses of registry documents, checked by the `url` crate.

use vstd::prelude::*;
use vstd::string::StringExecFns;
use crate::model::{name_in, naming, Error};

verus! {

/// `url::ParseError`, why the `url` crate refused a text. It is handed on as
/// it came.
#[verifier::external_type_specification]
#[verifier::external_body]
pub struct ExParseError(url::ParseError);

/// What `url::Url::parse` makes of `input`: the serialization of the URL it
/// reads, or nothing where it refuses the text.
pub uninterp spec fn parsed_url(input: Seq<char>) -> Option<Seq<char>>;

/// `url::Url::parse`, with the URL handed back in its serialized form.
/// Believed, not proved: the outcome is `parsed_url` of the text.
#[verifier::external_body]
pub(crate) fn parse_url(input: &str) -> (parsed: Result<String, url::ParseError>)
    ensures
        match parsed {
            Ok(address) => parsed_url(input@) == Some(address@),
            Err(_) => parsed_url(input@) is None,
        },
{
    match url::Url::parse(input) {
        Ok(address) => Ok(String::from(address)),
        Err(cause) => Err(cause),
    }
}

/// The context of an error on the address of `what` named `name`.
pub open spec fn address_context(what: Seq<char>, name: Seq<char>) -> Seq<char> {
    naming("Invalid URL for "@ + what + " '"@, name, "'."@)
}

/// `outcome` is the address that `text` spells, or the error that tells that
/// it spells none for `what` named `name`.
pub open spec fn address_outcome(
    text: Seq<char>,
    what: Seq<char>,
    name: Seq<char>,
    outcome: Result<String, Error>,
) -> bool {
    match outcome {
        Ok(address) => parsed_url(text) == Some(address@),
        Err(Error::InvalidUrl { context, .. }) => parsed_url(text) is None && context@
            == address_context(what, name),
        Err(_) => false,
    }
}

/// Hands on the address that was read, or tells that none could be formed
/// for `what` named `name`.
pub fn checked(parsed: Result<String, url::ParseError>, what: &str, name: &str) -> (outcome: Result<
    String,
    Error,
>)
    ensures
        match parsed {
            Ok(address) => outcome == Ok::<String, Error>(address),
            Err(cause) => outcome matches Err(Error::InvalidUrl { context, cause: kept })
                && context@ == address_context(what@, name@) && kept == cause,
        },
{
    match parsed {
        Ok(address) => Ok(address),
        Err(cause) => {
            let mut before = String::from_str("Invalid URL for ");
            before.append(what);
            before.append(" '");
            Err(Error::InvalidUrl { context: name_in(before.as_str(), name, "'."), cause })
        },
    }
}

/// The address that `text` spells, for the document of `what` named `name`.
pub fn address_of(text: &str, what: &str, name: &str) -> (outcome: Result<String, Error>)
    ensures
        address_outcome(text@, what@, name@, outcome),
{
    checked(parse_url(text), what, name)
}

} // verus!
