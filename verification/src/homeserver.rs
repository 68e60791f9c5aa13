//! Validation of the homeserver address the bot is started with. A
//! malformed address is a fatal startup error: the bot refuses to run
//! rather than fail later on every request.

use vstd::prelude::*;

verus! {

#[verifier::external_type_specification]
#[verifier::external_body]
pub struct ExUrl(url::Url);

/// Whether a string is a well-formed absolute URL; what `url::Url::parse`
/// accepts depends on the characters of its input alone.
pub uninterp spec fn url_parse_ok(s: Seq<char>) -> bool;

/// Relies on url::Url::parse: parsing either yields a URL value or fails,
/// deterministically in the input string.
#[verifier::external_body]
fn parse_url(s: &str) -> (r: Option<url::Url>)
    ensures
        r is Some <==> url_parse_ok(s@),
{
    match url::Url::parse(s) {
        Ok(u) => Some(u),
        Err(_) => None,
    }
}

/// A failure that aborts startup before the live event loop is entered.
#[derive(Debug, PartialEq, Eq, Structural)]
pub enum StartupError {
    /// The homeserver address given on the command line is not a
    /// well-formed URL.
    MalformedHomeserverUrl,
}

/// Check the homeserver address the process was started with; a bot only
/// starts against a well-formed URL, and a malformed one is rejected here,
/// before anything connects.
pub fn validate_homeserver_url(raw: &String) -> (r: Result<url::Url, StartupError>)
    ensures
        r is Ok <==> url_parse_ok(raw@),
        r is Err ==> r == Result::<url::Url, StartupError>::Err(
            StartupError::MalformedHomeserverUrl,
        ),
{
    match parse_url(raw.as_str()) {
        Some(u) => Ok(u),
        None => Err(StartupError::MalformedHomeserverUrl),
    }
}

} // verus!
