//! Resolving the bearer credential of a request.
//!
//! The credential comes from the `Authorization` header of the inbound
//! request where that header carries a bearer token, and from the configured
//! fallback otherwise. A request for which neither yields a credential is
//! unauthorized.

use vstd::prelude::*;

verus! {

/// The regular expression that an `Authorization` header has to match; its
/// first group is the token.
pub const BEARER_PATTERN: &'static str = "^Bearer (.*)$";

/// The `Authorization` header as the request presents it.
#[derive(Debug)]
pub enum AuthorizationHeader {
    /// The request has no such header.
    Absent,
    /// The header is there, but its value is not visible ASCII text.
    Unreadable,
    /// The value of the header.
    Text(String),
}

/// Why a request yields no credential.
#[derive(Clone, Copy, Debug, PartialEq, Eq, Structural)]
pub enum CredentialError {
    /// There is no `Authorization` header and no fallback.
    NoAuthorizationHeader,
    /// The `Authorization` header cannot be read as text and there is no
    /// fallback.
    UnreadableHeader,
    /// The `Authorization` header holds no bearer token and there is no
    /// fallback.
    NotBearer,
}

/// What [`CredentialError::message`] says of a missing header.
pub const NO_HEADER: &'static str = "No Authorization header";

/// What [`CredentialError::message`] says of a header that is no text.
pub const HEADER_UNREADABLE: &'static str = "Authorization header is not visible ASCII text.";

/// What [`CredentialError::message`] says of a header without a token.
pub const NO_BEARER_TOKEN: &'static str = "Authorization header does not contain a Bearer token.";

impl CredentialError {
    /// The reason in words, for the log.
    pub fn message(&self) -> (text: &'static str)
        ensures
            text@ == match *self {
                CredentialError::NoAuthorizationHeader => NO_HEADER@,
                CredentialError::UnreadableHeader => HEADER_UNREADABLE@,
                CredentialError::NotBearer => NO_BEARER_TOKEN@,
            },
    {
        match self {
            CredentialError::NoAuthorizationHeader => NO_HEADER,
            CredentialError::UnreadableHeader => HEADER_UNREADABLE,
            CredentialError::NotBearer => NO_BEARER_TOKEN,
        }
    }
}

/// The text spanned by capture group `group` in the leftmost match of the
/// regular expression `pattern` in `haystack`, as the `regex` crate finds it.
/// `None` where `pattern` does not compile, where it matches nowhere, and
/// where the group takes no part in the match.
pub uninterp spec fn regex_capture(pattern: Seq<char>, haystack: Seq<char>, group: nat) -> Option<
    Seq<char>,
>;

/// Runs `regex::Regex::new` on `pattern`, `Regex::captures` on `haystack` and
/// `Captures::get` on `group`, and copies out the text of the group.
///
/// Not proved: the contract only gives the outcome its name,
/// [`regex_capture`], which rests on the search being a function of pattern
/// and haystack alone.
#[verifier::external_body]
fn capture(pattern: &str, haystack: &str, group: usize) -> (found: Option<String>)
    ensures
        text_of(found) == regex_capture(pattern@, haystack@, group as nat),
{
    let compiled = regex::Regex::new(pattern).ok()?;
    let groups = compiled.captures(haystack)?;
    Some(groups.get(group)?.as_str().to_string())
}

/// An optional string as an optional sequence of characters.
pub open spec fn text_of(value: Option<String>) -> Option<Seq<char>> {
    match value {
        Some(text) => Some(text@),
        None => None,
    }
}

/// A credential, or the refusal of one, with the credential as a sequence of
/// characters.
pub open spec fn credential_of(outcome: Result<String, CredentialError>) -> Result<
    Seq<char>,
    CredentialError,
> {
    match outcome {
        Ok(token) => Ok(token@),
        Err(error) => Err(error),
    }
}

/// The token that the header carries: the first group of
/// [`BEARER_PATTERN`] in its text.
pub open spec fn bearer_token(header: AuthorizationHeader) -> Option<Seq<char>> {
    match header {
        AuthorizationHeader::Text(text) => regex_capture(BEARER_PATTERN@, text@, 1),
        _ => None,
    }
}

/// The reason to give where a request with this header yields no credential.
pub open spec fn refusal(header: AuthorizationHeader) -> CredentialError {
    match header {
        AuthorizationHeader::Absent => CredentialError::NoAuthorizationHeader,
        AuthorizationHeader::Unreadable => CredentialError::UnreadableHeader,
        AuthorizationHeader::Text(_) => CredentialError::NotBearer,
    }
}

/// The credential of a request: the token captured from its header where
/// there is one, else the fallback, else a refusal.
pub open spec fn resolved(
    header: AuthorizationHeader,
    captured: Option<Seq<char>>,
    fallback: Option<Seq<char>>,
) -> Result<Seq<char>, CredentialError> {
    match captured {
        Some(token) => Ok(token),
        None => match fallback {
            Some(token) => Ok(token),
            None => Err(refusal(header)),
        },
    }
}

/// Decides on the credential once the header has been searched for a token:
/// `captured` is what the search found.
pub fn resolve_credential(
    header: &AuthorizationHeader,
    captured: Option<String>,
    fallback: &Option<String>,
) -> (credential: Result<String, CredentialError>)
    ensures
        credential_of(credential) == resolved(*header, text_of(captured), text_of(*fallback)),
{
    match captured {
        Some(token) => Ok(token),
        None => match fallback {
            Some(token) => Ok(token.clone()),
            None => Err(
                match header {
                    AuthorizationHeader::Absent => CredentialError::NoAuthorizationHeader,
                    AuthorizationHeader::Unreadable => CredentialError::UnreadableHeader,
                    AuthorizationHeader::Text(_) => CredentialError::NotBearer,
                },
            ),
        },
    }
}

/// Resolves the credential of a request from its `Authorization` header and
/// the configured fallback.
pub fn get_bearer_token(header: &AuthorizationHeader, fallback: &Option<String>) -> (credential:
    Result<String, CredentialError>)
    ensures
        credential_of(credential) == resolved(*header, bearer_token(*header), text_of(*fallback)),
{
    let captured = match header {
        AuthorizationHeader::Text(text) => capture(BEARER_PATTERN, text.as_str(), 1),
        _ => None,
    };
    resolve_credential(header, captured, fallback)
}

} // verus!
