//! The parts of a URL that enter a signature.

use crate::error::SignError;
use vstd::prelude::*;

verus! {

/// The scheme, host and path of a URL, as text. The host is the name or
/// address alone: a port that the URL gives is not part of it.
pub struct UrlParts {
    pub scheme: Seq<char>,
    pub host: Option<Seq<char>>,
    pub path: Seq<char>,
}

/// A parsed URL, reduced to what the signer reads: the scheme, the host if
/// the URL has one, and the path without the query string. The host is the
/// name or address alone: a port that the URL gives is not part of it and
/// does not enter the signature.
#[derive(Debug, Clone, PartialEq, Eq)]
pub struct ParsedUrl {
    pub scheme: String,
    pub host: Option<String>,
    pub path: String,
}

impl View for ParsedUrl {
    type V = UrlParts;

    open spec fn view(&self) -> UrlParts {
        UrlParts {
            scheme: self.scheme@,
            host: match self.host {
                Some(h) => Some(h@),
                None => None,
            },
            path: self.path@,
        }
    }
}

#[verifier::external_type_specification]
#[verifier::external_body]
pub struct ExParseError(::url::ParseError);

/// What `url::Url::parse` makes of `text`: nothing where it refuses the
/// text, else the scheme, host and path of the URL it builds.
pub uninterp spec fn parsed_url(text: Seq<char>) -> Option<UrlParts>;

/// Parses `text` with `url::Url::parse` and reads the result through
/// `scheme`, `host_str` and `path`. The contract names the outcome: the call
/// succeeds exactly where `parsed_url` has a value, and then returns it.
#[verifier::external_body]
pub(crate) fn parse_url(text: &str) -> (parsed: Result<ParsedUrl, ::url::ParseError>)
    ensures
        parsed is Ok <==> parsed_url(text@) is Some,
        parsed matches Ok(url) ==> parsed_url(text@) == Some(url@),
{
    let url = ::url::Url::parse(text)?;
    Ok(
        ParsedUrl {
            scheme: url.scheme().to_string(),
            host: url.host_str().map(String::from),
            path: url.path().to_string(),
        },
    )
}

impl ParsedUrl {
    /// Parses `text`. Fails with `MalformedUrl` exactly where the text is
    /// not a URL; a URL without a host parses, and is refused when signed.
    pub fn parse(text: &str) -> (parsed: Result<ParsedUrl, SignError>)
        ensures
            parsed_url(text@) is None ==> parsed == Err::<ParsedUrl, SignError>(
                SignError::MalformedUrl,
            ),
            parsed_url(text@) matches Some(parts) ==> parsed matches Ok(url) && url@ == parts,
    {
        match parse_url(text) {
            Ok(url) => Ok(url),
            Err(_) => Err(SignError::MalformedUrl),
        }
    }
}

} // verus!
