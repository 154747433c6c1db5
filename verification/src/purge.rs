//! The cache-purge request: where it goes, what it carries, and how it is
//! signed. Sending it is the caller's part.

use crate::error::SignError;
use crate::method::HttpMethod;
use crate::clock::{timestamp_text, utc_now_seconds};
use crate::nonce::{is_random_uuid, random_uuid};
use crate::signer::{sign_at, signed_header_at};
use crate::target::{parsed_url, ParsedUrl};
use vstd::prelude::*;
use vstd::string::*;
use vstd::utf8::encode_utf8;

verus! {

/// The text that `serde_json` writes for an object with the one member
/// `key`, whose value is the array of the strings `items`.
pub uninterp spec fn json_object_text(key: Seq<char>, items: Seq<Seq<char>>) -> Seq<char>;

/// The address of the purge endpoint below `base_url`.
pub open spec fn purge_url_text(base_url: Seq<char>) -> Seq<char> {
    base_url + "/ccu/v3/invalidate/tag/"@ + "production"@
}

/// The body of a purge request: the tags as the member `objects` of a JSON
/// object.
pub open spec fn purge_body_text(tags: Seq<Seq<char>>) -> Seq<char> {
    json_object_text("objects"@, tags)
}

/// A purge request that is ready to be sent with the method `POST`.
#[derive(Debug, Clone, PartialEq, Eq)]
pub struct PurgeRequest {
    /// The address to send to.
    pub url: String,
    /// The body, to be sent as `application/json`.
    pub body: String,
    /// The value of the `Authorization` header.
    pub authorization: String,
}

/// Writes the JSON object `{key: items}` with `serde_json`: a `Map` of one
/// member, its value made by `Value::from`, written by `to_string` in the
/// compact form. The contract gives the text its name and nothing else.
#[verifier::external_body]
pub(crate) fn json_object(key: &str, items: &Vec<String>) -> (text: String)
    ensures
        text@ == json_object_text(key@, items.deep_view()),
{
    let mut object = ::serde_json::Map::new();
    object.insert(key.to_string(), ::serde_json::Value::from(items.clone()));
    ::serde_json::Value::Object(object).to_string()
}

/// The address of the purge endpoint below `base_url`.
pub fn purge_url(base_url: &str) -> (url: String)
    ensures
        url@ == purge_url_text(base_url@),
{
    let mut url = String::from_str(base_url);
    url.append("/ccu/v3/invalidate/tag/");
    url.append("production");
    url
}

/// The body that asks for the purge of `tags`.
pub fn purge_body(tags: &Vec<String>) -> (body: String)
    ensures
        body@ == purge_body_text(tags.deep_view()),
{
    json_object("objects", tags)
}

/// What preparing a purge at the instant `seconds` yields as the header
/// value: `MalformedUrl` where the endpoint's address is not a URL, else
/// what signing the `POST` of the body yields.
pub open spec fn purge_header(
    base_url: Seq<char>,
    tags: Seq<Seq<char>>,
    access_token: Seq<char>,
    client_token: Seq<char>,
    client_secret: Seq<char>,
    seconds: int,
    nonce: Seq<char>,
) -> Result<Seq<char>, SignError> {
    match parsed_url(purge_url_text(base_url)) {
        None => Err(SignError::MalformedUrl),
        Some(url) => signed_header_at(
            HttpMethod::Post,
            url,
            Some(encode_utf8(purge_body_text(tags))),
            access_token,
            client_token,
            client_secret,
            seconds,
            nonce,
        ),
    }
}

/// Whether `request` is the purge of `tags` below `base_url` with the
/// header value `header`, or there is no request and `header` is the error.
pub open spec fn is_purge_outcome(
    outcome: Result<PurgeRequest, SignError>,
    base_url: Seq<char>,
    tags: Seq<Seq<char>>,
    header: Result<Seq<char>, SignError>,
) -> bool {
    match outcome {
        Ok(request) => {
            &&& request.url@ == purge_url_text(base_url)
            &&& request.body@ == purge_body_text(tags)
            &&& header == Ok::<Seq<char>, SignError>(request.authorization@)
        },
        Err(error) => header == Err::<Seq<char>, SignError>(error),
    }
}

/// Prepares the purge of `tags` at the instant `seconds`, with the nonce
/// given: the endpoint's address, the JSON body, and the signature of the
/// `POST` that carries it.
pub fn purge_request_at(
    base_url: &str,
    tags: &Vec<String>,
    access_token: &str,
    client_token: &str,
    client_secret: &str,
    seconds: i64,
    nonce: &str,
) -> (outcome: Result<PurgeRequest, SignError>)
    ensures
        is_purge_outcome(
            outcome,
            base_url@,
            tags.deep_view(),
            purge_header(
                base_url@,
                tags.deep_view(),
                access_token@,
                client_token@,
                client_secret@,
                seconds as int,
                nonce@,
            ),
        ),
{
    let url = purge_url(base_url);
    let target = match ParsedUrl::parse(url.as_str()) {
        Ok(target) => target,
        Err(error) => {
            return Err(error);
        },
    };
    let body = purge_body(tags);
    let signed = sign_at(
        HttpMethod::Post,
        &target,
        Some(body.as_str().as_bytes()),
        access_token,
        client_token,
        client_secret,
        seconds,
        nonce,
    );
    match signed {
        Ok(authorization) => Ok(PurgeRequest { url, body, authorization }),
        Err(error) => Err(error),
    }
}

/// Prepares the purge of `tags` now: reads the clock once, draws a fresh
/// nonce, and does as `purge_request_at` does for that instant and that
/// UUID. An address that is not a URL or names no host is refused; every
/// other purge gets its request, unless it is too long to be authenticated.
pub fn purge_request(
    base_url: &str,
    tags: &Vec<String>,
    access_token: &str,
    client_token: &str,
    client_secret: &str,
) -> (outcome: Result<PurgeRequest, SignError>)
    ensures
        parsed_url(purge_url_text(base_url@)) is None <==> outcome == Err::<
            PurgeRequest,
            SignError,
        >(SignError::MalformedUrl),
        parsed_url(purge_url_text(base_url@)) matches Some(url) ==> (url.host is None
            <==> outcome == Err::<PurgeRequest, SignError>(SignError::MissingHost)),
        parsed_url(purge_url_text(base_url@)) matches Some(url) && url.host is Some
            ==> outcome is Ok || outcome == Err::<PurgeRequest, SignError>(
            SignError::MessageTooLong,
        ),
        exists|seconds: int, nonce: Seq<char>|
            timestamp_text(seconds) is Some && is_random_uuid(nonce) && is_purge_outcome(
                outcome,
                base_url@,
                tags.deep_view(),
                #[trigger] purge_header(
                    base_url@,
                    tags.deep_view(),
                    access_token@,
                    client_token@,
                    client_secret@,
                    seconds,
                    nonce,
                ),
            ),
{
    let now = utc_now_seconds();
    let nonce = random_uuid();
    purge_request_at(
        base_url,
        tags,
        access_token,
        client_token,
        client_secret,
        now,
        nonce.as_str(),
    )
}

} // verus!
