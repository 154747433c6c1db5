//! The signing algorithm: the key of one timestamp, the canonical request,
//! and the header value that carries the signature.

use crate::clock::{timestamp, timestamp_text, utc_now_seconds};
use crate::digest::{fits_message, hmac_sha256, hmac_sha256_code, sha256, sha256_digest, MAX_MESSAGE_LEN};
use crate::encoding::{
    base64_text, encode, is_base64_char, lemma_base64_alphabet, lemma_base64_injective,
    lemma_base64_len, lemma_base64_padding,
};
use crate::error::SignError;
use crate::method::HttpMethod;
use crate::nonce::{is_random_uuid, random_uuid};
use crate::target::{ParsedUrl, UrlParts};
use crate::text::{lemma_occurrences_concat, lemma_occurrences_none, occurrences};
use vstd::prelude::*;
use vstd::string::*;
use vstd::utf8::encode_utf8;

verus! {

/// The hash field of a body: the base64 text of its SHA-256 digest.
pub open spec fn body_hash_text(body: Seq<u8>) -> Seq<char> {
    base64_text(sha256_digest(body)@)
}

/// The base64 text of the HMAC-SHA256 code of `data` under `key`, both taken
/// as their UTF-8 bytes.
pub open spec fn signature_text(key: Seq<char>, data: Seq<char>) -> Seq<char> {
    base64_text(hmac_sha256_code(encode_utf8(key), encode_utf8(data))@)
}

/// The signing key of one timestamp: the timestamp, authenticated under the
/// client secret.
pub open spec fn signing_key_text(client_secret: Seq<char>, timestamp: Seq<char>) -> Seq<char> {
    signature_text(client_secret, timestamp)
}

/// One field of the authentication data: `name=value;`.
pub open spec fn field_text(name: Seq<char>, value: Seq<char>) -> Seq<char> {
    name + "="@ + value + ";"@
}

/// The authentication data before the signature: the scheme's name and the
/// four fields, in their fixed order, each closed by a semicolon.
pub open spec fn auth_data_text(
    client_token: Seq<char>,
    access_token: Seq<char>,
    timestamp: Seq<char>,
    nonce: Seq<char>,
) -> Seq<char> {
    "EG1-HMAC-SHA256 "@ + field_text("client_token"@, client_token) + field_text(
        "access_token"@,
        access_token,
    ) + field_text("timestamp"@, timestamp) + field_text("nonce"@, nonce)
}

/// The body-hash field of the canonical request: empty without a body, the
/// hash of the body with one, also where the body has no bytes.
pub open spec fn body_field_text(body: Option<Seq<u8>>) -> Seq<char> {
    match body {
        Some(bytes) => body_hash_text(bytes),
        None => Seq::empty(),
    }
}

/// The canonical request: method, scheme, host, path and a reserved empty
/// field, each closed by a tab; the body-hash field and its tab; then the
/// authentication data.
pub open spec fn canonical_text(
    method: HttpMethod,
    scheme: Seq<char>,
    host: Seq<char>,
    path: Seq<char>,
    body: Option<Seq<u8>>,
    auth_data: Seq<char>,
) -> Seq<char> {
    method.name() + "\t"@ + scheme + "\t"@ + host + "\t"@ + path + "\t"@ + "\t"@ + body_field_text(
        body,
    ) + "\t"@ + auth_data
}

/// The header value of a request whose URL has the host `host`: the
/// authentication data, then `signature=` and the signature of the
/// canonical request under the key of the timestamp.
pub open spec fn header_text(
    method: HttpMethod,
    scheme: Seq<char>,
    host: Seq<char>,
    path: Seq<char>,
    body: Option<Seq<u8>>,
    access_token: Seq<char>,
    client_token: Seq<char>,
    client_secret: Seq<char>,
    timestamp: Seq<char>,
    nonce: Seq<char>,
) -> Seq<char> {
    let auth_data = auth_data_text(client_token, access_token, timestamp, nonce);
    auth_data + "signature="@ + signature_text(
        signing_key_text(client_secret, timestamp),
        canonical_text(method, scheme, host, path, body, auth_data),
    )
}

/// The bytes of an optional body.
pub open spec fn body_bytes(body: Option<&[u8]>) -> Option<Seq<u8>> {
    match body {
        Some(bytes) => Some(bytes@),
        None => None,
    }
}

/// Whether both messages of one signing can be authenticated: the timestamp
/// under the client secret, and the canonical request under the signing key.
pub open spec fn signable(timestamp: Seq<char>, canonical: Seq<char>) -> bool {
    fits_message(encode_utf8(timestamp).len()) && fits_message(encode_utf8(canonical).len())
}

/// Whether a message of `len` bytes can be authenticated.
fn message_fits(len: usize) -> (fits: bool)
    ensures
        fits == fits_message(len as nat),
{
    len as u64 <= MAX_MESSAGE_LEN
}

/// The base64 text of the SHA-256 digest of `body`.
pub fn body_hash(body: &[u8]) -> (hash: String)
    ensures
        hash@ == body_hash_text(body@),
{
    let digest = sha256(body);
    encode(digest.as_slice())
}

/// Signs `data_to_sign` under `signing_key`: the base64 text of the
/// HMAC-SHA256 code.
pub fn signature(signing_key: &str, data_to_sign: &str) -> (signature: String)
    requires
        fits_message(encode_utf8(data_to_sign@).len()),
    ensures
        signature@ == signature_text(signing_key@, data_to_sign@),
{
    let code = hmac_sha256(signing_key.as_bytes(), data_to_sign.as_bytes());
    encode(code.as_slice())
}

/// Derives the signing key of `timestamp` from the client secret. Nothing
/// else enters the key.
pub fn signing_key(client_secret: &str, timestamp: &str) -> (key: String)
    requires
        fits_message(encode_utf8(timestamp@).len()),
    ensures
        key@ == signing_key_text(client_secret@, timestamp@),
{
    signature(client_secret, timestamp)
}

/// Appends the field `name=value;` to `out`.
fn push_field(out: &mut String, name: &str, value: &str)
    ensures
        final(out)@ == old(out)@ + field_text(name@, value@),
{
    let mut field = String::from_str(name);
    field.append("=");
    field.append(value);
    field.append(";");
    out.append(field.as_str());
}

/// Builds the authentication data that the signature is later appended to.
pub fn auth_data(client_token: &str, access_token: &str, timestamp: &str, nonce: &str) -> (data:
    String)
    ensures
        data@ == auth_data_text(client_token@, access_token@, timestamp@, nonce@),
{
    let mut data = String::from_str("EG1-HMAC-SHA256 ");
    push_field(&mut data, "client_token", client_token);
    push_field(&mut data, "access_token", access_token);
    push_field(&mut data, "timestamp", timestamp);
    push_field(&mut data, "nonce", nonce);
    data
}

/// Builds the canonical request that is signed. Fails with `MissingHost`
/// exactly where the URL has no host.
pub fn canonical_request(method: HttpMethod, url: &ParsedUrl, body: Option<&[u8]>, auth_data: &str) -> (canonical: Result<String, SignError>)
    ensures
        url@.host is None ==> canonical == Err::<String, SignError>(SignError::MissingHost),
        url@.host matches Some(host) ==> canonical matches Ok(text) && text@ == canonical_text(
            method,
            url@.scheme,
            host,
            url@.path,
            body_bytes(body),
            auth_data@,
        ),
{
    let host = match &url.host {
        Some(host) => host.as_str(),
        None => {
            return Err(SignError::MissingHost);
        },
    };
    let mut text = method.to_string();
    text.append("\t");
    text.append(url.scheme.as_str());
    text.append("\t");
    text.append(host);
    text.append("\t");
    text.append(url.path.as_str());
    text.append("\t");
    text.append("\t");
    match body {
        Some(bytes) => {
            let hash = body_hash(bytes);
            text.append(hash.as_str());
        },
        None => {
            assert(text@ + Seq::<char>::empty() =~= text@);
        },
    }
    text.append("\t");
    text.append(auth_data);
    Ok(text)
}

/// What signing a request yields, with the timestamp and the nonce given:
/// `MissingHost` where the URL has no host; else `MessageTooLong` where the
/// timestamp or the canonical request cannot be authenticated; else the
/// header value.
pub open spec fn signed_header(
    method: HttpMethod,
    url: UrlParts,
    body: Option<Seq<u8>>,
    access_token: Seq<char>,
    client_token: Seq<char>,
    client_secret: Seq<char>,
    timestamp: Seq<char>,
    nonce: Seq<char>,
) -> Result<Seq<char>, SignError> {
    match url.host {
        None => Err(SignError::MissingHost),
        Some(host) => {
            let auth_data = auth_data_text(client_token, access_token, timestamp, nonce);
            let canonical = canonical_text(method, url.scheme, host, url.path, body, auth_data);
            if signable(timestamp, canonical) {
                Ok(
                    header_text(
                        method,
                        url.scheme,
                        host,
                        url.path,
                        body,
                        access_token,
                        client_token,
                        client_secret,
                        timestamp,
                        nonce,
                    ),
                )
            } else {
                Err(SignError::MessageTooLong)
            }
        },
    }
}

/// What signing a request yields at the instant `seconds` after the Unix
/// epoch: `MissingHost` where the URL has no host; else `ClockOutOfRange`
/// where the instant has no timestamp; else what signing with that
/// timestamp yields.
pub open spec fn signed_header_at(
    method: HttpMethod,
    url: UrlParts,
    body: Option<Seq<u8>>,
    access_token: Seq<char>,
    client_token: Seq<char>,
    client_secret: Seq<char>,
    seconds: int,
    nonce: Seq<char>,
) -> Result<Seq<char>, SignError> {
    if url.host is None {
        Err(SignError::MissingHost)
    } else {
        match timestamp_text(seconds) {
            None => Err(SignError::ClockOutOfRange),
            Some(timestamp) => signed_header(
                method,
                url,
                body,
                access_token,
                client_token,
                client_secret,
                timestamp,
                nonce,
            ),
        }
    }
}

/// The text of a header value, or the error in its place.
pub open spec fn outcome_text(outcome: Result<String, SignError>) -> Result<Seq<char>, SignError> {
    match outcome {
        Ok(header) => Ok(header@),
        Err(error) => Err(error),
    }
}

/// Signs a request with the timestamp and the nonce given, and returns the
/// value of its `Authorization` header. The same arguments always give the
/// same value.
pub fn sign_with(
    method: HttpMethod,
    url: &ParsedUrl,
    body: Option<&[u8]>,
    access_token: &str,
    client_token: &str,
    client_secret: &str,
    timestamp: &str,
    nonce: &str,
) -> (header: Result<String, SignError>)
    ensures
        outcome_text(header) == signed_header(
            method,
            url@,
            body_bytes(body),
            access_token@,
            client_token@,
            client_secret@,
            timestamp@,
            nonce@,
        ),
{
    let mut auth_data = auth_data(client_token, access_token, timestamp, nonce);
    let data_to_sign = match canonical_request(method, url, body, auth_data.as_str()) {
        Ok(text) => text,
        Err(error) => {
            return Err(error);
        },
    };
    if !message_fits(timestamp.as_bytes().len()) || !message_fits(data_to_sign.as_str().as_bytes().len()) {
        return Err(SignError::MessageTooLong);
    }
    let signing_key = signing_key(client_secret, timestamp);
    let signature = signature(signing_key.as_str(), data_to_sign.as_str());
    auth_data.append("signature=");
    auth_data.append(signature.as_str());
    Ok(auth_data)
}

/// Signs a request at the instant `seconds` after the Unix epoch, with the
/// nonce given.
pub fn sign_at(
    method: HttpMethod,
    url: &ParsedUrl,
    body: Option<&[u8]>,
    access_token: &str,
    client_token: &str,
    client_secret: &str,
    seconds: i64,
    nonce: &str,
) -> (header: Result<String, SignError>)
    ensures
        outcome_text(header) == signed_header_at(
            method,
            url@,
            body_bytes(body),
            access_token@,
            client_token@,
            client_secret@,
            seconds as int,
            nonce@,
        ),
{
    if url.host.is_none() {
        return Err(SignError::MissingHost);
    }
    match timestamp(seconds) {
        Some(text) => sign_with(
            method,
            url,
            body,
            access_token,
            client_token,
            client_secret,
            text.as_str(),
            nonce,
        ),
        None => Err(SignError::ClockOutOfRange),
    }
}

/// Signs a request now: reads the clock once, draws a fresh nonce, and
/// returns the value of the `Authorization` header. A URL without a host is
/// refused; every other request gets its header, unless it is too long to
/// be authenticated. The value is the one that `sign_at` gives for some
/// instant that has a timestamp and some random UUID.
pub fn authorization_header(
    method: HttpMethod,
    url: &ParsedUrl,
    body: Option<&[u8]>,
    access_token: &str,
    client_token: &str,
    client_secret: &str,
) -> (header: Result<String, SignError>)
    ensures
        url@.host is None <==> header == Err::<String, SignError>(SignError::MissingHost),
        url@.host is Some ==> header is Ok || header == Err::<String, SignError>(
            SignError::MessageTooLong,
        ),
        exists|seconds: int, nonce: Seq<char>|
            timestamp_text(seconds) is Some && is_random_uuid(nonce) && outcome_text(header)
                == #[trigger] signed_header_at(
                method,
                url@,
                body_bytes(body),
                access_token@,
                client_token@,
                client_secret@,
                seconds,
                nonce,
            ),
{
    let now = utc_now_seconds();
    let nonce = random_uuid();
    sign_at(method, url, body, access_token, client_token, client_secret, now, nonce.as_str())
}

/// The base64 text of 32 bytes, which every digest and every
/// authentication code has: 44 characters of the alphabet, the last one the
/// padding character.
pub proof fn lemma_code_text(code: [u8; 32])
    ensures
        base64_text(code@).len() == 44,
        base64_text(code@).last() == '=',
        forall|i: int| 0 <= i < 44 ==> is_base64_char(#[trigger] base64_text(code@)[i]),
{
    lemma_base64_len(code@);
    lemma_base64_padding(code@);
    assert forall|i: int| 0 <= i < 44 implies is_base64_char(#[trigger] base64_text(code@)[i]) by {
        lemma_base64_alphabet(code@, i);
    }
}

/// The key that a header is signed under is the key of its timestamp:
/// whatever the method, the URL, the body, the tokens and the nonce are, the
/// signature at the end of the header is made under
/// `signing_key_text(client_secret, timestamp)`.
pub proof fn lemma_header_signed_under_timestamp_key(
    method: HttpMethod,
    scheme: Seq<char>,
    host: Seq<char>,
    path: Seq<char>,
    body: Option<Seq<u8>>,
    access_token: Seq<char>,
    client_token: Seq<char>,
    client_secret: Seq<char>,
    timestamp: Seq<char>,
    nonce: Seq<char>,
)
    ensures
        header_text(
            method,
            scheme,
            host,
            path,
            body,
            access_token,
            client_token,
            client_secret,
            timestamp,
            nonce,
        ) == auth_data_text(client_token, access_token, timestamp, nonce) + "signature="@
            + signature_text(
            signing_key_text(client_secret, timestamp),
            canonical_text(
                method,
                scheme,
                host,
                path,
                body,
                auth_data_text(client_token, access_token, timestamp, nonce),
            ),
        ),
        signing_key_text(client_secret, timestamp) == base64_text(
            hmac_sha256_code(encode_utf8(client_secret), encode_utf8(timestamp))@,
        ),
{
}

/// Two bodies have the same hash field exactly where they have the same
/// SHA-256 digest: the encoding of the digest loses nothing.
pub proof fn lemma_body_hash_follows_digest(a: Seq<u8>, b: Seq<u8>)
    ensures
        body_hash_text(a) == body_hash_text(b) <==> sha256_digest(a) == sha256_digest(b),
{
    if body_hash_text(a) == body_hash_text(b) {
        lemma_base64_injective(sha256_digest(a)@, sha256_digest(b)@);
        assert(sha256_digest(a) =~= sha256_digest(b));
    }
}

/// A request without a body and a request with one never have the same
/// canonical form, also where the body has no bytes: its hash field is not
/// empty.
pub proof fn lemma_absent_body_differs(
    method: HttpMethod,
    scheme: Seq<char>,
    host: Seq<char>,
    path: Seq<char>,
    body: Seq<u8>,
    auth_data: Seq<char>,
)
    ensures
        body_field_text(Some(body)).len() == 44,
        body_field_text(None).len() == 0,
        canonical_text(method, scheme, host, path, None, auth_data) != canonical_text(
            method,
            scheme,
            host,
            path,
            Some(body),
            auth_data,
        ),
{
    lemma_code_text(sha256_digest(body));
    let absent = canonical_text(method, scheme, host, path, None, auth_data);
    let present = canonical_text(method, scheme, host, path, Some(body), auth_data);
    assert(present.len() == absent.len() + 44);
}

/// Two requests that differ in the body alone have the same canonical form
/// exactly where the two bodies have the same SHA-256 digest.
pub proof fn lemma_canonical_follows_digest(
    method: HttpMethod,
    scheme: Seq<char>,
    host: Seq<char>,
    path: Seq<char>,
    a: Seq<u8>,
    b: Seq<u8>,
    auth_data: Seq<char>,
)
    ensures
        canonical_text(method, scheme, host, path, Some(a), auth_data) == canonical_text(
            method,
            scheme,
            host,
            path,
            Some(b),
            auth_data,
        ) <==> sha256_digest(a) == sha256_digest(b),
{
    let before = method.name() + "\t"@ + scheme + "\t"@ + host + "\t"@ + path + "\t"@ + "\t"@;
    let with_a = canonical_text(method, scheme, host, path, Some(a), auth_data);
    let with_b = canonical_text(method, scheme, host, path, Some(b), auth_data);
    lemma_code_text(sha256_digest(a));
    lemma_code_text(sha256_digest(b));
    lemma_body_hash_follows_digest(a, b);
    if with_a == with_b {
        let from = before.len() as int;
        assert(body_hash_text(a) =~= with_a.subrange(from, from + 44));
        assert(body_hash_text(b) =~= with_b.subrange(from, from + 44));
    }
}

/// The header value ends with the signature and no semicolon: the
/// authentication data closes its last field with one, `signature=` and 44
/// characters of base64 follow, and the last of them is the padding
/// character.
pub proof fn lemma_header_ends_with_signature(
    method: HttpMethod,
    scheme: Seq<char>,
    host: Seq<char>,
    path: Seq<char>,
    body: Option<Seq<u8>>,
    access_token: Seq<char>,
    client_token: Seq<char>,
    client_secret: Seq<char>,
    timestamp: Seq<char>,
    nonce: Seq<char>,
)
    ensures
        ({
            let auth_data = auth_data_text(client_token, access_token, timestamp, nonce);
            let header = header_text(
                method,
                scheme,
                host,
                path,
                body,
                access_token,
                client_token,
                client_secret,
                timestamp,
                nonce,
            );
            &&& auth_data.last() == ';'
            &&& header.len() == auth_data.len() + 10 + 44
            &&& header.subrange(0, auth_data.len() as int) == auth_data
            &&& header.subrange(auth_data.len() as int, auth_data.len() as int + 10) == "signature="@
            &&& forall|i: int|
                auth_data.len() + 10 <= i < header.len() ==> is_base64_char(#[trigger] header[i])
            &&& header.last() == '='
        }),
{
    reveal_strlit(";");
    reveal_strlit("signature=");
    let auth_data = auth_data_text(client_token, access_token, timestamp, nonce);
    let canonical = canonical_text(method, scheme, host, path, body, auth_data);
    let key = signing_key_text(client_secret, timestamp);
    let code = hmac_sha256_code(encode_utf8(key), encode_utf8(canonical));
    let signed = signature_text(key, canonical);
    let header = auth_data + "signature="@ + signed;
    lemma_code_text(code);
    assert(field_text("nonce"@, nonce).last() == ';');
    assert(auth_data.last() == ';');
    assert(header.subrange(0, auth_data.len() as int) =~= auth_data);
    assert(header.subrange(auth_data.len() as int, auth_data.len() as int + 10) =~= "signature="@);
    assert forall|i: int| auth_data.len() + 10 <= i < header.len() implies is_base64_char(
        #[trigger] header[i],
    ) by {
        assert(header[i] == signed[i - auth_data.len() - 10]);
    }
    assert(header.last() == signed.last());
}

/// A field holds one semicolon more than its value: the one that closes it.
proof fn lemma_field_semicolons(name: Seq<char>, value: Seq<char>)
    requires
        forall|i: int| 0 <= i < name.len() ==> name[i] != ';',
    ensures
        occurrences(field_text(name, value), ';') == occurrences(value, ';') + 1,
{
    reveal_strlit("=");
    reveal_strlit(";");
    lemma_occurrences_none(name, ';');
    lemma_occurrences_none("="@, ';');
    assert(occurrences(";"@, ';') == 1) by {
        assert(";"@.drop_last() =~= Seq::<char>::empty());
        assert(occurrences(";"@.drop_last(), ';') == 0);
    }
    lemma_occurrences_concat(name, "="@, ';');
    lemma_occurrences_concat(name + "="@, value, ';');
    lemma_occurrences_concat(name + "="@ + value, ";"@, ';');
}

/// The authentication data holds exactly four semicolons of its own, one at
/// the end of each field: every other one stands inside a value.
pub proof fn lemma_auth_data_has_four_fields(
    client_token: Seq<char>,
    access_token: Seq<char>,
    timestamp: Seq<char>,
    nonce: Seq<char>,
)
    ensures
        occurrences(auth_data_text(client_token, access_token, timestamp, nonce), ';') == 4
            + occurrences(client_token, ';') + occurrences(access_token, ';') + occurrences(
            timestamp,
            ';',
        ) + occurrences(nonce, ';'),
{
    reveal_strlit("EG1-HMAC-SHA256 ");
    reveal_strlit("client_token");
    reveal_strlit("access_token");
    reveal_strlit("timestamp");
    reveal_strlit("nonce");
    let head = "EG1-HMAC-SHA256 "@;
    let first = field_text("client_token"@, client_token);
    let second = field_text("access_token"@, access_token);
    let third = field_text("timestamp"@, timestamp);
    let fourth = field_text("nonce"@, nonce);
    lemma_occurrences_none(head, ';');
    lemma_field_semicolons("client_token"@, client_token);
    lemma_field_semicolons("access_token"@, access_token);
    lemma_field_semicolons("timestamp"@, timestamp);
    lemma_field_semicolons("nonce"@, nonce);
    lemma_occurrences_concat(head, first, ';');
    lemma_occurrences_concat(head + first, second, ';');
    lemma_occurrences_concat(head + first + second, third, ';');
    lemma_occurrences_concat(head + first + second + third, fourth, ';');
}

/// The canonical request holds exactly six tabs of its own: one after each
/// of the five leading fields and one after the body-hash field. Every
/// other one stands inside the scheme, the host, the path or the
/// authentication data; the method and the hash hold none.
pub proof fn lemma_canonical_has_six_tabs(
    method: HttpMethod,
    scheme: Seq<char>,
    host: Seq<char>,
    path: Seq<char>,
    body: Option<Seq<u8>>,
    auth_data: Seq<char>,
)
    ensures
        occurrences(canonical_text(method, scheme, host, path, body, auth_data), '\t') == 6
            + occurrences(scheme, '\t') + occurrences(host, '\t') + occurrences(path, '\t')
            + occurrences(auth_data, '\t'),
{
    reveal_strlit("GET");
    reveal_strlit("POST");
    reveal_strlit("\t");
    let tab = "\t"@;
    let hash = body_field_text(body);
    assert(occurrences(tab, '\t') == 1) by {
        assert(tab.drop_last() =~= Seq::<char>::empty());
        assert(occurrences(tab.drop_last(), '\t') == 0);
    }
    lemma_occurrences_none(method.name(), '\t');
    assert(occurrences(hash, '\t') == 0) by {
        match body {
            Some(bytes) => {
                lemma_code_text(sha256_digest(bytes));
            },
            None => {},
        }
        lemma_occurrences_none(hash, '\t');
    }
    let a = method.name() + tab;
    let b = a + scheme;
    let c = b + tab;
    let d = c + host;
    let e = d + tab;
    let f = e + path;
    let g = f + tab;
    let h = g + tab;
    let i = h + hash;
    let j = i + tab;
    lemma_occurrences_concat(method.name(), tab, '\t');
    lemma_occurrences_concat(a, scheme, '\t');
    lemma_occurrences_concat(b, tab, '\t');
    lemma_occurrences_concat(c, host, '\t');
    lemma_occurrences_concat(d, tab, '\t');
    lemma_occurrences_concat(e, path, '\t');
    lemma_occurrences_concat(f, tab, '\t');
    lemma_occurrences_concat(g, tab, '\t');
    lemma_occurrences_concat(h, hash, '\t');
    lemma_occurrences_concat(i, tab, '\t');
    lemma_occurrences_concat(j, auth_data, '\t');
}

} // verus!
