//! What holds of every header that `sign_at` returns, and so of every
//! header that `authorization_header` returns: when one is owed, what it
//! reads, which key signs it, and how the body and the delimiters show in
//! it.

use crate::clock::timestamp_text;
use crate::digest::{hmac_sha256_code, sha256_digest};
use crate::encoding::{base64_text, is_base64_char};
use crate::error::SignError;
use crate::method::HttpMethod;
use crate::nonce::{is_hyphen_index, is_random_uuid};
use crate::signer::{
    auth_data_text, body_field_text, body_hash_text, canonical_text, field_text, header_text,
    lemma_absent_body_differs, lemma_auth_data_has_four_fields, lemma_canonical_follows_digest,
    lemma_canonical_has_six_tabs, lemma_code_text, lemma_header_ends_with_signature, signable,
    signature_text, signed_header_at, signing_key_text,
};
use crate::target::UrlParts;
use crate::text::{lemma_occurrences_concat, lemma_occurrences_none, occurrences};
use vstd::prelude::*;
use vstd::utf8::encode_utf8;

verus! {

/// The text that is signed for a request at the instant `seconds`: the
/// canonical request, with the authentication data of that instant and
/// nonce at its end.
pub open spec fn signed_message_at(
    method: HttpMethod,
    url: UrlParts,
    body: Option<Seq<u8>>,
    access_token: Seq<char>,
    client_token: Seq<char>,
    seconds: int,
    nonce: Seq<char>,
) -> Seq<char> {
    canonical_text(
        method,
        url.scheme,
        url.host.unwrap(),
        url.path,
        body,
        auth_data_text(client_token, access_token, timestamp_text(seconds).unwrap(), nonce),
    )
}

/// Whether a header is owed: the URL has a host, the instant has a
/// timestamp, and the timestamp and the text to sign can be authenticated.
pub open spec fn can_sign_at(
    method: HttpMethod,
    url: UrlParts,
    body: Option<Seq<u8>>,
    access_token: Seq<char>,
    client_token: Seq<char>,
    seconds: int,
    nonce: Seq<char>,
) -> bool {
    &&& url.host is Some
    &&& timestamp_text(seconds) is Some
    &&& signable(
        timestamp_text(seconds).unwrap(),
        signed_message_at(method, url, body, access_token, client_token, seconds, nonce),
    )
}

/// Signing yields a header exactly where one is owed, and each error has
/// its own cause: no host; a host, but no timestamp; both, but a text too
/// long to authenticate. A URL that parsed is never called malformed.
pub proof fn lemma_header_owed(
    method: HttpMethod,
    url: UrlParts,
    body: Option<Seq<u8>>,
    access_token: Seq<char>,
    client_token: Seq<char>,
    client_secret: Seq<char>,
    seconds: int,
    nonce: Seq<char>,
)
    ensures
        ({
            let outcome = signed_header_at(
                method,
                url,
                body,
                access_token,
                client_token,
                client_secret,
                seconds,
                nonce,
            );
            let owed = can_sign_at(
                method,
                url,
                body,
                access_token,
                client_token,
                seconds,
                nonce,
            );
            &&& outcome is Ok <==> owed
            &&& outcome == Err::<Seq<char>, SignError>(SignError::MissingHost) <==> url.host is None
            &&& outcome == Err::<Seq<char>, SignError>(SignError::ClockOutOfRange) <==> url.host is Some
                && timestamp_text(seconds) is None
            &&& outcome == Err::<Seq<char>, SignError>(SignError::MessageTooLong) <==> url.host is Some
                && timestamp_text(seconds) is Some && !owed
            &&& outcome != Err::<Seq<char>, SignError>(SignError::MalformedUrl)
        }),
{
}

/// The header that is owed reads as the scheme prescribes. With `ts` the
/// timestamp of the instant, it is the authentication data
/// `EG1-HMAC-SHA256 client_token=..;access_token=..;timestamp=ts;nonce=..;`,
/// then `signature=` and the base64 text of the HMAC-SHA256 code of the
/// canonical request under the key; the key is the base64 text of the code
/// of `ts` under the client secret; and the canonical request is method,
/// scheme, host and path, each closed by a tab, one more tab for the
/// reserved field, the hash field and its tab, and the same authentication
/// data. One timestamp and one nonce stand in all three.
pub proof fn lemma_header_reads(
    method: HttpMethod,
    url: UrlParts,
    body: Option<Seq<u8>>,
    access_token: Seq<char>,
    client_token: Seq<char>,
    client_secret: Seq<char>,
    seconds: int,
    nonce: Seq<char>,
)
    requires
        can_sign_at(method, url, body, access_token, client_token, seconds, nonce),
    ensures
        ({
            let ts = timestamp_text(seconds).unwrap();
            let auth_data = "EG1-HMAC-SHA256 client_token="@ + client_token + ";access_token="@
                + access_token + ";timestamp="@ + ts + ";nonce="@ + nonce + ";"@;
            let key = base64_text(hmac_sha256_code(encode_utf8(client_secret), encode_utf8(ts))@);
            let canonical = method.name() + "\t"@ + url.scheme + "\t"@ + url.host.unwrap() + "\t"@
                + url.path + "\t\t"@ + body_field_text(body) + "\t"@ + auth_data;
            &&& auth_data == auth_data_text(client_token, access_token, ts, nonce)
            &&& canonical == signed_message_at(
                method,
                url,
                body,
                access_token,
                client_token,
                seconds,
                nonce,
            )
            &&& signed_header_at(
                method,
                url,
                body,
                access_token,
                client_token,
                client_secret,
                seconds,
                nonce,
            ) == Ok::<Seq<char>, SignError>(
                auth_data + "signature="@ + base64_text(
                    hmac_sha256_code(encode_utf8(key), encode_utf8(canonical))@,
                ),
            )
        }),
{
    let ts = timestamp_text(seconds).unwrap();
    let flat = "EG1-HMAC-SHA256 client_token="@ + client_token + ";access_token="@ + access_token
        + ";timestamp="@ + ts + ";nonce="@ + nonce + ";"@;
    let fields = auth_data_text(client_token, access_token, ts, nonce);
    assert("EG1-HMAC-SHA256 client_token="@ =~= "EG1-HMAC-SHA256 "@ + "client_token"@ + "="@) by {
        reveal_strlit("EG1-HMAC-SHA256 client_token=");
        reveal_strlit("EG1-HMAC-SHA256 ");
        reveal_strlit("client_token");
        reveal_strlit("=");
    }
    assert(";access_token="@ =~= ";"@ + "access_token"@ + "="@) by {
        reveal_strlit(";access_token=");
        reveal_strlit(";");
        reveal_strlit("access_token");
        reveal_strlit("=");
    }
    assert(";timestamp="@ =~= ";"@ + "timestamp"@ + "="@) by {
        reveal_strlit(";timestamp=");
        reveal_strlit(";");
        reveal_strlit("timestamp");
        reveal_strlit("=");
    }
    assert(";nonce="@ =~= ";"@ + "nonce"@ + "="@) by {
        reveal_strlit(";nonce=");
        reveal_strlit(";");
        reveal_strlit("nonce");
        reveal_strlit("=");
    }
    assert("\t\t"@ =~= "\t"@ + "\t"@) by {
        reveal_strlit("\t\t");
        reveal_strlit("\t");
    }
    assert(flat =~= fields);
    let canonical = method.name() + "\t"@ + url.scheme + "\t"@ + url.host.unwrap() + "\t"@
        + url.path + "\t\t"@ + body_field_text(body) + "\t"@ + flat;
    assert(canonical =~= signed_message_at(
        method,
        url,
        body,
        access_token,
        client_token,
        seconds,
        nonce,
    ));
}

/// One key signs every request of one secret and one instant. Two requests
/// that share the client secret and the instant, and differ in the method,
/// the URL, the body, the tokens or the nonce as they may, are both signed
/// under `signing_key_text(client_secret, ts)`: what differs between them
/// changes the text that is signed, never the key.
pub proof fn lemma_one_key_per_instant(
    client_secret: Seq<char>,
    seconds: int,
    method_a: HttpMethod,
    url_a: UrlParts,
    body_a: Option<Seq<u8>>,
    access_token_a: Seq<char>,
    client_token_a: Seq<char>,
    nonce_a: Seq<char>,
    method_b: HttpMethod,
    url_b: UrlParts,
    body_b: Option<Seq<u8>>,
    access_token_b: Seq<char>,
    client_token_b: Seq<char>,
    nonce_b: Seq<char>,
)
    requires
        can_sign_at(method_a, url_a, body_a, access_token_a, client_token_a, seconds, nonce_a),
        can_sign_at(method_b, url_b, body_b, access_token_b, client_token_b, seconds, nonce_b),
    ensures
        ({
            let ts = timestamp_text(seconds).unwrap();
            let key = signing_key_text(client_secret, ts);
            &&& key == base64_text(
                hmac_sha256_code(encode_utf8(client_secret), encode_utf8(ts))@,
            )
            &&& signed_header_at(
                method_a,
                url_a,
                body_a,
                access_token_a,
                client_token_a,
                client_secret,
                seconds,
                nonce_a,
            ) == Ok::<Seq<char>, SignError>(
                auth_data_text(client_token_a, access_token_a, ts, nonce_a) + "signature="@
                    + signature_text(
                    key,
                    signed_message_at(
                        method_a,
                        url_a,
                        body_a,
                        access_token_a,
                        client_token_a,
                        seconds,
                        nonce_a,
                    ),
                ),
            )
            &&& signed_header_at(
                method_b,
                url_b,
                body_b,
                access_token_b,
                client_token_b,
                client_secret,
                seconds,
                nonce_b,
            ) == Ok::<Seq<char>, SignError>(
                auth_data_text(client_token_b, access_token_b, ts, nonce_b) + "signature="@
                    + signature_text(
                    key,
                    signed_message_at(
                        method_b,
                        url_b,
                        body_b,
                        access_token_b,
                        client_token_b,
                        seconds,
                        nonce_b,
                    ),
                ),
            )
        }),
{
}

/// The body shows in the header through its digest alone. Two requests that
/// differ in the body alone have headers that agree up to and including
/// `signature=`; each is signed over a text whose hash field is the base64
/// text of the digest of its own body; and the two texts differ exactly
/// where the two digests differ.
pub proof fn lemma_body_enters_through_digest(
    method: HttpMethod,
    url: UrlParts,
    body_a: Seq<u8>,
    body_b: Seq<u8>,
    access_token: Seq<char>,
    client_token: Seq<char>,
    client_secret: Seq<char>,
    seconds: int,
    nonce: Seq<char>,
)
    requires
        can_sign_at(method, url, Some(body_a), access_token, client_token, seconds, nonce),
        can_sign_at(method, url, Some(body_b), access_token, client_token, seconds, nonce),
    ensures
        ({
            let ts = timestamp_text(seconds).unwrap();
            let auth_data = auth_data_text(client_token, access_token, ts, nonce);
            let before = method.name() + "\t"@ + url.scheme + "\t"@ + url.host.unwrap() + "\t"@
                + url.path + "\t"@ + "\t"@;
            let message_a = signed_message_at(
                method,
                url,
                Some(body_a),
                access_token,
                client_token,
                seconds,
                nonce,
            );
            let message_b = signed_message_at(
                method,
                url,
                Some(body_b),
                access_token,
                client_token,
                seconds,
                nonce,
            );
            let header_a = signed_header_at(
                method,
                url,
                Some(body_a),
                access_token,
                client_token,
                client_secret,
                seconds,
                nonce,
            );
            let header_b = signed_header_at(
                method,
                url,
                Some(body_b),
                access_token,
                client_token,
                client_secret,
                seconds,
                nonce,
            );
            let shared = auth_data + "signature="@;
            &&& message_a == before + body_hash_text(body_a) + "\t"@ + auth_data
            &&& message_b == before + body_hash_text(body_b) + "\t"@ + auth_data
            &&& header_a == Ok::<Seq<char>, SignError>(
                shared + signature_text(signing_key_text(client_secret, ts), message_a),
            )
            &&& header_b == Ok::<Seq<char>, SignError>(
                shared + signature_text(signing_key_text(client_secret, ts), message_b),
            )
            &&& body_hash_text(body_a) == base64_text(sha256_digest(body_a)@)
            &&& body_hash_text(body_b) == base64_text(sha256_digest(body_b)@)
            &&& message_a == message_b <==> sha256_digest(body_a) == sha256_digest(body_b)
            &&& body_hash_text(body_a) == body_hash_text(body_b) <==> sha256_digest(body_a)
                == sha256_digest(body_b)
        }),
{
    let ts = timestamp_text(seconds).unwrap();
    let auth_data = auth_data_text(client_token, access_token, ts, nonce);
    lemma_canonical_follows_digest(
        method,
        url.scheme,
        url.host.unwrap(),
        url.path,
        body_a,
        body_b,
        auth_data,
    );
    crate::signer::lemma_body_hash_follows_digest(body_a, body_b);
}

/// A request without a body is never signed as one with an empty body.
/// Without a body the hash field of the signed text is empty; with a body,
/// also one of no bytes, it holds the 44 characters of the digest; and the
/// two texts differ.
pub proof fn lemma_absent_body_is_not_empty_body(
    method: HttpMethod,
    url: UrlParts,
    body: Seq<u8>,
    access_token: Seq<char>,
    client_token: Seq<char>,
    seconds: int,
    nonce: Seq<char>,
)
    ensures
        ({
            let ts = timestamp_text(seconds).unwrap();
            let auth_data = auth_data_text(client_token, access_token, ts, nonce);
            let before = method.name() + "\t"@ + url.scheme + "\t"@ + url.host.unwrap() + "\t"@
                + url.path + "\t"@ + "\t"@;
            let absent = signed_message_at(
                method,
                url,
                None,
                access_token,
                client_token,
                seconds,
                nonce,
            );
            let present = signed_message_at(
                method,
                url,
                Some(body),
                access_token,
                client_token,
                seconds,
                nonce,
            );
            &&& absent == before + "\t"@ + auth_data
            &&& present == before + body_hash_text(body) + "\t"@ + auth_data
            &&& body_hash_text(body).len() == 44
            &&& absent != present
        }),
{
    let ts = timestamp_text(seconds).unwrap();
    let auth_data = auth_data_text(client_token, access_token, ts, nonce);
    let before = method.name() + "\t"@ + url.scheme + "\t"@ + url.host.unwrap() + "\t"@ + url.path
        + "\t"@ + "\t"@;
    lemma_absent_body_differs(method, url.scheme, url.host.unwrap(), url.path, body, auth_data);
    assert(before + Seq::<char>::empty() =~= before);
}

/// A random UUID in canonical form holds neither a semicolon nor a tab.
pub proof fn lemma_uuid_has_no_delimiter(nonce: Seq<char>)
    requires
        is_random_uuid(nonce),
    ensures
        occurrences(nonce, ';') == 0,
        occurrences(nonce, '\t') == 0,
{
    assert forall|i: int| 0 <= i < nonce.len() implies nonce[i] != ';' && nonce[i] != '\t' by {
        if is_hyphen_index(i) {
            assert(nonce[i] == '-');
        }
    }
    lemma_occurrences_none(nonce, ';');
    lemma_occurrences_none(nonce, '\t');
}

/// The header holds four semicolons of its own, one at the end of each
/// field of the authentication data; `signature=` and the 44 characters of
/// the signature follow the last of them, and the header ends with the
/// padding character. Where the tokens and the timestamp hold no semicolon
/// and the nonce is a random UUID, the header holds exactly four.
pub proof fn lemma_header_semicolons(
    method: HttpMethod,
    url: UrlParts,
    body: Option<Seq<u8>>,
    access_token: Seq<char>,
    client_token: Seq<char>,
    client_secret: Seq<char>,
    seconds: int,
    nonce: Seq<char>,
)
    requires
        can_sign_at(method, url, body, access_token, client_token, seconds, nonce),
    ensures
        ({
            let ts = timestamp_text(seconds).unwrap();
            let auth_data = auth_data_text(client_token, access_token, ts, nonce);
            let header = signed_header_at(
                method,
                url,
                body,
                access_token,
                client_token,
                client_secret,
                seconds,
                nonce,
            ).unwrap();
            &&& occurrences(header, ';') == 4 + occurrences(client_token, ';') + occurrences(
                access_token,
                ';',
            ) + occurrences(ts, ';') + occurrences(nonce, ';')
            &&& is_random_uuid(nonce) ==> occurrences(nonce, ';') == 0
            &&& header.len() == auth_data.len() + 10 + 44
            &&& header.subrange(0, auth_data.len() as int) == auth_data
            &&& auth_data.last() == ';'
            &&& header.subrange(auth_data.len() as int, auth_data.len() as int + 10)
                == "signature="@
            &&& forall|i: int|
                auth_data.len() + 10 <= i < header.len() ==> is_base64_char(#[trigger] header[i])
                    && header[i] != ';'
            &&& header.last() == '='
        }),
{
    let ts = timestamp_text(seconds).unwrap();
    let host = url.host.unwrap();
    let auth_data = auth_data_text(client_token, access_token, ts, nonce);
    let header = header_text(
        method,
        url.scheme,
        host,
        url.path,
        body,
        access_token,
        client_token,
        client_secret,
        ts,
        nonce,
    );
    let canonical = canonical_text(method, url.scheme, host, url.path, body, auth_data);
    let key = signing_key_text(client_secret, ts);
    let signed = signature_text(key, canonical);
    lemma_header_ends_with_signature(
        method,
        url.scheme,
        host,
        url.path,
        body,
        access_token,
        client_token,
        client_secret,
        ts,
        nonce,
    );
    lemma_auth_data_has_four_fields(client_token, access_token, ts, nonce);
    lemma_code_text(hmac_sha256_code(encode_utf8(key), encode_utf8(canonical)));
    reveal_strlit("signature=");
    lemma_occurrences_none("signature="@, ';');
    lemma_occurrences_none(signed, ';');
    lemma_occurrences_concat(auth_data, "signature="@, ';');
    lemma_occurrences_concat(auth_data + "signature="@, signed, ';');
    if is_random_uuid(nonce) {
        lemma_uuid_has_no_delimiter(nonce);
    }
}

/// A field holds the tabs of its value and no other.
proof fn lemma_field_tabs(name: Seq<char>, value: Seq<char>)
    requires
        forall|i: int| 0 <= i < name.len() ==> name[i] != '\t',
    ensures
        occurrences(field_text(name, value), '\t') == occurrences(value, '\t'),
{
    reveal_strlit("=");
    reveal_strlit(";");
    lemma_occurrences_none(name, '\t');
    lemma_occurrences_none("="@, '\t');
    lemma_occurrences_none(";"@, '\t');
    lemma_occurrences_concat(name, "="@, '\t');
    lemma_occurrences_concat(name + "="@, value, '\t');
    lemma_occurrences_concat(name + "="@ + value, ";"@, '\t');
}

/// The text that is signed holds six tabs of its own: one after each of
/// method, scheme, host, path and the reserved empty field, and one after
/// the hash field, before the authentication data. Every other tab stands
/// inside the scheme, the host, the path, a token, the timestamp or the
/// nonce; a random UUID holds none.
pub proof fn lemma_signed_message_tabs(
    method: HttpMethod,
    url: UrlParts,
    body: Option<Seq<u8>>,
    access_token: Seq<char>,
    client_token: Seq<char>,
    seconds: int,
    nonce: Seq<char>,
)
    ensures
        ({
            let ts = timestamp_text(seconds).unwrap();
            let message = signed_message_at(
                method,
                url,
                body,
                access_token,
                client_token,
                seconds,
                nonce,
            );
            &&& message == method.name() + "\t"@ + url.scheme + "\t"@ + url.host.unwrap() + "\t"@
                + url.path + "\t"@ + "\t"@ + body_field_text(body) + "\t"@ + auth_data_text(
                client_token,
                access_token,
                ts,
                nonce,
            )
            &&& occurrences(message, '\t') == 6 + occurrences(url.scheme, '\t') + occurrences(
                url.host.unwrap(),
                '\t',
            ) + occurrences(url.path, '\t') + occurrences(client_token, '\t') + occurrences(
                access_token,
                '\t',
            ) + occurrences(ts, '\t') + occurrences(nonce, '\t')
            &&& is_random_uuid(nonce) ==> occurrences(nonce, '\t') == 0
        }),
{
    let ts = timestamp_text(seconds).unwrap();
    let auth_data = auth_data_text(client_token, access_token, ts, nonce);
    lemma_canonical_has_six_tabs(method, url.scheme, url.host.unwrap(), url.path, body, auth_data);
    reveal_strlit("EG1-HMAC-SHA256 ");
    reveal_strlit("client_token");
    reveal_strlit("access_token");
    reveal_strlit("timestamp");
    reveal_strlit("nonce");
    let head = "EG1-HMAC-SHA256 "@;
    let first = field_text("client_token"@, client_token);
    let second = field_text("access_token"@, access_token);
    let third = field_text("timestamp"@, ts);
    let fourth = field_text("nonce"@, nonce);
    lemma_occurrences_none(head, '\t');
    lemma_field_tabs("client_token"@, client_token);
    lemma_field_tabs("access_token"@, access_token);
    lemma_field_tabs("timestamp"@, ts);
    lemma_field_tabs("nonce"@, nonce);
    lemma_occurrences_concat(head, first, '\t');
    lemma_occurrences_concat(head + first, second, '\t');
    lemma_occurrences_concat(head + first + second, third, '\t');
    lemma_occurrences_concat(head + first + second + third, fourth, '\t');
    if is_random_uuid(nonce) {
        lemma_uuid_has_no_delimiter(nonce);
    }
}

} // verus!
