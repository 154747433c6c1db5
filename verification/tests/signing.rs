use akamai::clock::timestamp;
use akamai::signer::{auth_data, body_hash, canonical_request, signature, signing_key};
use akamai::{authorization_header, sign_at, sign_with, HttpMethod, ParsedUrl, SignError};

const TIMESTAMP: &str = "20230101T00:00:00+0000";
const NONCE: &str = "123e4567-e89b-42d3-a456-426614174000";
const AUTH_DATA: &str = "EG1-HMAC-SHA256 client_token=akab-client;access_token=akab-access;timestamp=20230101T00:00:00+0000;nonce=123e4567-e89b-42d3-a456-426614174000;";

fn example_url() -> ParsedUrl {
    ParsedUrl {
        scheme: "https".to_string(),
        host: Some("example.com".to_string()),
        path: "/foo".to_string(),
    }
}

#[test]
fn signing_key_of_known_secret_and_timestamp() {
    assert_eq!(
        signing_key("s3cr3t", TIMESTAMP),
        "abxCnbjh22775Lwl/4RsKhIqM1f+zNsWz83toPcwN+E="
    );
}

#[test]
fn signing_key_depends_on_secret_and_timestamp_alone() {
    let key = signing_key("s3cr3t", TIMESTAMP);
    assert_ne!(key, signing_key("s3cr3u", TIMESTAMP));
    assert_ne!(key, signing_key("s3cr3t", "20230101T00:00:01+0000"));

    let url = example_url();
    let other_url = ParsedUrl {
        scheme: "http".to_string(),
        host: Some("localhost".to_string()),
        path: "/".to_string(),
    };
    let requests: Vec<(HttpMethod, &ParsedUrl, Option<&[u8]>, &str, &str, &str)> = vec![
        (HttpMethod::Get, &url, None, "access", "client", NONCE),
        (HttpMethod::Post, &url, Some(b"body"), "access", "client", NONCE),
        (HttpMethod::Get, &other_url, None, "other-access", "other-client", NONCE),
        (HttpMethod::Post, &other_url, Some(b""), "a", "c", "00000000-0000-4000-8000-000000000000"),
    ];
    let mut headers = Vec::new();
    for (method, target, body, access, client, nonce) in requests {
        let header =
            sign_with(method, target, body, access, client, "s3cr3t", TIMESTAMP, nonce).unwrap();
        let data = auth_data(client, access, TIMESTAMP, nonce);
        let canonical = canonical_request(method, target, body, &data).unwrap();
        assert_eq!(header, format!("{}signature={}", data, signature(&key, &canonical)));
        headers.push(header);
    }
    for i in 0..headers.len() {
        for j in 0..i {
            assert_ne!(headers[i], headers[j]);
        }
    }
}

#[test]
fn signature_matches_reference_vectors() {
    assert_eq!(
        signature("Jefe", "what do ya want for nothing?"),
        "W9zBRr9gdU5qBCQmCJV1x1oAPwidJzmDnexYuWTsOEM="
    );
    let long_key = "k".repeat(100);
    assert_eq!(
        signature(&long_key, "message"),
        "HChzVBbTIBY/Vvgb27g9ZR7tUI0YTmuLA2YnQKUzKT4="
    );
}

#[test]
fn signature_differs_from_its_inputs() {
    let signed = signature("key", "data");
    assert_ne!(signed, "key");
    assert_ne!(signed, "data");
    assert_eq!(signed.len(), 44);
    assert!(signed.ends_with('='));
}

#[test]
fn body_hash_matches_reference_vectors() {
    assert_eq!(body_hash(b""), "47DEQpj8HBSa+/TImW+5JCeuQeRkm5NMpJWZG3hSuFU=");
    assert_eq!(body_hash(b"hello"), "LPJNul+wow4m6DsqxbninhsWHlwfp0JecwQzYpOLmCQ=");
    assert_eq!(body_hash(b"abc"), "ungWv48Bz+pBQUDeXa4iI7ADYaOWF3qctBD/YfIAFa0=");
}

#[test]
fn body_hash_changes_with_any_byte() {
    let body = b"{\"objects\":[\"news\"]}".to_vec();
    let reference = body_hash(&body);
    for i in 0..body.len() {
        let mut flipped = body.clone();
        flipped[i] ^= 1;
        assert_ne!(body_hash(&flipped), reference);
    }
}

#[test]
fn method_names_are_upper_case() {
    assert_eq!(HttpMethod::Get.to_string(), "GET");
    assert_eq!(HttpMethod::Post.to_string(), "POST");
    assert_eq!(HttpMethod::Get.as_str(), "GET");
    assert_eq!(HttpMethod::Post.as_str(), "POST");
}

#[test]
fn auth_data_has_four_closed_fields_in_order() {
    let data = auth_data("akab-client", "akab-access", TIMESTAMP, NONCE);
    assert_eq!(data, AUTH_DATA);
    let fields: Vec<&str> = data["EG1-HMAC-SHA256 ".len()..].split(';').collect();
    assert_eq!(
        fields,
        vec![
            "client_token=akab-client",
            "access_token=akab-access",
            "timestamp=20230101T00:00:00+0000",
            "nonce=123e4567-e89b-42d3-a456-426614174000",
            "",
        ]
    );
}

#[test]
fn canonical_request_without_body_has_empty_hash_field() {
    let canonical = canonical_request(HttpMethod::Get, &example_url(), None, AUTH_DATA).unwrap();
    assert_eq!(
        canonical,
        format!("GET\thttps\texample.com\t/foo\t\t\t{}", AUTH_DATA)
    );
    let fields: Vec<&str> = canonical.split('\t').collect();
    assert_eq!(fields, vec!["GET", "https", "example.com", "/foo", "", "", AUTH_DATA]);
}

#[test]
fn canonical_request_hashes_an_empty_body() {
    let canonical =
        canonical_request(HttpMethod::Get, &example_url(), Some(b""), AUTH_DATA).unwrap();
    assert_eq!(
        canonical,
        format!(
            "GET\thttps\texample.com\t/foo\t\t47DEQpj8HBSa+/TImW+5JCeuQeRkm5NMpJWZG3hSuFU=\t{}",
            AUTH_DATA
        )
    );
    let absent = canonical_request(HttpMethod::Get, &example_url(), None, AUTH_DATA).unwrap();
    assert_ne!(canonical, absent);
}

#[test]
fn canonical_request_needs_a_host() {
    let url = ParsedUrl { scheme: "mailto".to_string(), host: None, path: "a@b.c".to_string() };
    assert_eq!(
        canonical_request(HttpMethod::Get, &url, None, AUTH_DATA),
        Err(SignError::MissingHost)
    );
}

#[test]
fn get_without_body_matches_reference_header() {
    let header = sign_with(
        HttpMethod::Get,
        &example_url(),
        None,
        "akab-access",
        "akab-client",
        "s3cr3t",
        TIMESTAMP,
        NONCE,
    );
    assert_eq!(
        header,
        Ok(format!("{}signature=6XgLkpsiJlt0GzTwFcQYDuTpf3edKvAAZ7mZR0hmFdU=", AUTH_DATA))
    );
}

#[test]
fn get_with_empty_body_matches_reference_header() {
    let header = sign_with(
        HttpMethod::Get,
        &example_url(),
        Some(b""),
        "akab-access",
        "akab-client",
        "s3cr3t",
        TIMESTAMP,
        NONCE,
    );
    assert_eq!(
        header,
        Ok(format!("{}signature=aDs2v3dV675IYE6QKTfNkk8c0rzWIF1DKhnDzaleci0=", AUTH_DATA))
    );
}

#[test]
fn post_with_body_and_empty_secret_matches_reference_header() {
    let url = ParsedUrl {
        scheme: "http".to_string(),
        host: Some("localhost".to_string()),
        path: "/".to_string(),
    };
    let header = sign_with(HttpMethod::Post, &url, Some(b"{}"), "a", "c", "", TIMESTAMP, NONCE);
    assert_eq!(
        header,
        Ok("EG1-HMAC-SHA256 client_token=c;access_token=a;timestamp=20230101T00:00:00+0000;nonce=123e4567-e89b-42d3-a456-426614174000;signature=Ro2uXg0eHrXCSAtVpXsoCJ3wcGpcG6Czb/V8IXwmbF4=".to_string())
    );
}

#[test]
fn signing_is_deterministic_for_fixed_timestamp_and_nonce() {
    let url = example_url();
    let first = sign_with(HttpMethod::Post, &url, Some(b"body"), "a", "c", "s", TIMESTAMP, NONCE);
    let second = sign_with(HttpMethod::Post, &url, Some(b"body"), "a", "c", "s", TIMESTAMP, NONCE);
    assert!(first.is_ok());
    assert_eq!(first, second);
}

#[test]
fn signature_changes_with_the_body() {
    let url = example_url();
    let one = sign_with(HttpMethod::Post, &url, Some(b"body"), "a", "c", "s", TIMESTAMP, NONCE);
    let other = sign_with(HttpMethod::Post, &url, Some(b"bodz"), "a", "c", "s", TIMESTAMP, NONCE);
    assert_ne!(one, other);
}

#[test]
fn signing_needs_a_host() {
    let url = ParsedUrl { scheme: "data".to_string(), host: None, path: "x".to_string() };
    assert_eq!(
        sign_with(HttpMethod::Get, &url, None, "a", "c", "s", TIMESTAMP, NONCE),
        Err(SignError::MissingHost)
    );
    assert_eq!(
        sign_at(HttpMethod::Get, &url, None, "a", "c", "s", i64::MAX, NONCE),
        Err(SignError::MissingHost)
    );
    assert_eq!(
        authorization_header(HttpMethod::Get, &url, None, "a", "c", "s"),
        Err(SignError::MissingHost)
    );
}

#[test]
fn timestamp_has_the_fixed_form() {
    assert_eq!(timestamp(0), Some("19700101T00:00:00+0000".to_string()));
    assert_eq!(timestamp(1672531200), Some("20230101T00:00:00+0000".to_string()));
    assert_eq!(timestamp(951827696), Some("20000229T12:34:56+0000".to_string()));
    assert_eq!(timestamp(253402300799), Some("99991231T23:59:59+0000".to_string()));
    assert_eq!(timestamp(-1), Some("19691231T23:59:59+0000".to_string()));
}

#[test]
fn timestamp_outside_the_calendar_is_refused() {
    assert_eq!(timestamp(i64::MAX), None);
    assert_eq!(timestamp(i64::MIN), None);
}

#[test]
fn sign_at_uses_the_timestamp_of_the_instant() {
    let header = sign_at(
        HttpMethod::Get,
        &example_url(),
        None,
        "akab-access",
        "akab-client",
        "s3cr3t",
        1672531200,
        NONCE,
    );
    assert_eq!(
        header,
        Ok(format!("{}signature=6XgLkpsiJlt0GzTwFcQYDuTpf3edKvAAZ7mZR0hmFdU=", AUTH_DATA))
    );
}

#[test]
fn sign_at_refuses_an_instant_without_a_date() {
    assert_eq!(
        sign_at(HttpMethod::Get, &example_url(), None, "a", "c", "s", i64::MAX, NONCE),
        Err(SignError::ClockOutOfRange)
    );
}

#[test]
fn authorization_header_carries_fresh_timestamp_and_nonce() {
    let url = example_url();
    let header = authorization_header(HttpMethod::Get, &url, None, "akab-access", "akab-client", "s3cr3t")
        .unwrap();
    let prefix = "EG1-HMAC-SHA256 client_token=akab-client;access_token=akab-access;timestamp=";
    assert!(header.starts_with(prefix));
    let fields: Vec<&str> = header[prefix.len()..].split(';').collect();
    assert_eq!(fields.len(), 3);
    let stamp = fields[0];
    assert_eq!(stamp.len(), 22);
    assert!(stamp.ends_with("+0000"));
    assert_eq!(&stamp[8..9], "T");
    let nonce = fields[1].strip_prefix("nonce=").unwrap();
    assert_eq!(nonce.len(), 36);
    for (i, c) in nonce.chars().enumerate() {
        if i == 8 || i == 13 || i == 18 || i == 23 {
            assert_eq!(c, '-');
        } else {
            assert!(c.is_ascii_digit() || ('a'..='f').contains(&c));
        }
    }
    assert_eq!(nonce.as_bytes()[14], b'4');
    assert!(matches!(nonce.as_bytes()[19], b'8' | b'9' | b'a' | b'b'));
    let signed = fields[2].strip_prefix("signature=").unwrap();
    assert_eq!(signed.len(), 44);
    let expected = sign_with(HttpMethod::Get, &url, None, "akab-access", "akab-client", "s3cr3t", stamp, nonce);
    assert_eq!(expected, Ok(header.clone()));
}

#[test]
fn authorization_header_draws_a_new_nonce_each_time() {
    let url = example_url();
    let one = authorization_header(HttpMethod::Get, &url, None, "a", "c", "s").unwrap();
    let other = authorization_header(HttpMethod::Get, &url, None, "a", "c", "s").unwrap();
    assert_ne!(one, other);
}

#[test]
fn authorization_header_is_given_for_every_url_with_a_host() {
    let urls = vec![
        example_url(),
        ParsedUrl { scheme: "http".to_string(), host: Some("localhost".to_string()), path: "/".to_string() },
        ParsedUrl { scheme: "https".to_string(), host: Some("10.0.0.1".to_string()), path: "".to_string() },
        ParsedUrl { scheme: "".to_string(), host: Some("".to_string()), path: "a\tb;c".to_string() },
    ];
    let bodies: Vec<Option<&[u8]>> = vec![None, Some(b""), Some(b"{\"objects\":[]}")];
    for url in &urls {
        for body in &bodies {
            for method in [HttpMethod::Get, HttpMethod::Post] {
                let header = authorization_header(method, url, *body, "access;1", "client\t2", "");
                let text = header.unwrap();
                assert!(text.starts_with("EG1-HMAC-SHA256 client_token=client\t2;access_token=access;1;timestamp="));
                let signed = &text[text.len() - 44..];
                assert!(signed.ends_with('='));
                assert!(text[..text.len() - 44].ends_with(";signature="));
            }
        }
    }
}

#[test]
fn header_holds_four_semicolons_and_signed_text_six_tabs() {
    let url = example_url();
    let header = sign_at(HttpMethod::Post, &url, Some(b"x"), "access", "client", "s3cr3t", 1672531200, NONCE)
        .unwrap();
    assert_eq!(header.matches(';').count(), 4);
    assert!(!header.ends_with(';'));
    let last = header.rfind(';').unwrap();
    let tail = &header[last + 1..];
    assert!(tail.starts_with("signature="));
    let signed = &tail["signature=".len()..];
    assert_eq!(signed.len(), 44);
    assert!(signed[..43].chars().all(|c| c.is_ascii_alphanumeric() || c == '+' || c == '/'));
    assert!(signed.ends_with('='));
    let data = auth_data("client", "access", TIMESTAMP, NONCE);
    let canonical = canonical_request(HttpMethod::Post, &url, Some(b"x"), &data).unwrap();
    assert_eq!(canonical.matches('\t').count(), 6);
    assert_eq!(header, format!("{}signature={}", data, signature(&signing_key("s3cr3t", TIMESTAMP), &canonical)));
}

#[test]
fn port_of_the_url_is_not_signed() {
    let url = ParsedUrl::parse("https://Example.com:8443/foo?tag=1").unwrap();
    let canonical = canonical_request(HttpMethod::Get, &url, None, AUTH_DATA).unwrap();
    assert_eq!(canonical, format!("GET\thttps\texample.com\t/foo\t\t\t{}", AUTH_DATA));
}
