use akamai::purge::{purge_body, purge_url};
use akamai::{purge_request, purge_request_at, ParsedUrl, PurgeRequest, SignError};

const NONCE: &str = "123e4567-e89b-42d3-a456-426614174000";

#[test]
fn parse_reads_scheme_host_and_path() {
    let url = ParsedUrl::parse("https://Example.com:8443/a/b?tag=1#top").unwrap();
    assert_eq!(url.scheme, "https");
    assert_eq!(url.host, Some("example.com".to_string()));
    assert_eq!(url.path, "/a/b");
}

#[test]
fn parse_keeps_a_url_without_host() {
    let url = ParsedUrl::parse("mailto:someone@example.com").unwrap();
    assert_eq!(url.scheme, "mailto");
    assert_eq!(url.host, None);
    assert_eq!(url.path, "someone@example.com");
}

#[test]
fn parse_refuses_what_is_no_url() {
    assert_eq!(ParsedUrl::parse("/only/a/path"), Err(SignError::MalformedUrl));
    assert_eq!(ParsedUrl::parse(""), Err(SignError::MalformedUrl));
    assert_eq!(ParsedUrl::parse("https://"), Err(SignError::MalformedUrl));
}

#[test]
fn purge_url_appends_the_endpoint() {
    assert_eq!(
        purge_url("https://akab-host.purge.akamaiapis.net"),
        "https://akab-host.purge.akamaiapis.net/ccu/v3/invalidate/tag/production"
    );
    assert_eq!(purge_url(""), "/ccu/v3/invalidate/tag/production");
}

#[test]
fn purge_body_lists_the_tags_as_objects() {
    let tags = vec!["news".to_string(), "sport".to_string()];
    assert_eq!(purge_body(&tags), "{\"objects\":[\"news\",\"sport\"]}");
    assert_eq!(purge_body(&Vec::new()), "{\"objects\":[]}");
}

#[test]
fn purge_body_escapes_the_tags() {
    let tags = vec!["a\"b".to_string(), "é\n".to_string()];
    assert_eq!(purge_body(&tags), "{\"objects\":[\"a\\\"b\",\"é\\n\"]}");
}

#[test]
fn purge_request_at_matches_reference_header() {
    let tags = vec!["news".to_string(), "sport".to_string()];
    let request = purge_request_at(
        "https://akab-host.purge.akamaiapis.net",
        &tags,
        "akab-access",
        "akab-client",
        "s3cr3t",
        1672531200,
        NONCE,
    );
    assert_eq!(
        request,
        Ok(PurgeRequest {
            url: "https://akab-host.purge.akamaiapis.net/ccu/v3/invalidate/tag/production".to_string(),
            body: "{\"objects\":[\"news\",\"sport\"]}".to_string(),
            authorization: "EG1-HMAC-SHA256 client_token=akab-client;access_token=akab-access;timestamp=20230101T00:00:00+0000;nonce=123e4567-e89b-42d3-a456-426614174000;signature=E2B5lg4OMUQGFekXbIfq8/zu0SXqJv1ykUItFTSwrkQ=".to_string(),
        })
    );
}

#[test]
fn purge_request_at_refuses_a_relative_address() {
    let tags = vec!["news".to_string()];
    assert_eq!(
        purge_request_at("akab-host", &tags, "a", "c", "s", 1672531200, NONCE),
        Err(SignError::MalformedUrl)
    );
}

#[test]
fn purge_request_at_refuses_an_address_without_host() {
    let tags = vec!["news".to_string()];
    assert_eq!(
        purge_request_at("mailto:ops", &tags, "a", "c", "s", 1672531200, NONCE),
        Err(SignError::MissingHost)
    );
}

#[test]
fn purge_request_at_refuses_an_instant_without_a_date() {
    let tags = vec!["news".to_string()];
    assert_eq!(
        purge_request_at("https://akab-host", &tags, "a", "c", "s", i64::MIN, NONCE),
        Err(SignError::ClockOutOfRange)
    );
}

#[test]
fn purge_request_signs_the_post_of_the_body() {
    let tags = vec!["news".to_string()];
    let request = purge_request("https://akab-host", &tags, "a", "c", "s").unwrap();
    assert_eq!(request.url, "https://akab-host/ccu/v3/invalidate/tag/production");
    assert_eq!(request.body, "{\"objects\":[\"news\"]}");
    assert!(request.authorization.starts_with("EG1-HMAC-SHA256 client_token=c;access_token=a;timestamp="));
    assert!(request.authorization.contains(";signature="));
}

#[test]
fn purge_request_refuses_a_relative_address() {
    let tags = vec!["news".to_string()];
    assert_eq!(purge_request("akab-host", &tags, "a", "c", "s"), Err(SignError::MalformedUrl));
}

#[test]
fn purge_request_is_given_for_every_address_with_a_host() {
    for base in ["https://akab-host", "http://localhost:8080", "https://10.0.0.1/base"] {
        for tags in [vec![], vec!["news".to_string()], vec!["a\"b".to_string(), "c;d".to_string()]] {
            let request = purge_request(base, &tags, "a", "c", "s").unwrap();
            assert_eq!(request.url, format!("{}/ccu/v3/invalidate/tag/production", base));
            assert_eq!(request.body, purge_body(&tags));
            assert!(request.authorization.ends_with('='));
        }
    }
}

#[test]
fn purge_request_refuses_an_address_without_host() {
    let tags = vec!["news".to_string()];
    assert_eq!(purge_request("mailto:ops", &tags, "a", "c", "s"), Err(SignError::MissingHost));
}
