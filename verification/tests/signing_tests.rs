use restmail_receiver::api_client::{ApiClient, DomainLookupRequest, EmailLookupRequest, ReceiveEmailRequest};
use restmail_receiver::email_parser::ParsedEmail;

fn test_client() -> ApiClient {
    ApiClient::new(
        "http://localhost:8080".to_string(),
        "srv_test_key".to_string(),
        "test_secret".to_string(),
    )
}

#[test]
fn test_signature_generation() {
    let client = test_client();

    let signature = client.generate_signature(
        1739577600,
        "POST",
        "/internal/lookup/domain",
        r#"{"domain":"example.com"}"#,
    );

    assert!(signature.starts_with("sha256="));
    assert_eq!(signature.len(), 71); // "sha256=" + 64 hex chars
}

#[test]
fn signature_matches_known_value() {
    let client = test_client();
    let signature = client.generate_signature(
        1739577600,
        "POST",
        "/internal/lookup/domain",
        r#"{"domain":"example.com"}"#,
    );
    assert_eq!(
        signature,
        "sha256=cdeda1b058cb128e9ec28bc012cfafcbbf1d9008318b96afb3d63ade47037d79"
    );
}

#[test]
fn signature_is_deterministic() {
    let client = test_client();
    let s1 = client.generate_signature(1739577600, "POST", "/internal/lookup/domain", r#"{"domain":"example.com"}"#);
    let s2 = client.generate_signature(1739577600, "POST", "/internal/lookup/domain", r#"{"domain":"example.com"}"#);
    assert_eq!(s1, s2);
}

#[test]
fn signature_changes_with_the_body() {
    let client = test_client();
    let s1 = client.generate_signature(1739577600, "POST", "/p", r#"{"domain":"a.com"}"#);
    let s2 = client.generate_signature(1739577600, "POST", "/p", r#"{"domain":"b.com"}"#);
    assert_ne!(s1, s2);
}

#[test]
fn build_post_signs_the_exact_body_it_carries() {
    let client = test_client();
    let req = client.lookup_domain_request("example.com", 1739577600);
    assert_eq!(req.url, "http://localhost:8080/internal/lookup/domain");
    assert_eq!(req.body, r#"{"domain":"example.com"}"#);
    assert_eq!(req.service_key, "srv_test_key");
    assert_eq!(req.timestamp, "1739577600");
    assert_eq!(
        req.signature,
        "sha256=cdeda1b058cb128e9ec28bc012cfafcbbf1d9008318b96afb3d63ade47037d79"
    );
}

#[test]
fn lookup_email_request_body() {
    let client = test_client();
    let req = client.lookup_email_request("user+tag@example.com", 7);
    assert_eq!(req.url, "http://localhost:8080/internal/lookup/email");
    assert_eq!(req.body, r#"{"email":"user+tag@example.com"}"#);
    assert_eq!(req.timestamp, "7");
}

#[test]
fn lookup_alias_request_body() {
    let client = test_client();
    let req = client.lookup_alias_request("alias@example.com", 12345);
    assert_eq!(req.url, "http://localhost:8080/internal/lookup/alias");
    assert_eq!(req.body, r#"{"email":"alias@example.com"}"#);
}

#[test]
fn domain_body_escaping_matches_the_reference_serializer() {
    let tricky = "we\"ird\\domain\nwith\tctl\u{1}chars";
    let ours = DomainLookupRequest { domain: tricky.to_string() }.to_json();

    let mut m = serde_json::Map::new();
    m.insert(
        "domain".to_string(),
        serde_json::Value::String(tricky.to_string()),
    );
    let reference = serde_json::to_string(&serde_json::Value::Object(m)).unwrap();
    assert_eq!(ours, reference);
}

#[test]
fn email_body_is_exact() {
    let ours = EmailLookupRequest { email: "a@b".to_string() }.to_json();
    assert_eq!(ours, r#"{"email":"a@b"}"#);
}

#[test]
fn receive_email_body_is_exact() {
    let raw = "From: a@b\r\nTo: c@d\r\nSubject: Hi\r\n\r\nBody";
    let parsed = ParsedEmail::parse_from_data(raw);
    let request = ReceiveEmailRequest::from_parsed(parsed);
    let body = request.to_json();
    assert_eq!(
        body,
        r#"{"from":"a@b","to":["c@d"],"subject":"Hi","body_text":"Body","body_html":null,"headers":{"From":"a@b","To":"c@d","Subject":"Hi"}}"#
    );
}

#[test]
fn receive_email_body_keeps_cc_and_drops_absent_fields() {
    let raw = "From: a@b\r\nTo: c@d\r\nCc: e@f\r\n\r\n";
    let parsed = ParsedEmail::parse_from_data(raw);
    let request = ReceiveEmailRequest::from_parsed(parsed);
    let body = request.to_json();
    assert_eq!(
        body,
        r#"{"from":"a@b","to":["c@d"],"cc":["e@f"],"subject":null,"body_text":null,"body_html":null,"headers":{"From":"a@b","To":"c@d","Cc":"e@f"}}"#
    );
}

#[test]
fn signed_receive_request_hashes_the_transmitted_bytes() {
    // The signature must be over exactly the body placed in the request.
    let client = test_client();
    let raw = "From: a@b\r\nTo: c@d\r\n\r\nhello";
    let parsed = ParsedEmail::parse_from_data(raw);
    let request = ReceiveEmailRequest::from_parsed(parsed);
    let body = request.to_json();
    let req = client.receive_email_request(&request, 42);
    assert_eq!(req.body, body);
    assert_eq!(req.url, "http://localhost:8080/internal/emails/receive");
    let expected = client.generate_signature(42, "POST", "/internal/emails/receive", &body);
    assert_eq!(req.signature, expected);
}
