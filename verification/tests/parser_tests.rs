use restmail_receiver::email_parser::ParsedEmail;

#[test]
fn test_extract_email() {
    assert_eq!(
        ParsedEmail::extract_email("John Doe <john@example.com>"),
        "john@example.com"
    );
    assert_eq!(
        ParsedEmail::extract_email("jane@example.com"),
        "jane@example.com"
    );
}

#[test]
fn test_parse_address_list() {
    let addresses = ParsedEmail::parse_address_list("John <john@example.com>, Jane <jane@example.com>");
    assert_eq!(addresses, vec!["john@example.com", "jane@example.com"]);
}

#[test]
fn test_extract_domain() {
    assert_eq!(
        ParsedEmail::extract_domain("user@example.com"),
        Some("example.com".to_string())
    );
    assert_eq!(ParsedEmail::extract_domain("invalid"), None);
}

#[test]
fn test_normalize_email() {
    assert_eq!(
        ParsedEmail::normalize_email("user+tag@example.com"),
        "user@example.com"
    );
    assert_eq!(
        ParsedEmail::normalize_email("user@example.com"),
        "user@example.com"
    );
}

#[test]
fn test_parse_simple_email() {
    let email_data = "From: sender@example.com\r\nTo: recipient@example.com\r\nSubject: Test\r\n\r\nBody content";
    let parsed = ParsedEmail::parse_from_data(email_data);

    assert_eq!(parsed.from, "sender@example.com");
    assert_eq!(parsed.to, vec!["recipient@example.com"]);
    assert_eq!(parsed.subject, Some("Test".to_string()));
    assert_eq!(parsed.body_text, Some("Body content".to_string()));
}

#[test]
fn extract_domain_is_lowercased() {
    assert_eq!(
        ParsedEmail::extract_domain("user@EXAMPLE.Com"),
        Some("example.com".to_string())
    );
}

#[test]
fn extract_email_without_closing_bracket_falls_back() {
    assert_eq!(ParsedEmail::extract_email("  weird <open "), "weird <open");
}

#[test]
fn extract_email_bracket_closing_first_falls_back() {
    // A `>` before any `<` is not a bracketed address; the trimmed value
    // is returned and nothing panics.
    assert_eq!(ParsedEmail::extract_email(">oops<"), ">oops<");
}

#[test]
fn address_list_drops_empty_entries() {
    let addresses = ParsedEmail::parse_address_list("a@b, , c@d,");
    assert_eq!(addresses, vec!["a@b", "c@d"]);
}

#[test]
fn normalize_email_without_at_passes_through() {
    assert_eq!(ParsedEmail::normalize_email("no-at-sign+tag"), "no-at-sign+tag");
}

#[test]
fn parse_header_continuation_joins_with_space() {
    let email_data = "Subject: a long\r\n\tsubject line\r\n\r\nx";
    let parsed = ParsedEmail::parse_from_data(email_data);
    assert_eq!(parsed.subject, Some("a long subject line".to_string()));
}

#[test]
fn parse_duplicate_header_last_write_wins() {
    let email_data = "X-Flag: 1\r\nX-Flag: 2\r\n\r\nbody";
    let parsed = ParsedEmail::parse_from_data(email_data);
    assert_eq!(parsed.headers.len(), 1);
    let (name, value) = parsed.headers.entry(0);
    assert_eq!(name, "X-Flag");
    assert_eq!(value, "2");
}

#[test]
fn parse_ignores_header_lines_without_a_colon() {
    let email_data = "garbage line\r\nSubject: s\r\n\r\n";
    let parsed = ParsedEmail::parse_from_data(email_data);
    assert_eq!(parsed.subject, Some("s".to_string()));
    assert_eq!(parsed.headers.len(), 1);
}

#[test]
fn parse_cc_and_bcc_lists() {
    let email_data = "From: a@b\r\nCc: One <one@x>, two@y\r\nBcc: three@z\r\n\r\n";
    let parsed = ParsedEmail::parse_from_data(email_data);
    assert_eq!(parsed.cc, vec!["one@x", "two@y"]);
    assert_eq!(parsed.bcc, vec!["three@z"]);
}

#[test]
fn parse_without_body_leaves_body_text_empty() {
    let email_data = "From: a@b\r\nTo: c@d\r\n\r\n";
    let parsed = ParsedEmail::parse_from_data(email_data);
    assert_eq!(parsed.body_text, None);
    assert_eq!(parsed.body_html, None);
}

#[test]
fn parse_header_names_keep_their_case_in_the_mapping() {
    let email_data = "From: a@b\r\nSubject: s\r\n\r\nbody";
    let parsed = ParsedEmail::parse_from_data(email_data);
    assert_eq!(parsed.headers.len(), 2);
    let (n0, v0) = parsed.headers.entry(0);
    assert_eq!(n0, "From");
    assert_eq!(v0, "a@b");
    let (n1, _) = parsed.headers.entry(1);
    assert_eq!(n1, "Subject");
}

#[test]
fn parse_empty_input_yields_empty_message() {
    let parsed = ParsedEmail::parse_from_data("");
    assert_eq!(parsed.from, "");
    assert!(parsed.to.is_empty());
    assert_eq!(parsed.subject, None);
    assert_eq!(parsed.body_text, None);
    assert_eq!(parsed.headers.len(), 0);
}

#[test]
fn new_message_is_empty() {
    let parsed = ParsedEmail::new();
    assert_eq!(parsed.from, "");
    assert!(parsed.to.is_empty());
    assert!(parsed.cc.is_empty());
    assert!(parsed.bcc.is_empty());
    assert_eq!(parsed.subject, None);
    assert_eq!(parsed.body_text, None);
    assert_eq!(parsed.body_html, None);
    assert_eq!(parsed.headers.len(), 0);
}
