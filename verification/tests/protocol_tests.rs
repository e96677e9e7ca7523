use restmail_receiver::api_client::{
    AliasLookupResponse, ApiError, DeliveryResult, DomainLookupResponse, EmailLookupResponse,
    ReceiveEmailResponse,
};
use restmail_receiver::delivery::{
    completion_response, generate_message_filename, greeting_line, Session, SessionAction,
};
use restmail_receiver::pipeline::{
    fallback_deliverable, policy_after_alias, policy_after_domain, policy_after_email,
    policy_start, AfterDomain, AfterEmail, StartDecision,
};
use restmail_receiver::policy::{verdict_line, PolicyQuery, PolicyVerdict};
use restmail_receiver::api_client::classify_http_response;

fn domain_response(exists: bool, is_active: bool) -> DomainLookupResponse {
    DomainLookupResponse {
        exists,
        is_active,
        is_public: false,
        domain_id: None,
    }
}

fn email_response(exists: bool) -> EmailLookupResponse {
    EmailLookupResponse {
        exists,
        normalized_email: None,
        user_id: None,
        email_address_id: None,
        is_primary: None,
        matched_via_plus_addressing: None,
    }
}

fn alias_response(is_alias: bool) -> AliasLookupResponse {
    AliasLookupResponse {
        is_alias,
        normalized_alias: None,
        alias_id: None,
        target_email_address_id: None,
        target_email_address: None,
        user_id: None,
        matched_via_plus_addressing: None,
    }
}

fn transport_error() -> ApiError {
    ApiError::Transport("connection refused".to_string())
}

#[test]
fn fallback_accepts_exactly_the_local_domain() {
    assert!(fallback_deliverable("user@restmail.org"));
    assert!(fallback_deliverable("user+tag@restmail.org"));
    assert!(!fallback_deliverable("user@example.com"));
    assert!(!fallback_deliverable("restmail.org"));
    assert!(!fallback_deliverable(""));
}

#[test]
fn unconfigured_pipeline_uses_only_the_fallback_rule() {
    assert!(matches!(
        policy_start(false, "user@restmail.org"),
        StartDecision::Decided(true)
    ));
    assert!(matches!(
        policy_start(false, "user@example.com"),
        StartDecision::Decided(false)
    ));
}

#[test]
fn configured_pipeline_rejects_an_address_without_domain() {
    assert!(matches!(
        policy_start(true, "invalid"),
        StartDecision::Decided(false)
    ));
}

#[test]
fn configured_pipeline_asks_for_the_lowercased_domain() {
    match policy_start(true, "user@EXAMPLE.Com") {
        StartDecision::NeedDomainLookup(d) => assert_eq!(d, "example.com"),
        _ => panic!("expected a domain lookup"),
    }
}

#[test]
fn domain_lookup_error_fails_open() {
    assert!(matches!(
        policy_after_domain(&Err(transport_error())),
        AfterDomain::Decided(true)
    ));
}

#[test]
fn inactive_or_missing_domain_fails_closed() {
    assert!(matches!(
        policy_after_domain(&Ok(domain_response(false, true))),
        AfterDomain::Decided(false)
    ));
    assert!(matches!(
        policy_after_domain(&Ok(domain_response(true, false))),
        AfterDomain::Decided(false)
    ));
}

#[test]
fn active_domain_continues_to_the_email_lookup() {
    assert!(matches!(
        policy_after_domain(&Ok(domain_response(true, true))),
        AfterDomain::NeedEmailLookup
    ));
}

#[test]
fn email_lookup_outcomes() {
    assert!(matches!(
        policy_after_email(&Err(transport_error())),
        AfterEmail::Decided(true)
    ));
    assert!(matches!(
        policy_after_email(&Ok(email_response(true))),
        AfterEmail::Decided(true)
    ));
    assert!(matches!(
        policy_after_email(&Ok(email_response(false))),
        AfterEmail::NeedAliasLookup
    ));
}

#[test]
fn decode_failure_fails_open_like_any_error() {
    let e: Result<EmailLookupResponse, ApiError> =
        Err(ApiError::Decode("expected value at line 1".to_string()));
    assert!(matches!(policy_after_email(&e), AfterEmail::Decided(true)));
}

#[test]
fn alias_lookup_outcomes() {
    assert!(policy_after_alias(&Err(transport_error())));
    assert!(policy_after_alias(&Ok(alias_response(true))));
    assert!(!policy_after_alias(&Ok(alias_response(false))));
}

#[test]
fn http_status_outside_2xx_is_an_error() {
    match classify_http_response(404, "not found".to_string()) {
        Err(ApiError::HttpStatus(status, body)) => {
            assert_eq!(status, 404);
            assert_eq!(body, "not found");
        }
        _ => panic!("expected an HTTP status error"),
    }
    match classify_http_response(204, "ok".to_string()) {
        Ok(body) => assert_eq!(body, "ok"),
        _ => panic!("expected success"),
    }
}

#[test]
fn policy_query_records_the_last_recipient() {
    let mut q = PolicyQuery::new();
    assert!(!q.step("request=smtpd_access_policy\n"));
    assert!(!q.step("recipient=first@restmail.org\n"));
    assert!(!q.step("recipient=second@restmail.org\n"));
    assert!(q.step("\n"));
    assert_eq!(q.recipient, "second@restmail.org");
}

#[test]
fn policy_query_takes_text_after_the_last_equals_sign() {
    let mut q = PolicyQuery::new();
    assert!(!q.step("recipient=a=b\n"));
    assert_eq!(q.recipient, "b");
}

#[test]
fn verdict_lines_are_exact() {
    assert_eq!(verdict_line(&PolicyVerdict::Accept), "action=OK\n\n");
    assert_eq!(
        verdict_line(&PolicyVerdict::Reject),
        "action=REJECT Email address not found\n\n"
    );
    assert_eq!(
        verdict_line(&PolicyVerdict::Defer),
        "action=DEFER_IF_PERMIT Service temporarily unavailable\n\n"
    );
}

fn reply_of(act: SessionAction) -> String {
    match act {
        SessionAction::Reply(m) => m,
        _ => panic!("expected a plain reply"),
    }
}

#[test]
fn delivery_session_end_to_end_without_api() {
    let mut session = Session::new();
    let mut replies: Vec<String> = Vec::new();

    assert_eq!(greeting_line(), "220 localhost ESMTP Restmail-Receiver\r\n");

    replies.push(reply_of(session.step("EHLO x\r\n")));
    replies.push(reply_of(session.step("MAIL FROM:<a@b>\r\n")));
    replies.push(reply_of(session.step("RCPT TO:<c@d>\r\n")));
    replies.push(reply_of(session.step("DATA\r\n")));
    assert!(matches!(session.step("line one\r\n"), SessionAction::NoReply));
    assert!(matches!(session.step("line two\r\n"), SessionAction::NoReply));
    let data = match session.step(".\r\n") {
        SessionAction::CompleteMessage(d) => d,
        _ => panic!("expected message completion"),
    };
    assert_eq!(data, "line one\r\nline two\r\n");

    // One file name, then the completion reply for a successful local
    // write with no submission attempted.
    let file_name = generate_message_filename();
    assert!(file_name.ends_with(".eml"));
    replies.push(completion_response(None, true));
    let farewell = match session.step("QUIT\r\n") {
        SessionAction::ReplyThenClose(m) => m,
        _ => panic!("expected the session to close"),
    };
    replies.push(farewell);

    assert_eq!(
        replies,
        vec![
            "250 Hello\r\n",
            "250 Ok\r\n",
            "250 Ok\r\n",
            "354 End data with <CR><LF>.<CR><LF>\r\n",
            "250 2.0.0 Ok: Queued\r\n",
            "221 Bye\r\n",
        ]
    );
}

#[test]
fn session_records_trimmed_envelope_lines() {
    let mut session = Session::new();
    session.step("mail from:<A@B>  \r\n");
    session.step("rcpt to:<C@D>\r\n");
    assert_eq!(session.mail_from, "mail from:<A@B>");
    assert_eq!(session.rcpt_to, "rcpt to:<C@D>");
}

#[test]
fn lowercase_commands_are_recognized() {
    let mut session = Session::new();
    let act = session.step("quit\r\n");
    match act {
        SessionAction::ReplyThenClose(m) => assert_eq!(m, "221 Bye\r\n"),
        _ => panic!("expected the session to close"),
    }
}

#[test]
fn data_terminator_tolerates_surrounding_whitespace() {
    let mut session = Session::new();
    session.step("DATA\r\n");
    session.step("body\r\n");
    match session.step(" . \r\n") {
        SessionAction::CompleteMessage(d) => assert_eq!(d, "body\r\n"),
        _ => panic!("expected message completion"),
    }
}

#[test]
fn unknown_command_draws_500() {
    let mut session = Session::new();
    assert_eq!(reply_of(session.step("NOOP\r\n")), "500 Unknown\r\n");
}

fn outcome(successes: usize, failures: usize) -> ReceiveEmailResponse {
    let mut delivered_to = Vec::new();
    for i in 0..successes {
        delivered_to.push(DeliveryResult {
            recipient: format!("ok{}@x", i),
            success: true,
            email_id: None,
            error: None,
        });
    }
    for i in 0..failures {
        delivered_to.push(DeliveryResult {
            recipient: format!("bad{}@x", i),
            success: false,
            email_id: None,
            error: Some("mailbox unavailable".to_string()),
        });
    }
    ReceiveEmailResponse {
        status: "ok".to_string(),
        message: "processed".to_string(),
        delivered_to,
    }
}

#[test]
fn completion_all_recipients_stored_is_queued() {
    let resp = outcome(2, 0);
    assert_eq!(completion_response(Some(&resp), true), "250 2.0.0 Ok: Queued\r\n");
    assert_eq!(completion_response(Some(&resp), false), "250 2.0.0 Ok: Queued\r\n");
}

#[test]
fn completion_partial_outcome_is_partially_queued() {
    let resp = outcome(1, 1);
    assert_eq!(
        completion_response(Some(&resp), true),
        "250 2.0.0 Ok: Partially queued\r\n"
    );
}

#[test]
fn completion_total_failure_degrades_to_file_only() {
    let resp = outcome(0, 2);
    assert_eq!(
        completion_response(Some(&resp), true),
        "250 2.0.0 Ok: Queued (file only)\r\n"
    );
    assert_eq!(
        completion_response(Some(&resp), false),
        "550 5.1.1 Delivery failed\r\n"
    );
}

#[test]
fn completion_without_submission_depends_on_the_file() {
    assert_eq!(completion_response(None, true), "250 2.0.0 Ok: Queued\r\n");
    assert_eq!(
        completion_response(None, false),
        "451 4.3.0 Error: Could not save email\r\n"
    );
}

#[test]
fn filenames_carry_a_fresh_identifier() {
    let a = generate_message_filename();
    let b = generate_message_filename();
    assert!(a.ends_with(".eml"));
    assert!(a.contains('_'));
    assert!(a.len() >= 41);
    assert_ne!(a, b);
}
