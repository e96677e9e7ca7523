//! The recipient-validation pipeline: the accept/reject decision for a
//! candidate recipient, combining the static fallback rule with the three
//! API lookups under the fail-open/fail-closed policy.
//!
//! The lookups themselves are network calls made by the caller; each
//! decision point here is a pure function from a lookup's outcome to the
//! next step, so the whole policy is verified for every outcome.

use vstd::prelude::*;

use crate::api_client::{AliasLookupResponse, ApiError, DomainLookupResponse, EmailLookupResponse};
use crate::email_parser::{extract_domain_spec, ParsedEmail};
use crate::strutil::{ends_with_chars, str_to_chars};

verus! {

/// The static fallback rule: accept exactly the configured local domain.
pub open spec fn fallback_decision(recipient: Seq<char>) -> bool {
    "@restmail.org"@.is_suffix_of(recipient)
}

/// The decision once the alias lookup has answered: an error fails open,
/// a confirmed alias is accepted, anything else is unknown and rejected.
pub open spec fn decide_after_alias(a: Result<AliasLookupResponse, ApiError>) -> bool {
    match a {
        Err(_) => true,
        Ok(ar) => ar.is_alias,
    }
}

/// The decision once the email lookup has answered: an error fails open,
/// a confirmed address is accepted, otherwise the alias lookup decides.
pub open spec fn decide_after_email(
    e: Result<EmailLookupResponse, ApiError>,
    a: Result<AliasLookupResponse, ApiError>,
) -> bool {
    match e {
        Err(_) => true,
        Ok(er) => if er.exists {
            true
        } else {
            decide_after_alias(a)
        },
    }
}

/// The decision once the domain lookup has answered: an error fails open,
/// a domain the platform confirms missing or inactive fails closed, and an
/// active domain hands the decision to the email lookup.
pub open spec fn decide_after_domain(
    d: Result<DomainLookupResponse, ApiError>,
    e: Result<EmailLookupResponse, ApiError>,
    a: Result<AliasLookupResponse, ApiError>,
) -> bool {
    match d {
        Err(_) => true,
        Ok(dr) => if !dr.exists || !dr.is_active {
            false
        } else {
            decide_after_email(e, a)
        },
    }
}

/// The whole pipeline's decision for a recipient, given the outcome each
/// lookup would have: without credentials only the fallback rule speaks;
/// with them, an address without `@` is rejected outright, and otherwise
/// the lookups decide in order.
pub open spec fn is_deliverable_spec(
    api_configured: bool,
    recipient: Seq<char>,
    d: Result<DomainLookupResponse, ApiError>,
    e: Result<EmailLookupResponse, ApiError>,
    a: Result<AliasLookupResponse, ApiError>,
) -> bool {
    if !api_configured {
        fallback_decision(recipient)
    } else {
        match extract_domain_spec(recipient) {
            None => false,
            Some(_) => decide_after_domain(d, e, a),
        }
    }
}

/// With the API unconfigured, a recipient is deliverable exactly when its
/// address ends in the configured local domain, whatever any lookup would
/// have answered.
pub proof fn lemma_fallback_policy(
    recipient: Seq<char>,
    d: Result<DomainLookupResponse, ApiError>,
    e: Result<EmailLookupResponse, ApiError>,
    a: Result<AliasLookupResponse, ApiError>,
)
    ensures
        is_deliverable_spec(false, recipient, d, e, a) == "@restmail.org"@.is_suffix_of(recipient),
{
}

/// With the API configured, a recipient whose address has a domain part is
/// deliverable whenever the domain lookup errors: the pipeline fails open,
/// whatever the later lookups would have answered.  (An address without
/// `@` never reaches the domain lookup and is rejected.)
pub proof fn lemma_fail_open_on_domain_error(
    recipient: Seq<char>,
    d: Result<DomainLookupResponse, ApiError>,
    e: Result<EmailLookupResponse, ApiError>,
    a: Result<AliasLookupResponse, ApiError>,
)
    requires
        extract_domain_spec(recipient) is Some,
        d is Err,
    ensures
        is_deliverable_spec(true, recipient, d, e, a),
{
}

/// The first step of a check: the fallback verdict when no credentials
/// are configured, rejection when the address has no domain part, and
/// otherwise the domain to look up.
pub enum StartDecision {
    Decided(bool),
    NeedDomainLookup(String),
}

/// What follows the domain lookup.
pub enum AfterDomain {
    Decided(bool),
    NeedEmailLookup,
}

/// What follows the email lookup.
pub enum AfterEmail {
    Decided(bool),
    NeedAliasLookup,
}

/// The fallback rule, executable: accept exactly addresses of the
/// configured local domain.
pub fn fallback_deliverable(recipient: &str) -> (r: bool)
    ensures
        r == fallback_decision(recipient@),
{
    let chars = str_to_chars(recipient);
    let suffix = str_to_chars("@restmail.org");
    ends_with_chars(&chars, &suffix)
}

/// Begin a recipient check: decide by the fallback rule when the API is
/// unconfigured, reject an address without `@`, and otherwise name the
/// domain whose lookup comes first.
pub fn policy_start(api_configured: bool, recipient: &str) -> (r: StartDecision)
    ensures
        !api_configured ==> r == StartDecision::Decided(fallback_decision(recipient@)),
        api_configured ==> match r {
            StartDecision::Decided(b) => extract_domain_spec(recipient@) is None && b == false,
            StartDecision::NeedDomainLookup(dom) => extract_domain_spec(recipient@) == Some(dom@),
        },
{
    if !api_configured {
        StartDecision::Decided(fallback_deliverable(recipient))
    } else {
        match ParsedEmail::extract_domain(recipient) {
            None => StartDecision::Decided(false),
            Some(dom) => StartDecision::NeedDomainLookup(dom),
        }
    }
}

/// Apply the domain lookup's outcome: fail open on error, fail closed on a
/// confirmed missing or inactive domain, else continue to the email
/// lookup.
pub fn policy_after_domain(result: &Result<DomainLookupResponse, ApiError>) -> (r: AfterDomain)
    ensures
        match *result {
            Err(_) => r == AfterDomain::Decided(true),
            Ok(dr) => if !dr.exists || !dr.is_active {
                r == AfterDomain::Decided(false)
            } else {
                r == AfterDomain::NeedEmailLookup
            },
        },
        r matches AfterDomain::Decided(b) ==> forall|
            e: Result<EmailLookupResponse, ApiError>,
            a: Result<AliasLookupResponse, ApiError>,
        |
            b == decide_after_domain(*result, e, a),
{
    match result {
        Err(_) => AfterDomain::Decided(true),
        Ok(dr) => if !dr.exists || !dr.is_active {
            AfterDomain::Decided(false)
        } else {
            AfterDomain::NeedEmailLookup
        },
    }
}

/// Apply the email lookup's outcome: fail open on error, accept a
/// confirmed address, else continue to the alias lookup.
pub fn policy_after_email(result: &Result<EmailLookupResponse, ApiError>) -> (r: AfterEmail)
    ensures
        match *result {
            Err(_) => r == AfterEmail::Decided(true),
            Ok(er) => if er.exists {
                r == AfterEmail::Decided(true)
            } else {
                r == AfterEmail::NeedAliasLookup
            },
        },
        r matches AfterEmail::Decided(b) ==> forall|a: Result<AliasLookupResponse, ApiError>|
            b == decide_after_email(*result, a),
{
    match result {
        Err(_) => AfterEmail::Decided(true),
        Ok(er) => if er.exists {
            AfterEmail::Decided(true)
        } else {
            AfterEmail::NeedAliasLookup
        },
    }
}

/// Apply the alias lookup's outcome: fail open on error, accept a
/// confirmed alias, and reject a recipient no lookup recognized.
pub fn policy_after_alias(result: &Result<AliasLookupResponse, ApiError>) -> (r: bool)
    ensures
        r == decide_after_alias(*result),
{
    match result {
        Err(_) => true,
        Ok(ar) => ar.is_alias,
    }
}

} // verus!
