//! The signed API client: HMAC-authenticated request construction for the
//! four internal endpoints, and the typed results their responses map to.
//!
//! The signature covers the exact body bytes that are transmitted, so each
//! builder returns a [`SignedRequest`] holding the body it signed; the
//! network send is the caller's concern.

use vstd::prelude::*;

use hmac::Mac;
use sha2::Digest;

use crate::email_parser::{HeaderMap, ParsedEmail};
use crate::json::{
    json_str, json_str_array, json_str_object, json_str_object_inner, push_json_str_array,
    push_json_string, push_json_u64, push_str_chars,
};
use crate::strutil::{chars_to_string, dec_rep, push_all, str_to_chars, u64_to_dec_chars};

verus! {

/// The lowercase-hex SHA-256 digest of the UTF-8 bytes of a string: a
/// function of the characters alone, left unspecified here.
pub uninterp spec fn sha256_hex_of(s: Seq<char>) -> Seq<char>;

/// The lowercase-hex HMAC-SHA-256 of a message under a key, both taken as
/// the UTF-8 bytes of strings: a function of the characters alone.
pub uninterp spec fn hmac_sha256_hex_of(key: Seq<char>, msg: Seq<char>) -> Seq<char>;

/// Relies on `sha2::Sha256`: the digest is 32 bytes, so its `{:x}` form is
/// 64 lowercase hex digits, and it depends on the input alone.
#[verifier::external_body]
fn sha256_hex(s: &str) -> (r: String)
    ensures
        r@ == sha256_hex_of(s@),
        r@.len() == 64,
{
    let mut hasher = sha2::Sha256::new();
    hasher.update(s.as_bytes());
    format!("{:x}", hasher.finalize())
}

/// Relies on `hmac::Hmac<sha2::Sha256>`: `new_from_slice` accepts keys of
/// any length (HMAC pads or hashes the key), so it never fails; the tag is
/// 32 bytes, so its `{:x}` form is 64 lowercase hex digits, and it depends
/// on the key and message alone.
#[verifier::external_body]
fn hmac_sha256_hex(key: &str, msg: &str) -> (r: String)
    ensures
        r@ == hmac_sha256_hex_of(key@, msg@),
        r@.len() == 64,
{
    let mut mac = <hmac::Hmac<sha2::Sha256>>::new_from_slice(key.as_bytes()).unwrap();
    mac.update(msg.as_bytes());
    format!("{:x}", mac.finalize().into_bytes())
}

/// The string that is signed: the decimal timestamp, the method, the path
/// and the body's hash, concatenated with no separators.
pub open spec fn signing_message_of(
    ts: nat,
    method: Seq<char>,
    path: Seq<char>,
    body: Seq<char>,
) -> Seq<char> {
    dec_rep(ts) + method + path + sha256_hex_of(body)
}

/// The signature header value: `sha256=` followed by the lowercase-hex
/// HMAC-SHA-256 of the signing message under the secret key.
pub open spec fn signature_of(
    secret: Seq<char>,
    ts: nat,
    method: Seq<char>,
    path: Seq<char>,
    body: Seq<char>,
) -> Seq<char> {
    "sha256="@ + hmac_sha256_hex_of(secret, signing_message_of(ts, method, path, body))
}

/// Signing is deterministic: the same key, timestamp, method, path and
/// body always yield the same signature, 71 characters long and opening
/// with `sha256=`.
pub proof fn lemma_signature_deterministic(
    secret: Seq<char>,
    ts: nat,
    method: Seq<char>,
    path: Seq<char>,
    body: Seq<char>,
    r1: Seq<char>,
    r2: Seq<char>,
)
    requires
        r1 == signature_of(secret, ts, method, path, body),
        r2 == signature_of(secret, ts, method, path, body),
        hmac_sha256_hex_of(secret, signing_message_of(ts, method, path, body)).len() == 64,
    ensures
        r1 == r2,
        r1.len() == 71,
        r1.subrange(0, 7) == "sha256="@,
{
    reveal_strlit("sha256=");
    assert(r1.subrange(0, 7) =~= "sha256="@);
}

/// Immutable credentials for the internal API, shared by every connection.
#[derive(Debug, Clone)]
pub struct ApiClient {
    pub base_url: String,
    pub service_key: String,
    pub secret_key: String,
}

/// One fully built, signed request: the URL, the exact body that was
/// hashed, and the authentication header values.
pub struct SignedRequest {
    pub url: String,
    pub body: String,
    pub service_key: String,
    pub signature: String,
    pub timestamp: String,
}

/// A request built by `ApiClient::build_post`: its URL appends the path to
/// the base, its signature is computed over the exact body it carries, and
/// its header values echo the credentials and the decimal timestamp.
pub open spec fn is_signed_post(
    r: SignedRequest,
    c: ApiClient,
    ts: nat,
    path: Seq<char>,
    body: Seq<char>,
) -> bool {
    &&& r.url@ == c.base_url@ + path
    &&& r.body@ == body
    &&& r.service_key@ == c.service_key@
    &&& r.signature@ == signature_of(c.secret_key@, ts, "POST"@, path, body)
    &&& r.timestamp@ == dec_rep(ts)
}

impl ApiClient {
    pub fn new(base_url: String, service_key: String, secret_key: String) -> (r: ApiClient)
        ensures
            r.base_url@ == base_url@,
            r.service_key@ == service_key@,
            r.secret_key@ == secret_key@,
    {
        ApiClient { base_url, service_key, secret_key }
    }

    /// The HMAC signature for one request, over the exact body string.
    pub fn generate_signature(&self, timestamp: u64, method: &str, path: &str, body: &str) -> (r:
        String)
        ensures
            r@ == signature_of(self.secret_key@, timestamp as nat, method@, path@, body@),
            r@.len() == 71,
    {
        let body_hash = sha256_hex(body);
        let mut msg = u64_to_dec_chars(timestamp);
        let mv = str_to_chars(method);
        push_all(&mut msg, &mv);
        let pv = str_to_chars(path);
        push_all(&mut msg, &pv);
        let hv = str_to_chars(body_hash.as_str());
        push_all(&mut msg, &hv);
        let msg_str = chars_to_string(&msg);
        assert(msg_str@ == signing_message_of(timestamp as nat, method@, path@, body@));
        let tag = hmac_sha256_hex(self.secret_key.as_str(), msg_str.as_str());
        let mut sig = str_to_chars("sha256=");
        let tv = str_to_chars(tag.as_str());
        push_all(&mut sig, &tv);
        let r = chars_to_string(&sig);
        proof {
            reveal_strlit("sha256=");
        }
        r
    }

    /// Assemble one signed `POST`: sign the given body for the given path
    /// and pack the URL and header values beside it.
    pub fn build_post(&self, path: &str, body: String, timestamp: u64) -> (r: SignedRequest)
        ensures
            is_signed_post(r, *self, timestamp as nat, path@, body@),
    {
        let signature = self.generate_signature(timestamp, "POST", path, body.as_str());
        let mut url = str_to_chars(self.base_url.as_str());
        let pv = str_to_chars(path);
        push_all(&mut url, &pv);
        let ts = u64_to_dec_chars(timestamp);
        SignedRequest {
            url: chars_to_string(&url),
            body,
            service_key: self.service_key.clone(),
            signature,
            timestamp: chars_to_string(&ts),
        }
    }
}

/// Payload of a domain lookup.
pub struct DomainLookupRequest {
    pub domain: String,
}

/// Payload of an email-address lookup.
pub struct EmailLookupRequest {
    pub email: String,
}

/// Payload of an alias lookup.
pub struct AliasLookupRequest {
    pub email: String,
}

/// The JSON body of a domain lookup.
pub open spec fn domain_lookup_body_spec(domain: Seq<char>) -> Seq<char> {
    "{\"domain\":"@ + json_str(domain) + "}"@
}

/// The JSON body of an email or alias lookup.
pub open spec fn email_lookup_body_spec(email: Seq<char>) -> Seq<char> {
    "{\"email\":"@ + json_str(email) + "}"@
}

impl DomainLookupRequest {
    /// The exact JSON this payload serializes to.
    pub fn to_json(&self) -> (r: String)
        ensures
            r@ == domain_lookup_body_spec(self.domain@),
    {
        let mut out: Vec<char> = Vec::new();
        push_str_chars(&mut out, "{\"domain\":");
        push_json_string(&mut out, &self.domain);
        push_str_chars(&mut out, "}");
        chars_to_string(&out)
    }
}

impl EmailLookupRequest {
    /// The exact JSON this payload serializes to.
    pub fn to_json(&self) -> (r: String)
        ensures
            r@ == email_lookup_body_spec(self.email@),
    {
        let mut out: Vec<char> = Vec::new();
        push_str_chars(&mut out, "{\"email\":");
        push_json_string(&mut out, &self.email);
        push_str_chars(&mut out, "}");
        chars_to_string(&out)
    }
}

impl AliasLookupRequest {
    /// The exact JSON this payload serializes to.
    pub fn to_json(&self) -> (r: String)
        ensures
            r@ == email_lookup_body_spec(self.email@),
    {
        let mut out: Vec<char> = Vec::new();
        push_str_chars(&mut out, "{\"email\":");
        push_json_string(&mut out, &self.email);
        push_str_chars(&mut out, "}");
        chars_to_string(&out)
    }
}

/// One attached file, content base64-encoded by the producer.
#[derive(Debug, Clone)]
pub struct Attachment {
    pub filename: String,
    pub content_type: String,
    pub size_bytes: u64,
    pub content: String,
}

/// The value of an attachment, over mathematical sequences.
#[verifier::ext_equal]
pub ghost struct AttachmentView {
    pub filename: Seq<char>,
    pub content_type: Seq<char>,
    pub size_bytes: u64,
    pub content: Seq<char>,
}

impl View for Attachment {
    type V = AttachmentView;

    open spec fn view(&self) -> AttachmentView {
        AttachmentView {
            filename: self.filename@,
            content_type: self.content_type@,
            size_bytes: self.size_bytes,
            content: self.content@,
        }
    }
}

/// The JSON object one attachment serializes to.
pub open spec fn attachment_body_spec(a: AttachmentView) -> Seq<char> {
    "{\"filename\":"@ + json_str(a.filename) + ",\"content_type\":"@ + json_str(a.content_type)
        + ",\"size_bytes\":"@ + dec_rep(a.size_bytes as nat) + ",\"content\":"@ + json_str(
        a.content,
    ) + "}"@
}

/// The comma-separated elements of the attachments array.
pub open spec fn attachments_inner_spec(items: Seq<AttachmentView>) -> Seq<char>
    decreases items.len(),
{
    if items.len() == 0 {
        Seq::empty()
    } else if items.len() == 1 {
        attachment_body_spec(items[0])
    } else {
        attachments_inner_spec(items.drop_last()) + seq![','] + attachment_body_spec(items.last())
    }
}

/// Payload of a message submission.
pub struct ReceiveEmailRequest {
    pub from: String,
    pub to: Vec<String>,
    pub cc: Vec<String>,
    pub bcc: Vec<String>,
    pub subject: Option<String>,
    pub body_text: Option<String>,
    pub body_html: Option<String>,
    pub headers: Option<HeaderMap>,
    pub attachments: Vec<Attachment>,
}

/// The value of a submission payload, over mathematical sequences.
#[verifier::ext_equal]
pub ghost struct ReceiveEmailRequestView {
    pub from: Seq<char>,
    pub to: Seq<Seq<char>>,
    pub cc: Seq<Seq<char>>,
    pub bcc: Seq<Seq<char>>,
    pub subject: Option<Seq<char>>,
    pub body_text: Option<Seq<char>>,
    pub body_html: Option<Seq<char>>,
    pub headers: Option<Seq<(Seq<char>, Seq<char>)>>,
    pub attachments: Seq<AttachmentView>,
}

impl View for ReceiveEmailRequest {
    type V = ReceiveEmailRequestView;

    open spec fn view(&self) -> ReceiveEmailRequestView {
        ReceiveEmailRequestView {
            from: self.from@,
            to: self.to.deep_view(),
            cc: self.cc.deep_view(),
            bcc: self.bcc.deep_view(),
            subject: self.subject.deep_view(),
            body_text: self.body_text.deep_view(),
            body_html: self.body_html.deep_view(),
            headers: match self.headers {
                Some(h) => Some(h@),
                None => None,
            },
            attachments: attachment_views(self.attachments@),
        }
    }
}

/// A JSON string, or `null` for an absent optional field.
pub open spec fn json_opt_str(o: Option<Seq<char>>) -> Seq<char> {
    match o {
        Some(s) => json_str(s),
        None => "null"@,
    }
}

/// The JSON body of a message submission, field for field: `cc`, `bcc` and
/// `attachments` are omitted when empty, `headers` when absent, and the
/// three optional text fields are written as `null` when absent.
pub open spec fn receive_email_body_spec(m: ReceiveEmailRequestView) -> Seq<char> {
    "{\"from\":"@ + json_str(m.from) + ",\"to\":"@ + json_str_array(m.to) + (if m.cc.len() > 0 {
        ",\"cc\":"@ + json_str_array(m.cc)
    } else {
        Seq::empty()
    }) + (if m.bcc.len() > 0 {
        ",\"bcc\":"@ + json_str_array(m.bcc)
    } else {
        Seq::empty()
    }) + ",\"subject\":"@ + json_opt_str(m.subject) + ",\"body_text\":"@ + json_opt_str(
        m.body_text,
    ) + ",\"body_html\":"@ + json_opt_str(m.body_html) + (match m.headers {
        Some(hs) => ",\"headers\":"@ + json_str_object(hs),
        None => Seq::empty(),
    }) + (if m.attachments.len() > 0 {
        ",\"attachments\":["@ + attachments_inner_spec(m.attachments) + "]"@
    } else {
        Seq::empty()
    }) + "}"@
}

/// Append the JSON object a header mapping serializes to.
fn push_json_headers(out: &mut Vec<char>, h: &HeaderMap)
    ensures
        final(out)@ == old(out)@ + json_str_object(h@),
{
    out.push('{');
    let n = h.len();
    let mut i: usize = 0;
    while i < n
        invariant
            0 <= i <= n,
            n == h@.len(),
            out@ == old(out)@ + seq!['{'] + json_str_object_inner(h@.take(i as int)),
        decreases n - i,
    {
        if i > 0 {
            out.push(',');
        }
        let (name, value) = h.entry(i);
        push_json_string(out, name);
        out.push(':');
        push_json_string(out, value);
        proof {
            let t = h@.take(i + 1);
            assert(t.drop_last() == h@.take(i as int));
            assert(t.last() == h@[i as int]);
            if i == 0 {
                assert(json_str_object_inner(t) == json_str(h@[0].0) + seq![':'] + json_str(
                    h@[0].1,
                ));
            } else {
                assert(json_str_object_inner(t) == json_str_object_inner(h@.take(i as int)) + seq![
                    ',',
                ] + json_str(h@[i as int].0) + seq![':'] + json_str(h@[i as int].1));
            }
            assert(out@ =~= old(out)@ + seq!['{'] + json_str_object_inner(t));
        }
        i = i + 1;
    }
    out.push('}');
    proof {
        assert(h@.take(n as int) == h@);
        assert(final(out)@ =~= old(out)@ + json_str_object(h@));
    }
}

/// Append a JSON string, or `null` when the field is absent.
fn push_json_opt(out: &mut Vec<char>, o: &Option<String>)
    ensures
        final(out)@ == old(out)@ + json_opt_str(o.deep_view()),
{
    match o {
        Some(s) => push_json_string(out, s),
        None => push_str_chars(out, "null"),
    }
}

/// Append `,"cc":` (or the given label) and the array, or nothing when the
/// list is empty.
fn push_array_field_if_nonempty(out: &mut Vec<char>, label: &str, items: &Vec<String>)
    ensures
        final(out)@ == old(out)@ + (if items.deep_view().len() > 0 {
            label@ + json_str_array(items.deep_view())
        } else {
            Seq::<char>::empty()
        }),
{
    if items.len() > 0 {
        push_str_chars(out, label);
        push_json_str_array(out, items);
    }
    proof {
        if items.deep_view().len() == 0 {
            assert(final(out)@ =~= old(out)@ + Seq::<char>::empty());
        }
    }
}

/// Append the JSON object one attachment serializes to.
fn push_json_attachment(out: &mut Vec<char>, a: &Attachment)
    ensures
        final(out)@ == old(out)@ + attachment_body_spec(a@),
{
    push_str_chars(out, "{\"filename\":");
    push_json_string(out, &a.filename);
    push_str_chars(out, ",\"content_type\":");
    push_json_string(out, &a.content_type);
    push_str_chars(out, ",\"size_bytes\":");
    push_json_u64(out, a.size_bytes);
    push_str_chars(out, ",\"content\":");
    push_json_string(out, &a.content);
    push_str_chars(out, "}");
    proof {
        assert(final(out)@ =~= old(out)@ + attachment_body_spec(a@));
    }
}

/// The views of a vector of attachments.
pub open spec fn attachment_views(items: Seq<Attachment>) -> Seq<AttachmentView> {
    Seq::new(items.len(), |i: int| items[i]@)
}

/// Append `,"headers":` and the mapping's object, or nothing when absent.
fn push_headers_field(out: &mut Vec<char>, h: &Option<HeaderMap>)
    ensures
        final(out)@ == old(out)@ + (match h {
            Some(hm) => ",\"headers\":"@ + json_str_object(hm@),
            None => Seq::<char>::empty(),
        }),
{
    match h {
        Some(hm) => {
            push_str_chars(out, ",\"headers\":");
            push_json_headers(out, hm);
        },
        None => {
            proof {
                assert(final(out)@ =~= old(out)@ + Seq::<char>::empty());
            }
        },
    }
}

/// Append `,"attachments":` and the array, or nothing when the list is
/// empty.
fn push_attachments_field(out: &mut Vec<char>, items: &Vec<Attachment>)
    ensures
        final(out)@ == old(out)@ + (if attachment_views(items@).len() > 0 {
            ",\"attachments\":["@ + attachments_inner_spec(attachment_views(items@)) + "]"@
        } else {
            Seq::<char>::empty()
        }),
{
    let ghost all = attachment_views(items@);
    let na = items.len();
    if na == 0 {
        proof {
            assert(final(out)@ =~= old(out)@ + Seq::<char>::empty());
        }
        return ;
    }
    push_str_chars(out, ",\"attachments\":[");
    let ghost base = out@;
    let mut i: usize = 0;
    while i < na
        invariant
            0 < i <= na || i == 0,
            na == items@.len(),
            all == attachment_views(items@),
            out@ == base + attachments_inner_spec(all.take(i as int)),
        decreases na - i,
    {
        if i > 0 {
            out.push(',');
        }
        push_json_attachment(out, &items[i]);
        proof {
            let t = all.take(i + 1);
            assert(t.drop_last() == all.take(i as int));
            assert(t.last() == all[i as int]);
            assert(items@[i as int]@ == all[i as int]);
            if i == 0 {
                assert(attachments_inner_spec(t) == attachment_body_spec(all[0]));
            } else {
                assert(attachments_inner_spec(t) == attachments_inner_spec(all.take(i as int))
                    + seq![','] + attachment_body_spec(all[i as int]));
            }
            assert(out@ =~= base + attachments_inner_spec(t));
        }
        i = i + 1;
    }
    push_str_chars(out, "]");
    proof {
        assert(all.take(na as int) == all);
        assert(final(out)@ =~= old(out)@ + (",\"attachments\":["@ + attachments_inner_spec(all)
            + "]"@));
    }
}

impl ReceiveEmailRequest {
    /// The submission payload for a parsed message: the structured fields
    /// move over, the header mapping rides along, and no attachments are
    /// extracted.
    pub fn from_parsed(email: ParsedEmail) -> (r: ReceiveEmailRequest)
        ensures
            r@.from == email@.from,
            r@.to == email@.to,
            r@.cc == email@.cc,
            r@.bcc == email@.bcc,
            r@.subject == email@.subject,
            r@.body_text == email@.body_text,
            r@.body_html == email@.body_html,
            r@.headers == Some(email@.headers),
            r@.attachments.len() == 0,
    {
        let r = ReceiveEmailRequest {
            from: email.from,
            to: email.to,
            cc: email.cc,
            bcc: email.bcc,
            subject: email.subject,
            body_text: email.body_text,
            body_html: email.body_html,
            headers: Some(email.headers),
            attachments: Vec::new(),
        };
        proof {
            assert(r@.attachments =~= Seq::<AttachmentView>::empty());
        }
        r
    }

    /// The exact JSON this payload serializes to.
    #[verifier::rlimit(60)]
    pub fn to_json(&self) -> (r: String)
        ensures
            r@ == receive_email_body_spec(self@),
    {
        let mut out: Vec<char> = Vec::new();
        push_str_chars(&mut out, "{\"from\":");
        push_json_string(&mut out, &self.from);
        push_str_chars(&mut out, ",\"to\":");
        push_json_str_array(&mut out, &self.to);
        push_array_field_if_nonempty(&mut out, ",\"cc\":", &self.cc);
        push_array_field_if_nonempty(&mut out, ",\"bcc\":", &self.bcc);
        push_str_chars(&mut out, ",\"subject\":");
        push_json_opt(&mut out, &self.subject);
        push_str_chars(&mut out, ",\"body_text\":");
        push_json_opt(&mut out, &self.body_text);
        push_str_chars(&mut out, ",\"body_html\":");
        push_json_opt(&mut out, &self.body_html);
        push_headers_field(&mut out, &self.headers);
        push_attachments_field(&mut out, &self.attachments);
        push_str_chars(&mut out, "}");
        proof {
            assert(out@ =~= receive_email_body_spec(self@));
        }
        chars_to_string(&out)
    }
}

impl ApiClient {
    /// The signed request that asks whether a domain exists and is active.
    pub fn lookup_domain_request(&self, domain: &str, timestamp: u64) -> (r: SignedRequest)
        ensures
            is_signed_post(
                r,
                *self,
                timestamp as nat,
                "/internal/lookup/domain"@,
                domain_lookup_body_spec(domain@),
            ),
    {
        let payload = DomainLookupRequest { domain: domain.to_owned() };
        self.build_post("/internal/lookup/domain", payload.to_json(), timestamp)
    }

    /// The signed request that asks whether an email address exists.
    pub fn lookup_email_request(&self, email: &str, timestamp: u64) -> (r: SignedRequest)
        ensures
            is_signed_post(
                r,
                *self,
                timestamp as nat,
                "/internal/lookup/email"@,
                email_lookup_body_spec(email@),
            ),
    {
        let payload = EmailLookupRequest { email: email.to_owned() };
        self.build_post("/internal/lookup/email", payload.to_json(), timestamp)
    }

    /// The signed request that asks whether an address is an alias.
    pub fn lookup_alias_request(&self, email: &str, timestamp: u64) -> (r: SignedRequest)
        ensures
            is_signed_post(
                r,
                *self,
                timestamp as nat,
                "/internal/lookup/alias"@,
                email_lookup_body_spec(email@),
            ),
    {
        let payload = AliasLookupRequest { email: email.to_owned() };
        self.build_post("/internal/lookup/alias", payload.to_json(), timestamp)
    }

    /// The signed request that submits a received message.
    pub fn receive_email_request(&self, request: &ReceiveEmailRequest, timestamp: u64) -> (r:
        SignedRequest)
        ensures
            is_signed_post(
                r,
                *self,
                timestamp as nat,
                "/internal/emails/receive"@,
                receive_email_body_spec(request@),
            ),
    {
        self.build_post("/internal/emails/receive", request.to_json(), timestamp)
    }
}

/// Typed result of a domain lookup.
#[derive(Debug)]
pub struct DomainLookupResponse {
    pub exists: bool,
    pub is_active: bool,
    pub is_public: bool,
    pub domain_id: Option<String>,
}

/// Typed result of an email-address lookup.
#[derive(Debug)]
pub struct EmailLookupResponse {
    pub exists: bool,
    pub normalized_email: Option<String>,
    pub user_id: Option<String>,
    pub email_address_id: Option<String>,
    pub is_primary: Option<bool>,
    pub matched_via_plus_addressing: Option<bool>,
}

/// Typed result of an alias lookup.
#[derive(Debug)]
pub struct AliasLookupResponse {
    pub is_alias: bool,
    pub normalized_alias: Option<String>,
    pub alias_id: Option<String>,
    pub target_email_address_id: Option<String>,
    pub target_email_address: Option<String>,
    pub user_id: Option<String>,
    pub matched_via_plus_addressing: Option<bool>,
}

/// Outcome for one recipient of a submitted message.
#[derive(Debug)]
pub struct DeliveryResult {
    pub recipient: String,
    pub success: bool,
    pub email_id: Option<String>,
    pub error: Option<String>,
}

/// Typed result of a message submission.
#[derive(Debug)]
pub struct ReceiveEmailResponse {
    pub status: String,
    pub message: String,
    pub delivered_to: Vec<DeliveryResult>,
}

/// Why an API call failed: the connection or request itself broke, the
/// server answered outside the 2xx range, or its body did not decode.
#[derive(Debug)]
pub enum ApiError {
    Transport(String),
    HttpStatus(u16, String),
    Decode(String),
}

/// Accept a 2xx response body, and turn any other status into the error
/// that carries the status and the body text.
pub fn classify_http_response(status: u16, body: String) -> (r: Result<String, ApiError>)
    ensures
        match r {
            Ok(b) => 200 <= status < 300 && b@ == body@,
            Err(e) => {
                &&& !(200 <= status < 300)
                &&& e matches ApiError::HttpStatus(s, b)
                &&& s == status
                &&& b@ == body@
            },
        },
{
    if 200 <= status && status < 300 {
        Ok(body)
    } else {
        Err(ApiError::HttpStatus(status, body))
    }
}

} // verus!
