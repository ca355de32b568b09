//! submit-onboarding: files the supplier record with the buyer's procurement
//! system, without the contract ever holding the submitter's personal data.
//!
//! The body is built with `{{profile.<field>}}` markers. The host resolves them
//! inside the enclave, at dispatch time, from the calling user's verified
//! profile — and only if that user has authorised this agent for this function
//! and this host. From this module's point of view the name and email are never
//! more than literal template strings.
use vstd::prelude::*;
use crate::common::{config_choice, config_or, lookup_view};
use crate::http::HttpReply;
use crate::json::{decode_json, field, json_decode, lemma_member_at, str_of, Json};
use crate::text::{
    chars_of, concat2, concat3, copy_str, decimal, decimal_string, has_substring, is_blank,
    string_of, trim_chars,
};

verus! {

/// Where the record goes when the tenant has not configured an endpoint.
/// httpbin echoes the request back, which makes the placeholder substitution
/// visible end to end during a demo or a smoke test.
pub const DEFAULT_ONBOARDING_URL: &'static str = "https://httpbin.org/post";

pub const DEFAULT_ONBOARDING_HOST: &'static str = "httpbin.org";

/// KV key in the tenant `config` map that overrides the endpoint.
pub const ONBOARDING_URL_KEY: &'static str = "onboarding_url";

#[derive(Debug, Clone)]
pub struct OnboardingReq {
    pub legal_name: String,
    pub lei: Option<String>,
    pub vat_number: Option<String>,
    /// Verdict carried over from `run-kyb-check`.
    pub verdict: String,
    pub risk_score: u32,
}

#[derive(Debug, Clone)]
pub struct OnboardingResp {
    pub submitted: bool,
    pub status_code: u16,
    /// Reference id echoed by the procurement system, when it returns one.
    pub reference: String,
    pub endpoint_host: String,
}

// ---------------------------------------------------------------------------
// The payload
// ---------------------------------------------------------------------------

/// The member names of an object, in order.
pub open spec fn member_names(entries: Seq<(String, Json)>) -> Seq<Seq<char>> {
    entries.map_values(|e: (String, Json)| e.0@)
}

/// `value` is an object whose members are named `names`, in this order.
pub open spec fn object_with(value: Json, names: Seq<Seq<char>>) -> bool {
    value matches Json::Object(entries) && member_names(entries@) == names
}

/// `value` is the string `s`.
pub open spec fn is_text(value: Json, s: Seq<char>) -> bool {
    str_of(value) == Some(s)
}

/// A `{{profile.<field>}}` placeholder: resolved by the host, never a value.
pub open spec fn is_profile_marker(s: Seq<char>) -> bool {
    &&& s.len() >= "{{profile."@.len() + "}}"@.len()
    &&& s.subrange(0, "{{profile."@.len() as int) == "{{profile."@
    &&& s.subrange(s.len() - "}}"@.len(), s.len() as int) == "}}"@
}

pub open spec fn text_or_empty(s: Option<String>) -> Seq<char> {
    match s {
        Some(v) => v@,
        None => Seq::empty(),
    }
}

/// The onboarding body for `req`: the supplier's company data, passed through
/// verbatim, and the submitter as three profile markers.
pub open spec fn payload_spec(req: OnboardingReq, body: Json) -> bool {
    let supplier = field(body, "supplier"@);
    let submitted_by = field(body, "submitted_by"@);
    &&& object_with(body, seq!["source"@, "supplier"@, "submitted_by"@])
    &&& is_text(field(body, "source"@), "t3n-kyb-agent"@)
    &&& object_with(
        supplier,
        seq!["legal_name"@, "lei"@, "vat_number"@, "kyb_verdict"@, "kyb_risk_score"@],
    )
    &&& is_text(field(supplier, "legal_name"@), req.legal_name@)
    &&& is_text(field(supplier, "lei"@), text_or_empty(req.lei))
    &&& is_text(field(supplier, "vat_number"@), text_or_empty(req.vat_number))
    &&& is_text(field(supplier, "kyb_verdict"@), req.verdict@)
    &&& field(supplier, "kyb_risk_score"@) matches Json::Number(n) && n@ == decimal(
        req.risk_score as nat,
    )
    &&& object_with(submitted_by, seq!["first_name"@, "last_name"@, "email"@])
    &&& is_text(field(submitted_by, "first_name"@), "{{profile.first_name}}"@)
    &&& is_text(field(submitted_by, "last_name"@), "{{profile.last_name}}"@)
    &&& is_text(field(submitted_by, "email"@), "{{profile.verified_contacts.email.value}}"@)
}

fn text(s: &str) -> (r: Json)
    ensures
        str_of(r) == Some(s@),
{
    Json::Str(copy_str(s))
}

fn member(name: &str, value: Json) -> (r: (String, Json))
    ensures
        r.0@ == name@,
        r.1 == value,
{
    (copy_str(name), value)
}

fn text_or_default(s: &Option<String>) -> (r: Json)
    ensures
        str_of(r) == Some(text_or_empty(*s)),
{
    match s {
        Some(v) => Json::Str(v.clone()),
        None => Json::Str(String::new()),
    }
}

/// Builds the onboarding payload.
///
/// The three `{{profile.*}}` markers are the whole point of this function:
/// no real personal data can be smuggled in beside them; everything else in
/// the body is company data.
pub fn build_payload(req: &OnboardingReq) -> (r: Json)
    ensures
        payload_spec(*req, r),
{
    let mut supplier: Vec<(String, Json)> = Vec::new();
    supplier.push(member("legal_name", Json::Str(req.legal_name.clone())));
    supplier.push(member("lei", text_or_default(&req.lei)));
    supplier.push(member("vat_number", text_or_default(&req.vat_number)));
    supplier.push(member("kyb_verdict", Json::Str(req.verdict.clone())));
    supplier.push(
        member("kyb_risk_score", Json::Number(decimal_string(req.risk_score as u64))),
    );
    // Resolved by the host inside the enclave; never present in WASM memory.
    let mut submitted_by: Vec<(String, Json)> = Vec::new();
    submitted_by.push(member("first_name", text("{{profile.first_name}}")));
    submitted_by.push(member("last_name", text("{{profile.last_name}}")));
    submitted_by.push(member("email", text("{{profile.verified_contacts.email.value}}")));
    let mut body: Vec<(String, Json)> = Vec::new();
    body.push(member("source", text("t3n-kyb-agent")));
    body.push(member("supplier", Json::Object(supplier)));
    body.push(member("submitted_by", Json::Object(submitted_by)));
    let r = Json::Object(body);
    proof {
        reveal_strlit("source");
        reveal_strlit("supplier");
        reveal_strlit("submitted_by");
        reveal_strlit("legal_name");
        reveal_strlit("lei");
        reveal_strlit("vat_number");
        reveal_strlit("kyb_verdict");
        reveal_strlit("kyb_risk_score");
        reveal_strlit("first_name");
        reveal_strlit("last_name");
        reveal_strlit("email");
        assert(member_names(body@) =~= seq!["source"@, "supplier"@, "submitted_by"@]);
        assert(member_names(supplier@) =~= seq![
            "legal_name"@,
            "lei"@,
            "vat_number"@,
            "kyb_verdict"@,
            "kyb_risk_score"@,
        ]);
        assert(member_names(submitted_by@) =~= seq!["first_name"@, "last_name"@, "email"@]);
        assert(body@[0].0@ == "source"@);
        assert(body@[1].0@ == "supplier"@);
        assert("source"@.len() != "supplier"@.len());
        assert("source"@.len() != "submitted_by"@.len());
        assert("supplier"@.len() != "submitted_by"@.len());
        assert("legal_name"@.len() != "lei"@.len());
        assert("legal_name"@[0] != "vat_number"@[0]);
        assert("lei"@.len() != "vat_number"@.len());
        assert("legal_name"@.len() != "kyb_verdict"@.len());
        assert("lei"@.len() != "kyb_verdict"@.len());
        assert("vat_number"@.len() != "kyb_verdict"@.len());
        assert("legal_name"@.len() != "kyb_risk_score"@.len());
        assert("lei"@.len() != "kyb_risk_score"@.len());
        assert("vat_number"@.len() != "kyb_risk_score"@.len());
        assert("kyb_verdict"@.len() != "kyb_risk_score"@.len());
        assert("first_name"@.len() != "last_name"@.len());
        assert("first_name"@.len() != "email"@.len());
        assert("last_name"@.len() != "email"@.len());
        lemma_member_at(body@, "source"@, 0);
        lemma_member_at(body@, "supplier"@, 1);
        lemma_member_at(body@, "submitted_by"@, 2);
        lemma_member_at(supplier@, "legal_name"@, 0);
        lemma_member_at(supplier@, "lei"@, 1);
        lemma_member_at(supplier@, "vat_number"@, 2);
        lemma_member_at(supplier@, "kyb_verdict"@, 3);
        lemma_member_at(supplier@, "kyb_risk_score"@, 4);
        lemma_member_at(submitted_by@, "first_name"@, 0);
        lemma_member_at(submitted_by@, "last_name"@, 1);
        lemma_member_at(submitted_by@, "email"@, 2);
    }
    r
}


// ---------------------------------------------------------------------------
// The endpoint host
// ---------------------------------------------------------------------------

/// Index of the first character of `s` satisfying `p`, or `s.len()`.
pub open spec fn first_match(s: Seq<char>, p: spec_fn(char) -> bool) -> int
    decreases s.len(),
{
    if s.len() == 0 {
        0
    } else if p(s[0]) {
        0
    } else {
        1 + first_match(s.drop_first(), p)
    }
}

/// Index of the last character of `s` satisfying `p`, or -1.
pub open spec fn last_match(s: Seq<char>, p: spec_fn(char) -> bool) -> int
    decreases s.len(),
{
    if s.len() == 0 {
        -1
    } else if p(s.last()) {
        s.len() - 1
    } else {
        last_match(s.drop_last(), p)
    }
}

/// Index of the first occurrence of `pat` in `s`: `str::find` with a string.
pub open spec fn find_text(s: Seq<char>, pat: Seq<char>) -> Option<int>
    decreases s.len(),
{
    if s.len() < pat.len() {
        None
    } else if s.subrange(0, pat.len() as int) == pat {
        Some(0)
    } else if s.len() == 0 {
        None
    } else {
        match find_text(s.drop_first(), pat) {
            Some(i) => Some(i + 1),
            None => None,
        }
    }
}

pub open spec fn ends_authority(c: char) -> bool {
    c == '/' || c == '?' || c == '#'
}

/// The hostname in a URL: the scheme dropped, then everything from the first
/// `/`, `?` or `#`, then any user info up to the last `@`, then the port.
pub open spec fn host_spec(url: Seq<char>) -> Seq<char> {
    let rest = match find_text(url, "://"@) {
        Some(i) => url.subrange(i + 3, url.len() as int),
        None => url,
    };
    let authority = rest.subrange(0, first_match(rest, |c: char| ends_authority(c)));
    let host_port = authority.subrange(
        last_match(authority, |c: char| c == '@') + 1,
        authority.len() as int,
    );
    host_port.subrange(0, first_match(host_port, |c: char| c == ':'))
}

proof fn lemma_first_match(s: Seq<char>, p: spec_fn(char) -> bool, i: int)
    requires
        0 <= i <= s.len(),
        forall|k: int| 0 <= k < i ==> !p(#[trigger] s[k]),
        i < s.len() ==> p(s[i]),
    ensures
        first_match(s, p) == i,
    decreases i,
{
    if i > 0 {
        assert forall|k: int| 0 <= k < i - 1 implies !p(#[trigger] s.drop_first()[k]) by {
            assert(s.drop_first()[k] == s[k + 1]);
        }
        lemma_first_match(s.drop_first(), p, i - 1);
    }
}

proof fn lemma_last_match(s: Seq<char>, p: spec_fn(char) -> bool, j: int)
    requires
        -1 <= j < s.len(),
        forall|k: int| j < k < s.len() ==> !p(#[trigger] s[k]),
        j >= 0 ==> p(s[j]),
    ensures
        last_match(s, p) == j,
    decreases s.len(),
{
    if s.len() > 0 && j < s.len() - 1 {
        assert forall|k: int| j < k < s.drop_last().len() implies !p(#[trigger] s.drop_last()[k]) by {
            assert(s.drop_last()[k] == s[k]);
        }
        lemma_last_match(s.drop_last(), p, j);
    }
}

proof fn lemma_find_text(s: Seq<char>, pat: Seq<char>, i: int)
    requires
        0 <= i,
        i + pat.len() <= s.len() ==> s.subrange(i, i + pat.len()) == pat,
        forall|k: int| 0 <= k < i && k + pat.len() <= s.len() ==> #[trigger] s.subrange(k, k + pat.len()) != pat,
        i + pat.len() > s.len() ==> i >= s.len() || pat.len() > s.len() - i,
    ensures
        find_text(s, pat) == (if i + pat.len() <= s.len() {
            Some(i)
        } else {
            None::<int>
        }),
    decreases s.len(),
{
    if s.len() < pat.len() {
    } else if s.subrange(0, pat.len() as int) == pat {
        if i > 0 {
            assert(s.subrange(0int, 0int + pat.len()) == pat);
        }
    } else if s.len() == 0 {
    } else {
        let t = s.drop_first();
        assert(i > 0);
        assert forall|k: int| 0 <= k < i - 1 && k + pat.len() <= t.len() implies #[trigger] t.subrange(k, k + pat.len()) != pat by {
            assert(t.subrange(k, k + pat.len()) == s.subrange(k + 1, k + 1 + pat.len()));
        }
        if i + pat.len() <= s.len() {
            assert(t.subrange(i - 1, i - 1 + pat.len()) == s.subrange(i, i + pat.len()));
        }
        lemma_find_text(t, pat, i - 1);
    }
}

fn slice_chars(s: &Vec<char>, from: usize, to: usize) -> (r: Vec<char>)
    requires
        from <= to <= s@.len(),
    ensures
        r@ == s@.subrange(from as int, to as int),
{
    let mut out: Vec<char> = Vec::new();
    let mut k = from;
    while k < to
        invariant
            from <= k <= to <= s@.len(),
            out@ == s@.subrange(from as int, k as int),
        decreases to - k,
    {
        out.push(s[k]);
        assert(s@.subrange(from as int, k + 1) =~= s@.subrange(from as int, k as int).push(
            s@[k as int],
        ));
        k = k + 1;
    }
    out
}

fn strip_scheme(url: &Vec<char>) -> (r: Vec<char>)
    ensures
        r@ == match find_text(url@, "://"@) {
            Some(i) => url@.subrange(i + 3, url@.len() as int),
            None => url@,
        },
{
    let sep = chars_of("://");
    proof {
        reveal_strlit("://");
    }
    let n = url.len();
    if n < 3 {
        proof {
            lemma_find_text(url@, sep@, n as int);
        }
        return slice_chars(url, 0, n);
    }
    let mut i: usize = 0;
    assert(sep@[0] == ':' && sep@[1] == '/' && sep@[2] == '/');
    while i < n - 2
        invariant
            n == url@.len(),
            n >= 3,
            sep@ == "://"@,
            sep@.len() == 3,
            sep@[0] == ':',
            sep@[1] == '/',
            sep@[2] == '/',
            i + 3 <= n + 1,
            forall|k: int| 0 <= k < i && k + 3 <= n ==> #[trigger] url@.subrange(k, k + 3) != sep@,
        decreases n - i,
    {
        if url[i] == ':' && url[i + 1] == '/' && url[i + 2] == '/' {
            assert(url@.subrange(i as int, i + 3) =~= sep@);
            proof {
                lemma_find_text(url@, sep@, i as int);
            }
            return slice_chars(url, i + 3, n);
        }
        assert(url@.subrange(i as int, i + 3) != sep@) by {
            if url@.subrange(i as int, i + 3) == sep@ {
                assert(url@.subrange(i as int, i + 3)[0] == url@[i as int]);
                assert(url@.subrange(i as int, i + 3)[1] == url@[i + 1]);
                assert(url@.subrange(i as int, i + 3)[2] == url@[i + 2]);
            }
        }
        i = i + 1;
    }
    proof {
        lemma_find_text(url@, sep@, i as int);
    }
    slice_chars(url, 0, n)
}

/// Extracts the hostname from a URL, for error messages and egress diagnostics.
///
/// An `egress_denied` failure is the single most common first-run error, and it
/// is far easier to fix when the message names the host that must be added to
/// the grant.
pub fn host_of(url: &str) -> (r: String)
    ensures
        r@ == host_spec(url@),
{
    let all = chars_of(url);
    let rest = strip_scheme(&all);
    let n = rest.len();
    let mut a: usize = 0;
    while a < n && !(rest[a] == '/' || rest[a] == '?' || rest[a] == '#')
        invariant
            n == rest@.len(),
            a <= n,
            forall|k: int| 0 <= k < a ==> !ends_authority(#[trigger] rest@[k]),
        decreases n - a,
    {
        a = a + 1;
    }
    proof {
        lemma_first_match(rest@, |c: char| ends_authority(c), a as int);
    }
    let authority = slice_chars(&rest, 0, a);
    let mut j: usize = a;
    while j > 0 && authority[j - 1] != '@'
        invariant
            a == authority@.len(),
            j <= a,
            forall|k: int| j <= k < a ==> #[trigger] authority@[k] != '@',
        decreases j,
    {
        j = j - 1;
    }
    proof {
        lemma_last_match(authority@, |c: char| c == '@', j - 1);
    }
    let host_port = slice_chars(&authority, j, a);
    let m = host_port.len();
    let mut h: usize = 0;
    while h < m && host_port[h] != ':'
        invariant
            m == host_port@.len(),
            h <= m,
            forall|k: int| 0 <= k < h ==> #[trigger] host_port@[k] != ':',
        decreases m - h,
    {
        h = h + 1;
    }
    proof {
        lemma_first_match(host_port@, |c: char| c == ':', h as int);
    }
    string_of(&slice_chars(&host_port, 0, h))
}


// ---------------------------------------------------------------------------
// The procurement system's answer
// ---------------------------------------------------------------------------

/// The names under which procurement systems return a reference id, in the
/// order they are tried.
pub open spec fn reference_spec(doc: Json) -> Seq<char> {
    if str_of(field(doc, "reference"@)) is Some {
        str_of(field(doc, "reference"@))->0
    } else if str_of(field(doc, "id"@)) is Some {
        str_of(field(doc, "id"@))->0
    } else if str_of(field(doc, "request_id"@)) is Some {
        str_of(field(doc, "request_id"@))->0
    } else if str_of(field(doc, "ticket"@)) is Some {
        str_of(field(doc, "ticket"@))->0
    } else {
        Seq::empty()
    }
}

/// The reference in a response body; empty when the body is not JSON.
pub open spec fn reference_of(body: Seq<u8>) -> Seq<char> {
    match json_decode(body) {
        Ok(doc) => reference_spec(doc),
        Err(_) => Seq::empty(),
    }
}

/// The reference id in a procurement system's JSON answer: the first of
/// `reference`, `id`, `request_id` and `ticket` that holds a string, or empty.
pub fn reference_in(doc: &Json) -> (r: String)
    ensures
        r@ == reference_spec(*doc),
{
    match crate::json::str_in(doc.get("reference")) {
        Some(v) => {
            return copy_str(v);
        },
        None => {},
    }
    match crate::json::str_in(doc.get("id")) {
        Some(v) => {
            return copy_str(v);
        },
        None => {},
    }
    match crate::json::str_in(doc.get("request_id")) {
        Some(v) => {
            return copy_str(v);
        },
        None => {},
    }
    match crate::json::str_in(doc.get("ticket")) {
        Some(v) => {
            return copy_str(v);
        },
        None => {},
    }
    String::new()
}

/// Pulls a reference id out of whatever the procurement system returned.
///
/// Different systems name it differently, and httpbin returns neither, so an
/// absent reference is normal rather than an error.
pub fn extract_reference(body: &[u8]) -> (r: String)
    ensures
        r@ == reference_of(body@),
{
    match decode_json(body) {
        Ok(doc) => reference_in(&doc),
        Err(_) => String::new(),
    }
}

/// How the host's `http-with-placeholders` call can fail.
#[derive(Debug, Clone)]
pub enum HttpError {
    /// The destination is not in the user's grant.
    EgressDenied(String),
    /// The user has not authorised this agent to read a profile field.
    PlaceholderDenied(String),
    /// The profile has no such field.
    PlaceholderUnknown(String),
    /// The call was not made by an agent acting for a user.
    PlaceholderNoUserContext,
    /// The destination failed.
    UpstreamError(String),
}

/// The message for a failed submission, naming the fix.
pub open spec fn http_error_text(error: HttpError, host: Seq<char>) -> Seq<char> {
    match error {
        HttpError::EgressDenied(denied) => "egress denied for "@ + denied@ + ": add \""@ + host
            + "\" to allowedHosts in the user's agent-auth grant (npm run grant)"@,
        HttpError::PlaceholderDenied(marker) => "placeholder denied: "@ + marker@
            + " — the calling user has not authorised this agent to read that profile field"@,
        HttpError::PlaceholderUnknown(field) => "placeholder unknown: "@ + field@
            + " — the user profile has no such field; complete the profile before onboarding"@,
        HttpError::PlaceholderNoUserContext =>
            "no user context: submit-onboarding must be called by an agent acting for a user, not by the tenant session"@,
        HttpError::UpstreamError(reason) => "procurement system error: "@ + reason@,
    }
}

/// Turns a host error into a message that names the fix.
pub fn format_http_error(error: &HttpError, host: &str) -> (r: String)
    ensures
        r@ == http_error_text(*error, host@),
{
    match error {
        HttpError::EgressDenied(denied) => {
            let mut out = concat3("egress denied for ", denied.as_str(), ": add \"");
            out.append(host);
            out.append("\" to allowedHosts in the user's agent-auth grant (npm run grant)");
            out
        },
        HttpError::PlaceholderDenied(marker) => concat3(
            "placeholder denied: ",
            marker.as_str(),
            " — the calling user has not authorised this agent to read that profile field",
        ),
        HttpError::PlaceholderUnknown(field) => concat3(
            "placeholder unknown: ",
            field.as_str(),
            " — the user profile has no such field; complete the profile before onboarding",
        ),
        HttpError::PlaceholderNoUserContext => copy_str(
            "no user context: submit-onboarding must be called by an agent acting for a user, not by the tenant session",
        ),
        HttpError::UpstreamError(reason) => concat2("procurement system error: ", reason.as_str()),
    }
}

/// The error for a submission the endpoint refused. It names the host and the
/// status code only: the body may echo the request, which carries the
/// submitter's resolved personal data.
pub open spec fn rejected_text(host: Seq<char>, code: u16) -> Seq<char> {
    "onboarding submission rejected by "@ + host + ": HTTP "@ + decimal(code as nat)
        + ". Response body withheld: it may echo the request, which carries the submitter's resolved PII."@
}

// ---------------------------------------------------------------------------
// The submission, step by step
// ---------------------------------------------------------------------------

/// What has just happened in a submission.
#[derive(Debug)]
pub enum OnboardingEvent {
    /// The request has arrived.
    Start,
    /// The tenant `config` read of [`ONBOARDING_URL_KEY`] came back: a read
    /// error, no entry, or its text.
    ConfigRead(Result<Option<String>, String>),
    /// The placeholder-templated POST to `host` came back.
    Replied { host: String, reply: Result<HttpReply, HttpError> },
}

/// What the submission needs done next.
#[derive(Debug)]
pub enum OnboardingAction {
    /// Read this key of the tenant `config` map.
    ReadConfig(String),
    /// POST `payload`, serialised, to `url` with `http-with-placeholders`.
    Post { url: String, host: String, payload: Json },
    /// The submission is complete.
    Finish(OnboardingResp),
}

pub open spec fn submitted_spec(resp: OnboardingResp, code: u16, payload: Seq<u8>, host: Seq<char>) -> bool {
    &&& resp.submitted
    &&& resp.status_code == code
    &&& resp.reference@ == reference_of(payload)
    &&& resp.endpoint_host@ == host
}

/// Whether a status code means the record was accepted.
pub open spec fn accepted(code: u16) -> bool {
    200 <= code < 300
}

/// Decides the next step of a submission.
///
/// The host performs each action and hands the outcome back as the next
/// event: the configuration read, then the POST, then the answer.
pub fn onboarding_step(req: &OnboardingReq, event: OnboardingEvent) -> (r: Result<
    OnboardingAction,
    String,
>)
    ensures
        match event {
            OnboardingEvent::Start => if is_blank(req.legal_name@) {
                r matches Err(e) && e@ == "submit-onboarding: legal_name is required"@
            } else {
                r matches Ok(OnboardingAction::ReadConfig(key)) && key@ == ONBOARDING_URL_KEY@
            },
            OnboardingEvent::ConfigRead(lookup) => {
                let url = config_choice(lookup_view(lookup), DEFAULT_ONBOARDING_URL@);
                &&& r matches Ok(OnboardingAction::Post { url: u, host: h, payload: p })
                &&& u@ == url
                &&& h@ == host_spec(url)
                &&& payload_spec(*req, p)
            },
            OnboardingEvent::Replied { host, reply } => match reply {
                Err(error) => r matches Err(e) && e@ == http_error_text(error, host@),
                Ok(resp) => if accepted(resp.code) {
                    r matches Ok(OnboardingAction::Finish(out)) && submitted_spec(
                        out,
                        resp.code,
                        resp.payload@,
                        host@,
                    )
                } else {
                    r matches Err(e) && e@ == rejected_text(host@, resp.code)
                },
            },
        },
{
    match event {
        OnboardingEvent::Start => {
            if trim_chars(&chars_of(req.legal_name.as_str())).len() == 0 {
                Err(copy_str("submit-onboarding: legal_name is required"))
            } else {
                Ok(OnboardingAction::ReadConfig(copy_str(ONBOARDING_URL_KEY)))
            }
        },
        OnboardingEvent::ConfigRead(lookup) => {
            let url = config_or(lookup, DEFAULT_ONBOARDING_URL);
            let host = host_of(url.as_str());
            let payload = build_payload(req);
            Ok(OnboardingAction::Post { url, host, payload })
        },
        OnboardingEvent::Replied { host, reply } => match reply {
            Err(error) => Err(format_http_error(&error, host.as_str())),
            Ok(resp) => {
                if 200 <= resp.code && resp.code < 300 {
                    Ok(
                        OnboardingAction::Finish(
                            OnboardingResp {
                                submitted: true,
                                status_code: resp.code,
                                reference: extract_reference(resp.payload.as_slice()),
                                endpoint_host: host,
                            },
                        ),
                    )
                } else {
                    // Deliberately no response body here, unlike the GLEIF and
                    // VIES paths: this is the one request whose body the host
                    // filled with the user's real name and email, and a
                    // rejecting endpoint commonly echoes the request back.
                    let code = decimal_string(resp.code as u64);
                    let mut out = concat3("onboarding submission rejected by ", host.as_str(), ": HTTP ");
                    out.append(code.as_str());
                    out.append(
                        ". Response body withheld: it may echo the request, which carries the submitter's resolved PII.",
                    );
                    Err(out)
                }
            },
        },
    }
}


// ---------------------------------------------------------------------------
// Laws
// ---------------------------------------------------------------------------

/// Every field of `submitted_by` in an onboarding body is a
/// `{{profile.*}}` marker: no literal personal value can sit beside them.
pub proof fn lemma_submitter_fields_are_markers(req: OnboardingReq, body: Json)
    requires
        payload_spec(req, body),
    ensures
        field(body, "submitted_by"@) matches Json::Object(entries) && forall|i: int|
            0 <= i < entries@.len() ==> (#[trigger] str_of(entries@[i].1)) is Some
                && is_profile_marker(str_of(entries@[i].1)->0),
{
    reveal_strlit("{{profile.");
    reveal_strlit("}}");
    reveal_strlit("{{profile.first_name}}");
    reveal_strlit("{{profile.last_name}}");
    reveal_strlit("{{profile.verified_contacts.email.value}}");
    reveal_strlit("first_name");
    reveal_strlit("last_name");
    reveal_strlit("email");
    let submitted_by = field(body, "submitted_by"@);
    let entries = submitted_by->Object_0@;
    assert(member_names(entries).len() == 3);
    assert(entries[0].0@ == "first_name"@);
    assert(entries[1].0@ == "last_name"@);
    assert(entries[2].0@ == "email"@);
    assert("first_name"@.len() != "last_name"@.len());
    assert("first_name"@.len() != "email"@.len());
    assert("last_name"@.len() != "email"@.len());
    crate::json::lemma_member_at(entries, "first_name"@, 0);
    crate::json::lemma_member_at(entries, "last_name"@, 1);
    crate::json::lemma_member_at(entries, "email"@, 2);
    let m1 = "{{profile.first_name}}"@;
    let m2 = "{{profile.last_name}}"@;
    let m3 = "{{profile.verified_contacts.email.value}}"@;
    assert(m1.subrange(0, 10) =~= "{{profile."@);
    assert(m2.subrange(0, 10) =~= "{{profile."@);
    assert(m3.subrange(0, 10) =~= "{{profile."@);
    assert(m1.subrange(m1.len() - 2, m1.len() as int) =~= "}}"@);
    assert(m2.subrange(m2.len() - 2, m2.len() as int) =~= "}}"@);
    assert(m3.subrange(m3.len() - 2, m3.len() as int) =~= "}}"@);
}

proof fn lemma_prefix_avoids(s: Seq<char>, p: spec_fn(char) -> bool, i: int)
    requires
        0 <= i <= s.len(),
    ensures
        0 <= first_match(s, p) <= s.len(),
        forall|k: int| 0 <= k < first_match(s, p) ==> !p(#[trigger] s[k]),
    decreases s.len(),
{
    if s.len() > 0 && !p(s[0]) {
        lemma_prefix_avoids(s.drop_first(), p, 0);
        assert forall|k: int| 0 <= k < first_match(s, p) implies !p(#[trigger] s[k]) by {
            if k > 0 {
                assert(s[k] == s.drop_first()[k - 1]);
            }
        }
    }
}

proof fn lemma_suffix_avoids(s: Seq<char>, p: spec_fn(char) -> bool)
    ensures
        -1 <= last_match(s, p) < s.len(),
        forall|k: int| last_match(s, p) < k < s.len() ==> !p(#[trigger] s[k]),
    decreases s.len(),
{
    if s.len() > 0 && !p(s.last()) {
        lemma_suffix_avoids(s.drop_last(), p);
        assert forall|k: int| last_match(s, p) < k < s.len() implies !p(#[trigger] s[k]) by {
            if k < s.len() - 1 {
                assert(s[k] == s.drop_last()[k]);
            }
        }
    }
}

/// A host never carries a path, query, fragment, user info or port: none of
/// `/`, `?`, `#`, `@` or `:` survives in it.
pub proof fn lemma_host_has_no_delimiters(url: Seq<char>)
    ensures
        forall|i: int|
            0 <= i < host_spec(url).len() ==> {
                let c = #[trigger] host_spec(url)[i];
                c != '/' && c != '?' && c != '#' && c != '@' && c != ':'
            },
{
    let rest = match find_text(url, "://"@) {
        Some(i) => url.subrange(i + 3, url.len() as int),
        None => url,
    };
    let p1 = |c: char| ends_authority(c);
    let p2 = |c: char| c == '@';
    let p3 = |c: char| c == ':';
    lemma_prefix_avoids(rest, p1, 0);
    let authority = rest.subrange(0, first_match(rest, p1));
    lemma_suffix_avoids(authority, p2);
    let host_port = authority.subrange(last_match(authority, p2) + 1, authority.len() as int);
    lemma_prefix_avoids(host_port, p3, 0);
    let host = host_port.subrange(0, first_match(host_port, p3));
    assert(host == host_spec(url));
    assert forall|i: int| 0 <= i < host.len() implies {
        let c = #[trigger] host[i];
        c != '/' && c != '?' && c != '#' && c != '@' && c != ':'
    } by {
        let j = last_match(authority, p2) + 1 + i;
        assert(host[i] == host_port[i]);
        assert(host_port[i] == authority[j]);
        assert(!p2(authority[j]));
        assert(authority[j] == rest[j]);
        assert(!p1(rest[j]));
        assert(!p3(host_port[i]));
    }
}


/// The supplier's company data in an onboarding body is the request's,
/// verbatim: its legal name, its LEI and its VAT number (each empty when
/// absent), each in the member of that name and no other field in its place.
pub proof fn lemma_supplier_data_is_the_request(req: OnboardingReq, body: Json)
    requires
        payload_spec(req, body),
    ensures
        str_of(field(field(body, "supplier"@), "legal_name"@)) == Some(req.legal_name@),
        str_of(field(field(body, "supplier"@), "lei"@)) == Some(
            (match req.lei {
                Some(l) => l@,
                None => Seq::<char>::empty(),
            }),
        ),
        str_of(field(field(body, "supplier"@), "vat_number"@)) == Some(
            (match req.vat_number {
                Some(v) => v@,
                None => Seq::<char>::empty(),
            }),
        ),
        str_of(field(field(body, "supplier"@), "kyb_verdict"@)) == Some(req.verdict@),
{
}

} // verus!
