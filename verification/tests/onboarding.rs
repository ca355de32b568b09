use z_tenant_kyb::http::HttpReply;
use z_tenant_kyb::json::Json;
use z_tenant_kyb::onboarding::{
    build_payload, extract_reference, format_http_error, host_of, onboarding_step, HttpError,
    OnboardingAction, OnboardingEvent, OnboardingReq, DEFAULT_ONBOARDING_HOST,
    ONBOARDING_URL_KEY,
};

fn request() -> OnboardingReq {
    OnboardingReq {
        legal_name: "Acme GmbH".into(),
        lei: Some("529900IH9V4I3VHQVO92".into()),
        vat_number: Some("811907980".into()),
        verdict: "pass".into(),
        risk_score: 0,
    }
}

fn at<'a>(value: &'a Json, keys: &[&str]) -> &'a Json {
    keys.iter().fold(value, |v, k| v.get(k).unwrap())
}

#[test]
fn payload_carries_markers_not_personal_data() {
    let payload = build_payload(&request());
    let submitted_by = at(&payload, &["submitted_by"]);
    assert_eq!(at(submitted_by, &["first_name"]).as_str(), Some("{{profile.first_name}}"));
    assert_eq!(at(submitted_by, &["last_name"]).as_str(), Some("{{profile.last_name}}"));
    assert_eq!(
        at(submitted_by, &["email"]).as_str(),
        Some("{{profile.verified_contacts.email.value}}")
    );
}

#[test]
fn every_personal_field_in_the_body_is_a_marker() {
    let payload = build_payload(&request());
    let submitted_by = at(&payload, &["submitted_by"]).as_object().unwrap();
    for (field, value) in submitted_by {
        let value = value.as_str().unwrap_or_default();
        assert!(
            value.starts_with("{{profile.") && value.ends_with("}}"),
            "field {field} leaks a literal value: {value}"
        );
    }
}

#[test]
fn company_data_is_passed_through_verbatim() {
    let payload = build_payload(&request());
    assert_eq!(at(&payload, &["supplier", "legal_name"]).as_str(), Some("Acme GmbH"));
    assert_eq!(at(&payload, &["supplier", "kyb_verdict"]).as_str(), Some("pass"));
    assert_eq!(at(&payload, &["supplier", "kyb_risk_score"]).as_number(), Some("0"));
}

#[test]
fn host_of_handles_the_shapes_a_config_value_can_take() {
    assert_eq!(host_of("https://httpbin.org/post"), "httpbin.org");
    assert_eq!(host_of("https://erp.acme.com:8443/api/v1"), "erp.acme.com");
    assert_eq!(host_of("http://erp.acme.com?x=1"), "erp.acme.com");
    assert_eq!(host_of("erp.acme.com/hook"), "erp.acme.com");
}

#[test]
fn reference_extraction_tolerates_a_body_without_one() {
    assert_eq!(extract_reference(br#"{"reference":"SUP-42"}"#), "SUP-42");
    assert_eq!(extract_reference(br#"{"id":"abc"}"#), "abc");
    assert_eq!(extract_reference(br#"{"json":{}}"#), "");
    assert_eq!(extract_reference(b"not json"), "");
}

/// The response body is the one place plaintext PII can re-enter the
/// enclave: the host filled the request with the submitter's real name and
/// email, and an echoing endpoint hands it straight back.
#[test]
fn nothing_personal_is_lifted_out_of_an_echoing_response() {
    let echoed = br#"{
        "json": {
            "supplier": {"legal_name": "Acme GmbH"},
            "submitted_by": {
                "first_name": "Ada",
                "last_name": "Lovelace",
                "email": "ada@example.com"
            }
        },
        "headers": {"Host": "httpbin.org"},
        "id": "SUP-42"
    }"#;

    let reference = extract_reference(echoed);
    assert_eq!(reference, "SUP-42");
    for leaked in ["Ada", "Lovelace", "ada@example.com"] {
        assert!(
            !reference.contains(leaked),
            "reference must not carry {leaked} out of the enclave"
        );
    }
}

#[test]
fn the_payload_has_exactly_the_documented_shape() {
    let req = OnboardingReq { lei: None, risk_score: 37, verdict: "review".into(), ..request() };
    let payload = build_payload(&req);
    let keys = |v: &Json| -> Vec<String> {
        v.as_object().unwrap().iter().map(|(k, _)| k.clone()).collect()
    };
    assert_eq!(keys(&payload), ["source", "supplier", "submitted_by"]);
    assert_eq!(
        keys(at(&payload, &["supplier"])),
        ["legal_name", "lei", "vat_number", "kyb_verdict", "kyb_risk_score"]
    );
    assert_eq!(at(&payload, &["source"]).as_str(), Some("t3n-kyb-agent"));
    assert_eq!(at(&payload, &["supplier", "lei"]).as_str(), Some(""));
    assert_eq!(at(&payload, &["supplier", "kyb_risk_score"]).as_number(), Some("37"));
}

#[test]
fn host_of_strips_user_info_and_keeps_bare_hosts() {
    assert_eq!(host_of("https://user:pw@erp.acme.com:443/x#frag"), "erp.acme.com");
    assert_eq!(host_of("erp.acme.com"), "erp.acme.com");
    assert_eq!(host_of(""), "");
    assert_eq!(host_of("ftp://a@b@c/d"), "c");
    assert_eq!(host_of("https://httpbin.org/post"), DEFAULT_ONBOARDING_HOST);
}

#[test]
fn reference_keys_are_tried_in_order() {
    assert_eq!(
        extract_reference(br#"{"ticket":"T-1","request_id":"R-1","id":7}"#),
        "R-1"
    );
    assert_eq!(extract_reference(br#"{"id":7,"ticket":"T-1"}"#), "T-1");
    assert_eq!(extract_reference(br#"["SUP-42"]"#), "");
}

#[test]
fn host_errors_name_the_fix() {
    assert_eq!(
        format_http_error(&HttpError::EgressDenied("erp.acme.com".into()), "erp.acme.com"),
        "egress denied for erp.acme.com: add \"erp.acme.com\" to allowedHosts in the user's agent-auth grant (npm run grant)"
    );
    assert_eq!(
        format_http_error(&HttpError::PlaceholderDenied("{{profile.email}}".into()), "h"),
        "placeholder denied: {{profile.email}} — the calling user has not authorised this agent to read that profile field"
    );
    assert_eq!(
        format_http_error(&HttpError::PlaceholderUnknown("dob".into()), "h"),
        "placeholder unknown: dob — the user profile has no such field; complete the profile before onboarding"
    );
    assert_eq!(
        format_http_error(&HttpError::PlaceholderNoUserContext, "h"),
        "no user context: submit-onboarding must be called by an agent acting for a user, not by the tenant session"
    );
    assert_eq!(
        format_http_error(&HttpError::UpstreamError("reset".into()), "h"),
        "procurement system error: reset"
    );
}

#[test]
fn the_submission_reads_config_posts_and_reports() {
    let req = request();
    match onboarding_step(&req, OnboardingEvent::Start).unwrap() {
        OnboardingAction::ReadConfig(key) => assert_eq!(key, ONBOARDING_URL_KEY),
        other => panic!("unexpected {other:?}"),
    }
    let (url, host) = match onboarding_step(&req, OnboardingEvent::ConfigRead(Ok(None))).unwrap() {
        OnboardingAction::Post { url, host, payload } => {
            assert!(payload.get("submitted_by").is_some());
            (url, host)
        },
        other => panic!("unexpected {other:?}"),
    };
    assert_eq!(url, "https://httpbin.org/post");
    assert_eq!(host, "httpbin.org");
    let reply = Ok(HttpReply { code: 201, payload: br#"{"reference":"SUP-42"}"#.to_vec() });
    match onboarding_step(&req, OnboardingEvent::Replied { host, reply }).unwrap() {
        OnboardingAction::Finish(resp) => {
            assert!(resp.submitted);
            assert_eq!(resp.status_code, 201);
            assert_eq!(resp.reference, "SUP-42");
            assert_eq!(resp.endpoint_host, "httpbin.org");
        },
        other => panic!("unexpected {other:?}"),
    }
}

#[test]
fn a_rejection_never_quotes_the_echoed_body() {
    let echo = br#"{"json":{"submitted_by":{"first_name":"Ada"}}}"#.to_vec();
    let err = onboarding_step(
        &request(),
        OnboardingEvent::Replied {
            host: "httpbin.org".into(),
            reply: Ok(HttpReply { code: 403, payload: echo }),
        },
    )
    .unwrap_err();
    assert_eq!(
        err,
        "onboarding submission rejected by httpbin.org: HTTP 403. Response body withheld: it may echo the request, which carries the submitter's resolved PII."
    );
    assert!(!err.contains("Ada"));
    let blank = OnboardingReq { legal_name: "\t".into(), ..request() };
    assert_eq!(
        onboarding_step(&blank, OnboardingEvent::Start).unwrap_err(),
        "submit-onboarding: legal_name is required"
    );
    let configured = onboarding_step(
        &request(),
        OnboardingEvent::ConfigRead(Ok(Some("https://erp.acme.com:8443/api".into()))),
    )
    .unwrap();
    match configured {
        OnboardingAction::Post { host, .. } => assert_eq!(host, "erp.acme.com"),
        other => panic!("unexpected {other:?}"),
    }
    let denied = onboarding_step(
        &request(),
        OnboardingEvent::Replied {
            host: "erp.acme.com".into(),
            reply: Err(HttpError::EgressDenied("erp.acme.com".into())),
        },
    )
    .unwrap_err();
    assert!(denied.starts_with("egress denied for erp.acme.com"));
}

#[test]
fn a_host_never_keeps_a_delimiter() {
    for url in [
        "https://user:pw@erp.acme.com:8443/api?x=1#f",
        "http://a/b?c#d",
        "::://@@::",
        "erp.acme.com?x=y:z",
        "https://h@x:1@y/z",
    ] {
        let host = host_of(url);
        assert!(
            !host.contains(['/', '?', '#', '@', ':']),
            "{url} gave {host}"
        );
    }
}
