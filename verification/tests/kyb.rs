use z_tenant_kyb::gleif::{fetch_entity, EntityRecord};
use z_tenant_kyb::http::HttpReply;
use z_tenant_kyb::kyb::{kyb_step, score, KybAction, KybEvent, KybReq, KybVerdict, FAIL_AT};
use z_tenant_kyb::vies::{fetch_vat, CheckVatReq, VatRecord};

fn good_entity() -> EntityRecord {
    EntityRecord {
        found: true,
        lei: "529900IH9V4I3VHQVO92".into(),
        legal_name: "Acme GmbH".into(),
        jurisdiction: "DE".into(),
        entity_status: "ACTIVE".into(),
        registration_status: "ISSUED".into(),
        next_renewal_date: "2027-01-01".into(),
        address: "Musterstrasse 1, Berlin, DE".into(),
        candidates: vec![],
    }
}

fn request() -> KybReq {
    KybReq {
        legal_name: "Acme GmbH".into(),
        lei: None,
        country_code: Some("DE".into()),
        vat_number: Some("811907980".into()),
    }
}

fn valid_vat() -> VatRecord {
    VatRecord {
        valid: true,
        country_code: "DE".into(),
        vat_number: "811907980".into(),
        service_status: "VALID".into(),
        ..Default::default()
    }
}

#[test]
fn clean_supplier_passes_with_zero_risk() {
    let verdict = score(&request(), &good_entity(), Some(&valid_vat()));
    assert_eq!(verdict.verdict, "pass");
    assert_eq!(verdict.risk_score, 0);
    assert!(verdict.checks.iter().all(|c| c.status == "pass"));
}

#[test]
fn unknown_entity_fails_outright() {
    let verdict = score(&request(), &EntityRecord::default(), Some(&valid_vat()));
    assert_eq!(verdict.verdict, "fail");
    assert!(verdict.risk_score >= FAIL_AT);
    // A missing entity must not also emit misleading sub-checks.
    assert!(!verdict.checks.iter().any(|c| c.name == "entity_active"));
}

#[test]
fn invalid_vat_alone_lands_in_review_not_auto_reject() {
    let bad_vat = VatRecord {
        valid: false,
        service_status: "INVALID_INPUT".into(),
        ..valid_vat()
    };
    let verdict = score(&request(), &good_entity(), Some(&bad_vat));
    assert_eq!(verdict.verdict, "review");
    assert_eq!(verdict.risk_score, 25);
}

#[test]
fn missing_vat_is_scored_as_an_incomplete_file() {
    let verdict = score(&request(), &good_entity(), None);
    assert_eq!(verdict.verdict, "pass");
    assert_eq!(verdict.risk_score, 10);
    assert_eq!(
        verdict
            .checks
            .iter()
            .find(|c| c.name == "vat_valid")
            .map(|c| c.status.as_str()),
        Some("skipped")
    );
}

#[test]
fn dormant_entity_with_bad_vat_is_rejected() {
    let dormant = EntityRecord {
        entity_status: "INACTIVE".into(),
        registration_status: "LAPSED".into(),
        ..good_entity()
    };
    let bad_vat = VatRecord {
        valid: false,
        ..valid_vat()
    };
    let verdict = score(&request(), &dormant, Some(&bad_vat));
    assert_eq!(verdict.verdict, "fail");
    assert_eq!(verdict.risk_score, 75);
}

#[test]
fn name_mismatch_is_flagged_but_punctuation_is_not() {
    let punctuated = EntityRecord {
        legal_name: "ACME G.m.b.H.".into(),
        ..good_entity()
    };
    assert_eq!(score(&request(), &punctuated, Some(&valid_vat())).risk_score, 0);

    let other_company = EntityRecord {
        legal_name: "Globex Ltd".into(),
        ..good_entity()
    };
    let verdict = score(&request(), &other_company, Some(&valid_vat()));
    assert_eq!(verdict.risk_score, 15);
    assert_eq!(verdict.verdict, "pass");
}

#[test]
fn risk_score_never_exceeds_one_hundred() {
    let worst = EntityRecord {
        found: true,
        entity_status: "INACTIVE".into(),
        registration_status: "RETIRED".into(),
        legal_name: "Globex Ltd".into(),
        ..good_entity()
    };
    let bad_vat = VatRecord {
        valid: false,
        ..valid_vat()
    };
    let verdict = score(&request(), &worst, Some(&bad_vat));
    assert!(verdict.risk_score <= 100);
}

fn penalty(name: &str, status: &str) -> u32 {
    match (name, status) {
        ("gleif_entity_found", "fail") => 50,
        ("entity_active", "fail") => 30,
        ("lei_registration_current", "warn") => 20,
        ("name_match", "warn") => 15,
        ("vat_valid", "fail") => 25,
        ("vat_valid", "skipped") => 10,
        _ => 0,
    }
}

#[test]
fn every_point_of_risk_is_an_explicit_check() {
    let worst = EntityRecord {
        entity_status: "INACTIVE".into(),
        registration_status: "RETIRED".into(),
        legal_name: "Globex Ltd".into(),
        ..good_entity()
    };
    let bad_vat = VatRecord { valid: false, ..valid_vat() };
    for (entity, vat) in [
        (good_entity(), Some(valid_vat())),
        (worst.clone(), Some(bad_vat.clone())),
        (worst, None),
        (EntityRecord::default(), Some(bad_vat)),
        (EntityRecord::default(), None),
    ] {
        let verdict = score(&request(), &entity, vat.as_ref());
        let total: u32 = verdict.checks.iter().map(|c| penalty(&c.name, &c.status)).sum();
        assert_eq!(verdict.risk_score, total.min(100));
    }
}

#[test]
fn check_details_explain_each_finding() {
    let worst = EntityRecord {
        entity_status: "inactive".into(),
        registration_status: "LAPSED".into(),
        legal_name: "Globex Ltd".into(),
        ..good_entity()
    };
    let bad_vat = VatRecord {
        valid: false,
        service_status: "INVALID_INPUT".into(),
        ..valid_vat()
    };
    let verdict = score(&request(), &worst, Some(&bad_vat));
    let details: Vec<(&str, &str, &str)> = verdict
        .checks
        .iter()
        .map(|c| (c.name.as_str(), c.status.as_str(), c.detail.as_str()))
        .collect();
    assert_eq!(
        details,
        vec![
            ("gleif_entity_found", "pass", "LEI 529900IH9V4I3VHQVO92 on file"),
            ("entity_active", "fail", "entity status inactive"),
            ("lei_registration_current", "warn", "registration status LAPSED"),
            (
                "name_match",
                "warn",
                "requested \"Acme GmbH\" but registry says \"Globex Ltd\""
            ),
            (
                "vat_valid",
                "fail",
                "VIES reports DE811907980 as not registered (INVALID_INPUT)"
            ),
        ]
    );
    assert_eq!(verdict.risk_score, 90);
    assert_eq!(verdict.verdict, "fail");
    assert_eq!(verdict.entity.legal_name, "Globex Ltd");
    assert!(!verdict.vat.unwrap().valid);
}

#[test]
fn status_words_compare_without_ascii_case() {
    let lower = EntityRecord {
        entity_status: "active".into(),
        registration_status: "Issued".into(),
        ..good_entity()
    };
    let verdict = score(&request(), &lower, Some(&valid_vat()));
    assert_eq!(verdict.risk_score, 0);
    assert_eq!(verdict.checks[2].detail, "registration ISSUED, renews 2027-01-01");
}

const GLEIF_BODY: &str = r#"{"data":[{"attributes":{"lei":"529900IH9V4I3VHQVO92","entity":{"legalName":{"name":"Acme GmbH"},"status":"ACTIVE"},"registration":{"status":"ISSUED"}}}]}"#;

#[test]
fn the_check_runs_gleif_then_vies_then_scores() {
    let req = request();
    let url = match kyb_step(&req, KybEvent::Start).unwrap() {
        KybAction::FetchEntity(url) => url,
        other => panic!("unexpected {other:?}"),
    };
    assert!(url.contains("filter%5Bentity.legalName%5D=Acme%20GmbH"));
    let reply = Ok(HttpReply { code: 200, payload: GLEIF_BODY.as_bytes().to_vec() });
    let (vat_url, vat_req, entity) = match kyb_step(&req, KybEvent::EntityReply(reply)).unwrap() {
        KybAction::FetchVat { url, vat_req, entity } => (url, vat_req, entity),
        other => panic!("unexpected {other:?}"),
    };
    assert_eq!(
        vat_url,
        "https://ec.europa.eu/taxation_customs/vies/rest-api/ms/DE/vat/811907980"
    );
    assert!(entity.found);
    let vies = Ok(HttpReply { code: 200, payload: br#"{"isValid":true,"vatNumber":"811907980","countryCode":"DE"}"#.to_vec() });
    match kyb_step(&req, KybEvent::VatReply { entity, vat_req, reply: vies }).unwrap() {
        KybAction::Finish(verdict) => {
            assert_eq!(verdict.verdict, "pass");
            assert_eq!(verdict.risk_score, 0);
        },
        other => panic!("unexpected {other:?}"),
    }
}

#[test]
fn a_missing_vat_number_skips_vies_and_a_blank_name_is_refused() {
    let req = KybReq { country_code: None, ..request() };
    let reply = Ok(HttpReply { code: 200, payload: GLEIF_BODY.as_bytes().to_vec() });
    match kyb_step(&req, KybEvent::EntityReply(reply)).unwrap() {
        KybAction::Finish(verdict) => assert_eq!(verdict.risk_score, 10),
        other => panic!("unexpected {other:?}"),
    }
    let blank = KybReq { legal_name: "  ".into(), ..request() };
    assert_eq!(
        kyb_step(&blank, KybEvent::Start).unwrap_err(),
        "run-kyb-check: legal_name is required"
    );
    let bad_vat = KybReq { vat_number: Some("../x".into()), ..request() };
    let reply = Ok(HttpReply { code: 200, payload: GLEIF_BODY.as_bytes().to_vec() });
    assert!(kyb_step(&bad_vat, KybEvent::EntityReply(reply)).is_err());
    let vat_req = CheckVatReq { country_code: "DE".into(), vat_number: "1".into() };
    let down = Ok(HttpReply { code: 500, payload: vec![] });
    assert_eq!(
        kyb_step(&request(), KybEvent::VatReply { entity: good_entity(), vat_req, reply: down })
            .unwrap_err(),
        "vies lookup failed: HTTP 500 — "
    );
}

/// Runs the steps in turn, answering each lookup with the given reply.
fn run(
    req: &KybReq,
    gleif: Result<HttpReply, String>,
    vies: Result<HttpReply, String>,
) -> Result<KybVerdict, String> {
    let mut event = KybEvent::Start;
    let (mut gleif, mut vies) = (Some(gleif), Some(vies));
    loop {
        match kyb_step(req, event)? {
            KybAction::FetchEntity(_) => event = KybEvent::EntityReply(gleif.take().unwrap()),
            KybAction::FetchVat { vat_req, entity, .. } => {
                event = KybEvent::VatReply { entity, vat_req, reply: vies.take().unwrap() }
            },
            KybAction::Finish(verdict) => return Ok(verdict),
        }
    }
}

#[test]
fn a_whole_run_scores_the_two_records_or_stops_at_the_first_error() {
    let req = request();
    let gleif = Ok(HttpReply { code: 200, payload: GLEIF_BODY.as_bytes().to_vec() });
    let vies = Ok(HttpReply {
        code: 200,
        payload: br#"{"isValid":false,"vatNumber":"811907980","countryCode":"DE"}"#.to_vec(),
    });
    let verdict = run(&req, gleif.clone(), vies.clone()).unwrap();
    let entity = fetch_entity(&gleif, Some("Acme GmbH")).unwrap();
    let vat_req = CheckVatReq { country_code: "DE".into(), vat_number: "811907980".into() };
    let vat = fetch_vat(&vies, &vat_req).unwrap();
    let expected = score(&req, &entity, Some(&vat));
    assert_eq!(verdict.verdict, expected.verdict);
    assert_eq!(verdict.verdict, "review");
    assert_eq!(verdict.risk_score, expected.risk_score);
    assert_eq!(verdict.risk_score, 25);
    assert_eq!(verdict.checks.len(), expected.checks.len());
    for (got, want) in verdict.checks.iter().zip(expected.checks.iter()) {
        assert_eq!((&got.name, &got.status, &got.detail), (&want.name, &want.status, &want.detail));
    }

    let down = Err("connection reset".to_string());
    assert_eq!(
        run(&req, down, vies.clone()).unwrap_err(),
        "gleif request failed: connection reset"
    );
    let vies_down = Ok(HttpReply { code: 503, payload: b"busy".to_vec() });
    assert_eq!(
        run(&req, gleif.clone(), vies_down).unwrap_err(),
        "vies lookup failed: HTTP 503 — busy"
    );
    let no_vat = KybReq { vat_number: None, ..request() };
    assert_eq!(run(&no_vat, gleif, vies).unwrap().risk_score, 10);
}
