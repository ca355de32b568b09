use z_tenant_kyb::gleif::{
    build_query_url, fetch_entity, parse_gleif_response, VerifyEntityReq, GLEIF_HOST,
};
use z_tenant_kyb::http::HttpReply;

/// A GLEIF LEI-record lookup answer for Deutsche Bank, in the shape the
/// JSON:API returns it.
const FIXTURE: &[u8] = br#"{
  "meta": {"goldenCopy": {"publishDate": "2026-09-06T08:00:00Z"}},
  "links": {"first": "https://api.gleif.org/api/v1/lei-records?page%5Bnumber%5D=1"},
  "data": [
    {
      "type": "lei-records",
      "id": "529900IH9V4I3VHQVO92",
      "attributes": {
        "lei": "529900IH9V4I3VHQVO92",
        "entity": {
          "legalName": {"name": "Deutsche Bank Aktiengesellschaft", "language": "de"},
          "otherNames": [],
          "legalAddress": {
            "language": "fr",
            "addressLines": ["23-25, avenue Franklin Delano Roosevelt"],
            "addressNumber": null,
            "city": "Paris",
            "region": "FR-75",
            "country": "FR",
            "postalCode": "75008"
          },
          "jurisdiction": "FR",
          "category": "BRANCH",
          "status": "ACTIVE"
        },
        "registration": {
          "initialRegistrationDate": "2016-06-02T06:47:59Z",
          "lastUpdateDate": "2026-06-03T07:00:00Z",
          "status": "ISSUED",
          "nextRenewalDate": "2027-06-02T06:47:59Z"
        }
      }
    }
  ]
}"#;

fn record(name: &str, lei: &str, status: &str, registration: &str) -> String {
    format!(
        r#"{{"type":"lei-records","id":"{lei}","attributes":{{"lei":"{lei}","entity":{{"legalName":{{"name":"{name}"}},"legalAddress":{{"addressLines":["Musterstrasse 1"],"city":"Berlin","country":"DE","postalCode":"10115"}},"jurisdiction":"DE","status":"{status}"}},"registration":{{"status":"{registration}","nextRenewalDate":"2027-01-01T00:00:00Z"}}}}}}"#
    )
}

/// Three records GLEIF returns for "Acme GmbH", in its own ranking order:
///   1. Acme International GmbH   INACTIVE / RETIRED
///   2. Acme United Europe GmbH   ACTIVE   / ISSUED
///   3. ACME the game company GmbH ACTIVE  / LAPSED
fn multi() -> Vec<u8> {
    format!(
        r#"{{"data":[{},{},{}]}}"#,
        record("Acme International GmbH", "529900AAAAAAAAAAAA01", "INACTIVE", "RETIRED"),
        record("Acme United Europe GmbH", "529900AAAAAAAAAAAA02", "ACTIVE", "ISSUED"),
        record("ACME the game company GmbH", "529900AAAAAAAAAAAA03", "ACTIVE", "LAPSED"),
    )
    .into_bytes()
}

#[test]
fn lei_lookup_builds_filtered_url() {
    let req = VerifyEntityReq {
        lei: Some("529900IH9V4I3VHQVO92".into()),
        legal_name: None,
    };
    let url = build_query_url(&req).unwrap();
    assert!(url.contains("filter%5Blei%5D=529900IH9V4I3VHQVO92"));
}

#[test]
fn name_lookup_percent_encodes_the_name() {
    let req = VerifyEntityReq {
        lei: None,
        legal_name: Some("Acme & Co".into()),
    };
    let url = build_query_url(&req).unwrap();
    assert!(url.contains("Acme%20%26%20Co"), "got {url}");
}

#[test]
fn empty_request_is_rejected() {
    let req = VerifyEntityReq {
        lei: Some("   ".into()),
        legal_name: None,
    };
    assert!(build_query_url(&req).is_err());
}

#[test]
fn parses_a_real_gleif_payload() {
    let record = parse_gleif_response(FIXTURE, Some("Deutsche Bank Aktiengesellschaft")).unwrap();
    assert!(record.found);
    assert_eq!(record.lei, "529900IH9V4I3VHQVO92");
    assert_eq!(record.legal_name, "Deutsche Bank Aktiengesellschaft");
    assert_eq!(record.entity_status, "ACTIVE");
    assert_eq!(record.registration_status, "ISSUED");
    assert!(record.address.contains("Paris"), "got {}", record.address);
    // Date only: GLEIF sends "2027-06-02T06:47:59Z".
    assert_eq!(record.next_renewal_date, "2027-06-02");
}

#[test]
fn empty_result_set_is_not_an_error() {
    let record = parse_gleif_response(br#"{"data":[]}"#, Some("Acme")).unwrap();
    assert!(!record.found);
    assert_eq!(record.lei, "");
}

#[test]
fn malformed_response_is_an_error() {
    assert!(parse_gleif_response(b"<html>502</html>", None).is_err());
    assert!(parse_gleif_response(br#"{"errors":[]}"#, None).is_err());
}

#[test]
fn multi_match_prefers_a_live_registration_over_gleif_ordering() {
    let record = parse_gleif_response(&multi(), Some("Acme GmbH")).unwrap();
    // Taking data[0] would report a retired entity for a live supplier.
    assert_eq!(record.legal_name, "Acme United Europe GmbH");
    assert_eq!(record.entity_status, "ACTIVE");
    assert_eq!(record.registration_status, "ISSUED");
}

#[test]
fn the_records_not_chosen_are_offered_as_candidates() {
    let record = parse_gleif_response(&multi(), Some("Acme GmbH")).unwrap();
    assert_eq!(record.candidates.len(), 2);
    assert!(record.candidates.iter().any(|c| c == "Acme International GmbH"));
    assert!(!record.candidates.contains(&record.legal_name));
}

#[test]
fn an_exact_name_match_outranks_a_healthier_registration() {
    // The right company in a bad state is a finding; the wrong company in a
    // good state is a false clear.
    let record = parse_gleif_response(&multi(), Some("Acme International GmbH")).unwrap();
    assert_eq!(record.legal_name, "Acme International GmbH");
    assert_eq!(record.entity_status, "INACTIVE");
}

#[test]
fn without_a_name_to_match_gleif_ordering_is_preserved() {
    // A LEI lookup returns one record; nothing should be reordered.
    let record = parse_gleif_response(&multi(), None).unwrap();
    assert_eq!(record.legal_name, "Acme United Europe GmbH");
}

#[test]
fn lei_and_name_urls_are_exact() {
    let by_lei = VerifyEntityReq {
        lei: Some(" 529900ih9v4i3vhqvo92 ".into()),
        legal_name: Some("ignored".into()),
    };
    assert_eq!(
        build_query_url(&by_lei).unwrap(),
        "https://api.gleif.org/api/v1/lei-records?filter%5Blei%5D=529900IH9V4I3VHQVO92&page%5Bsize%5D=1"
    );
    let by_name = VerifyEntityReq {
        lei: Some("".into()),
        legal_name: Some("  Acme GmbH ".into()),
    };
    assert_eq!(
        build_query_url(&by_name).unwrap(),
        "https://api.gleif.org/api/v1/lei-records?filter%5Bentity.legalName%5D=Acme%20GmbH&page%5Bsize%5D=5"
    );
    assert!(build_query_url(&by_name).unwrap().contains(GLEIF_HOST));
}

#[test]
fn an_invalid_lei_is_not_replaced_by_the_name() {
    let req = VerifyEntityReq {
        lei: Some("TOO-SHORT".into()),
        legal_name: Some("Acme GmbH".into()),
    };
    assert_eq!(
        build_query_url(&req).unwrap_err(),
        "invalid lei \"TOO-SHORT\": expected 20 alphanumeric characters (ISO 17442)"
    );
    let none = VerifyEntityReq { lei: None, legal_name: None };
    assert_eq!(
        build_query_url(&none).unwrap_err(),
        "verify-entity: provide either lei or legal_name"
    );
}

#[test]
fn the_full_record_is_flattened() {
    let record = parse_gleif_response(FIXTURE, None).unwrap();
    assert_eq!(record.jurisdiction, "FR");
    assert_eq!(
        record.address,
        "23-25, avenue Franklin Delano Roosevelt, 75008, Paris, FR"
    );
    assert!(record.candidates.is_empty());
}

#[test]
fn missing_fields_read_as_empty_and_jurisdiction_falls_back_to_the_country() {
    let body = br#"{"data":[{"attributes":{"entity":{"legalName":{"name":"X"},"legalAddress":{"addressLines":[1,"Main St",""],"country":"NL"}}}},{"attributes":{}}]}"#;
    let record = parse_gleif_response(body, None).unwrap();
    assert!(record.found);
    assert_eq!(record.legal_name, "X");
    assert_eq!(record.lei, "");
    assert_eq!(record.jurisdiction, "NL");
    assert_eq!(record.entity_status, "");
    assert_eq!(record.next_renewal_date, "");
    assert_eq!(record.address, "Main St, , NL");
    // The second record has no name, so it offers no candidate.
    assert!(record.candidates.is_empty());
}

#[test]
fn ties_keep_gleif_order_and_errors_name_their_cause() {
    let body = format!(
        r#"{{"data":[{},{}]}}"#,
        record("Beta One", "529900BBBBBBBBBBBB01", "ACTIVE", "ISSUED"),
        record("Beta Two", "529900BBBBBBBBBBBB02", "ACTIVE", "ISSUED"),
    );
    let chosen = parse_gleif_response(body.as_bytes(), Some("Beta")).unwrap();
    assert_eq!(chosen.legal_name, "Beta One");
    assert_eq!(chosen.candidates, vec!["Beta Two".to_string()]);
    assert_eq!(
        parse_gleif_response(br#"{"data":{}}"#, None).unwrap_err(),
        "gleif: response has no data array"
    );
    assert!(parse_gleif_response(b"nope", None)
        .unwrap_err()
        .starts_with("gleif: response is not JSON: "));
}

#[test]
fn the_http_outcome_is_interpreted() {
    let ok = Ok(HttpReply { code: 200, payload: FIXTURE.to_vec() });
    assert_eq!(
        fetch_entity(&ok, Some("Deutsche Bank")).unwrap().lei,
        "529900IH9V4I3VHQVO92"
    );
    let failed = Ok(HttpReply { code: 502, payload: b"bad gateway".to_vec() });
    assert_eq!(
        fetch_entity(&failed, None).unwrap_err(),
        "gleif lookup failed: HTTP 502 — bad gateway"
    );
    let lossy = Ok(HttpReply { code: 404, payload: vec![0x61, 0xff, 0x62] });
    assert_eq!(
        fetch_entity(&lossy, None).unwrap_err(),
        "gleif lookup failed: HTTP 404 — a\u{fffd}b"
    );
    let transport: Result<HttpReply, String> = Err("timeout".to_string());
    assert_eq!(
        fetch_entity(&transport, None).unwrap_err(),
        "gleif request failed: timeout"
    );
}
