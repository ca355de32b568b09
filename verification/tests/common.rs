use z_tenant_kyb::common::{
    config_or, kv_map_name, kv_value, names_match, urlencode, validate_country_code,
    validate_lei, validate_vat_number,
};

#[test]
fn urlencode_escapes_query_breaking_characters() {
    assert_eq!(urlencode("Acme & Co"), "Acme%20%26%20Co");
    assert_eq!(urlencode("Bosch-Werke_1.0~x"), "Bosch-Werke_1.0~x");
}

#[test]
fn country_code_accepts_two_letters_and_uppercases() {
    assert_eq!(validate_country_code("de").unwrap(), "DE");
    assert_eq!(validate_country_code(" fr ").unwrap(), "FR");
}

#[test]
fn country_code_rejects_path_traversal() {
    assert!(validate_country_code("../admin").is_err());
    assert!(validate_country_code("DEU").is_err());
    assert!(validate_country_code("").is_err());
}

#[test]
fn vat_number_strips_formatting_and_rejects_junk() {
    assert_eq!(validate_vat_number("811 907 980").unwrap(), "811907980");
    assert_eq!(validate_vat_number("IE-6388047V").unwrap(), "IE6388047V");
    assert!(validate_vat_number("../../etc/passwd").is_err());
    assert!(validate_vat_number("1").is_err());
}

#[test]
fn lei_must_be_twenty_alphanumerics() {
    assert!(validate_lei("529900IH9V4I3VHQVO92").is_ok());
    assert!(validate_lei("TOO-SHORT").is_err());
}

#[test]
fn names_match_ignores_case_and_punctuation() {
    assert!(names_match("Acme GmbH", "ACME G.m.b.H."));
    assert!(names_match("Deutsche Bank Aktiengesellschaft", "Deutsche Bank"));
    assert!(!names_match("Acme GmbH", "Globex Ltd"));
    assert!(!names_match("", "Acme"));
}

#[test]
fn urlencode_escapes_every_reserved_and_non_ascii_byte() {
    assert_eq!(urlencode("a/b?c=d#e"), "a%2Fb%3Fc%3Dd%23e");
    assert_eq!(urlencode("Müller"), "M%C3%BCller");
    assert_eq!(urlencode(""), "");
    let encoded = urlencode("x+y&z%");
    assert_eq!(encoded, "x%2By%26z%25");
    assert!(encoded
        .chars()
        .all(|c| c.is_ascii_alphanumeric() || "-_.~%".contains(c)));
}

#[test]
fn validation_errors_quote_the_rejected_input() {
    assert_eq!(
        validate_country_code("DEU").unwrap_err(),
        "invalid country_code \"DEU\": expected two letters, e.g. DE"
    );
    assert_eq!(
        validate_vat_number("1").unwrap_err(),
        "invalid vat_number \"1\": expected 2-14 alphanumeric characters"
    );
    assert_eq!(
        validate_lei("TOO-SHORT").unwrap_err(),
        "invalid lei \"TOO-SHORT\": expected 20 alphanumeric characters (ISO 17442)"
    );
    assert_eq!(
        validate_country_code("a\"b").unwrap_err(),
        "invalid country_code \"a\\\"b\": expected two letters, e.g. DE"
    );
}

#[test]
fn validators_trim_unicode_white_space_and_bound_lengths() {
    assert_eq!(validate_country_code("\u{3000}de\t").unwrap(), "DE");
    assert!(validate_country_code("d e").is_err());
    assert!(validate_country_code("é1").is_err());
    assert_eq!(validate_lei(" 529900ih9v4i3vhqvo92\n").unwrap(), "529900IH9V4I3VHQVO92");
    assert!(validate_lei("529900IH9V4I3VHQVO9").is_err());
    assert!(validate_lei("529900IH9V4I3VHQVO92X").is_err());
    assert_eq!(validate_vat_number("ab.12").unwrap(), "AB12");
    assert_eq!(validate_vat_number("12345678901234").unwrap(), "12345678901234");
    assert!(validate_vat_number("123456789012345").is_err());
    assert!(validate_vat_number("12é").is_err());
}

#[test]
fn accepted_values_validate_to_themselves() {
    for code in ["de", " Fr "] {
        let once = validate_country_code(code).unwrap();
        assert_eq!(validate_country_code(&once).unwrap(), once);
    }
    let vat = validate_vat_number("ie-6388047v").unwrap();
    assert_eq!(validate_vat_number(&vat).unwrap(), vat);
    let lei = validate_lei("529900ih9v4i3vhqvo92").unwrap();
    assert_eq!(validate_lei(&lei).unwrap(), lei);
}

#[test]
fn names_match_is_symmetric_and_unicode_aware() {
    assert_eq!(
        names_match("Deutsche Bank", "Deutsche Bank Aktiengesellschaft"),
        names_match("Deutsche Bank Aktiengesellschaft", "Deutsche Bank")
    );
    assert!(names_match("MÜLLER AG", "Müller A.G."));
    assert!(!names_match("---", "..."));
    assert!(!names_match("Acme", ""));
}

#[test]
fn config_falls_back_when_missing_blank_or_unreadable() {
    assert_eq!(
        config_or(Ok(Some("https://erp.example.com/api".to_string())), "https://httpbin.org/post"),
        "https://erp.example.com/api"
    );
    assert_eq!(config_or(Ok(Some("   ".to_string())), "dflt"), "dflt");
    assert_eq!(config_or(Ok(None), "dflt"), "dflt");
    assert_eq!(config_or(Err("kv read failed".to_string()), "dflt"), "dflt");
}

fn percent_decode(s: &str) -> Vec<u8> {
    let bytes = s.as_bytes();
    let mut out = Vec::new();
    let mut i = 0;
    while i < bytes.len() {
        if bytes[i] == b'%' && i + 2 < bytes.len() {
            let hex = std::str::from_utf8(&bytes[i + 1..i + 3]).unwrap();
            out.push(u8::from_str_radix(hex, 16).unwrap());
            i += 3;
        } else {
            out.push(bytes[i]);
            i += 1;
        }
    }
    out
}

#[test]
fn percent_encoding_round_trips() {
    for name in ["Acme & Co", "Société Générale #1", "a%b", "~-_.", "", "日本 KK/?="] {
        assert_eq!(percent_decode(&urlencode(name)), name.as_bytes());
    }
}

#[test]
fn kv_map_name_is_tenant_namespaced_in_lower_hex() {
    assert_eq!(kv_map_name(&[0x01, 0xab], "config"), "z:01ab:config");
    assert_eq!(kv_map_name(b"did:z:7", "onboarding"), "z:6469643a7a3a37:onboarding");
    assert_eq!(kv_map_name(&[], "config"), "z::config");
}

#[test]
fn kv_value_reads_text_or_nothing() {
    assert_eq!(kv_value("z:01:config", "k", Ok(None)), Ok(None));
    assert_eq!(
        kv_value("z:01:config", "k", Ok(Some("https://api.example/v1".as_bytes().to_vec()))),
        Ok(Some("https://api.example/v1".to_string()))
    );
}

#[test]
fn kv_value_refuses_bytes_that_are_not_utf8() {
    let err = kv_value("z:01:config", "k", Ok(Some(vec![0x66, 0xff, 0x6f]))).unwrap_err();
    assert!(err.starts_with("kv value for k is not utf-8: "), "{err}");
    assert!(err.len() > "kv value for k is not utf-8: ".len());
}

#[test]
fn kv_value_names_the_map_and_key_of_a_failed_read() {
    assert_eq!(
        kv_value("z:01ab:config", "k", Err("boom".to_string())),
        Err("kv read z:01ab:config/k failed: boom".to_string())
    );
}

#[test]
fn names_match_reflexive_only_with_content() {
    assert!(names_match("Acme", "Acme"));
    assert!(names_match("Ärzte", "Ärzte"));
    assert!(!names_match("-- . --", "-- . --"));
    assert!(names_match("A.c.m.e", "acme"));
    assert!(names_match("acme", "ACME"));
}
