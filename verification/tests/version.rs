use z_tenant_kyb::CONTRACT_VERSION;

#[test]
fn contract_version_is_semver() {
    let parts: Vec<&str> = CONTRACT_VERSION.split('.').collect();
    assert_eq!(parts.len(), 3, "CONTRACT_VERSION must be MAJOR.MINOR.PATCH");
    for part in parts {
        assert!(part.parse::<u32>().is_ok(), "each part must be numeric");
    }
}
