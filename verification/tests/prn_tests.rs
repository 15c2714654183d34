use peridio_cli::prn::{PRNBuilder, PRNError, PRN};

#[test]
fn test_prn_parse_valid() {
    let prn_str = "prn:1:550e8400-e29b-41d4-a716-446655440000:binary:550e8400-e29b-41d4-a716-446655440001";
    let prn = PRN::parse(prn_str).unwrap();

    assert_eq!(prn.version, "1");
    assert_eq!(prn.organization_id, "550e8400-e29b-41d4-a716-446655440000");
    assert_eq!(prn.resource_type, "binary");
    assert_eq!(prn.resource_id, "550e8400-e29b-41d4-a716-446655440001");
}

#[test]
fn test_prn_parse_invalid_format() {
    let result = PRN::parse("invalid:prn");
    assert!(matches!(result, Err(PRNError::InvalidFormat(_))));
}

#[test]
fn test_prn_parse_invalid_prefix() {
    let result = PRN::parse("invalid:1:org:binary:id");
    assert!(matches!(result, Err(PRNError::InvalidPrefix(_))));
}

#[test]
fn test_prn_parse_invalid_version() {
    let result = PRN::parse("prn:2:org:binary:id");
    assert!(matches!(result, Err(PRNError::UnsupportedVersion(_))));
}

#[test]
fn test_prn_parse_invalid_org_id() {
    let result = PRN::parse("prn:1:invalid-uuid:binary:550e8400-e29b-41d4-a716-446655440001");
    assert!(matches!(result, Err(PRNError::InvalidOrganizationId(_))));
}

#[test]
fn test_prn_builder_from_prn() {
    let artifact_version_prn =
        "prn:1:550e8400-e29b-41d4-a716-446655440000:artifact_version:550e8400-e29b-41d4-a716-446655440002";
    let builder = PRNBuilder::from_prn(artifact_version_prn).unwrap();

    let binary_prn = builder.binary("550e8400-e29b-41d4-a716-446655440003").unwrap();
    assert_eq!(
        binary_prn,
        "prn:1:550e8400-e29b-41d4-a716-446655440000:binary:550e8400-e29b-41d4-a716-446655440003"
    );
}

#[test]
fn test_prn_builder_various_resources() {
    let org_id = "550e8400-e29b-41d4-a716-446655440000";
    let builder = PRNBuilder::new(org_id.to_string());

    assert_eq!(
        builder.binary("550e8400-e29b-41d4-a716-446655440001").unwrap(),
        "prn:1:550e8400-e29b-41d4-a716-446655440000:binary:550e8400-e29b-41d4-a716-446655440001"
    );

    assert_eq!(
        builder.artifact("550e8400-e29b-41d4-a716-446655440002").unwrap(),
        "prn:1:550e8400-e29b-41d4-a716-446655440000:artifact:550e8400-e29b-41d4-a716-446655440002"
    );

    assert_eq!(
        builder.bundle("550e8400-e29b-41d4-a716-446655440003").unwrap(),
        "prn:1:550e8400-e29b-41d4-a716-446655440000:bundle:550e8400-e29b-41d4-a716-446655440003"
    );

    assert_eq!(
        builder.artifact_version("550e8400-e29b-41d4-a716-446655440004").unwrap(),
        "prn:1:550e8400-e29b-41d4-a716-446655440000:artifact_version:550e8400-e29b-41d4-a716-446655440004"
    );
}

#[test]
fn test_prn_builder_invalid_org_id() {
    let builder = PRNBuilder::new("invalid-uuid".to_string());
    let result = builder.binary("550e8400-e29b-41d4-a716-446655440001");
    assert!(matches!(result, Err(PRNError::InvalidOrganizationId(_))));
}

#[test]
fn test_prn_builder_invalid_resource_id() {
    let org_id = "550e8400-e29b-41d4-a716-446655440000";
    let builder = PRNBuilder::new(org_id.to_string());
    let result = builder.binary("invalid-resource-id");
    assert!(matches!(result, Err(PRNError::InvalidResourceId(_))));
}

#[test]
fn test_prn_builder_from_organization_prn() {
    let organization_prn = "prn:1:550e8400-e29b-41d4-a716-446655440000";
    let builder = PRNBuilder::from_prn(organization_prn).unwrap();

    let binary_prn = builder.binary("550e8400-e29b-41d4-a716-446655440001").unwrap();
    assert_eq!(
        binary_prn,
        "prn:1:550e8400-e29b-41d4-a716-446655440000:binary:550e8400-e29b-41d4-a716-446655440001"
    );
}

#[test]
fn test_parse_organization_id() {
    let org_prn = "prn:1:550e8400-e29b-41d4-a716-446655440000";
    let org_id = PRN::parse_organization_id(org_prn).unwrap();
    assert_eq!(org_id, "550e8400-e29b-41d4-a716-446655440000");
}

#[test]
fn test_parse_organization_id_invalid() {
    let result = PRN::parse_organization_id("prn:1:invalid-uuid");
    assert!(matches!(result, Err(PRNError::InvalidOrganizationId(_))));

    let result = PRN::parse_organization_id("invalid:format");
    assert!(matches!(result, Err(PRNError::InvalidFormat(_))));
}

#[test]
fn prn_error_messages_name_the_problem() {
    let result = PRN::parse("invalid:prn");
    match result {
        Err(e) => assert_eq!(e.to_string(), "Invalid PRN format: PRN must have 5 parts separated by colons, got 2 parts"),
        Ok(_) => panic!("a two-part name must not parse"),
    }
    let builder = PRNBuilder::from_prn("a:b").err().unwrap();
    assert_eq!(
        builder.to_string(),
        "Invalid PRN format: PRN must have 3 or 5 parts separated by colons, got 2 parts"
    );
}

#[test]
fn built_name_parses_back() {
    let builder = PRNBuilder::new("550e8400-e29b-41d4-a716-446655440000".to_string());
    let name = builder.artifact("550e8400-e29b-41d4-a716-446655440009").unwrap();
    let parsed = PRN::parse(&name).unwrap();
    assert_eq!(parsed.organization_id, "550e8400-e29b-41d4-a716-446655440000");
    assert_eq!(parsed.resource_type, "artifact");
    assert_eq!(parsed.resource_id, "550e8400-e29b-41d4-a716-446655440009");
}

#[test]
fn uuid_forms_accepted_by_the_parser() {
    let braced = "prn:1:{550e8400-e29b-41d4-a716-446655440000}:binary:550e8400e29b41d4a716446655440001";
    let prn = PRN::parse(braced).unwrap();
    assert_eq!(prn.resource_id, "550e8400e29b41d4a716446655440001");
    assert!(PRN::parse("prn:1:550e8400-e29b-41d4-a716-44665544000:binary:x").is_err());
}
