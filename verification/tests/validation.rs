use stackql_deploy::manifest::{validate_manifest, Manifest, Resource};

fn resource(name: &str) -> Resource {
    Resource {
        name: name.to_string(),
        file: None,
        condition: None,
        exports: Vec::new(),
        protected: Vec::new(),
        run: None,
        sql: None,
    }
}

fn manifest(names: &[&str]) -> Manifest {
    Manifest {
        name: "test-stack".to_string(),
        providers: vec!["aws".to_string()],
        resources: names.iter().map(|n| resource(n)).collect(),
        exports: Vec::new(),
    }
}

#[test]
fn test_unique_resource_names_valid() {
    let manifest = manifest(&["vpc", "subnet", "role"]);
    let result = validate_manifest(&manifest);
    assert!(
        result.is_ok(),
        "A manifest with distinct resource names should pass validation, got: {:?}",
        result,
    );
}

#[test]
fn test_unique_resource_names_duplicate_fails() {
    let manifest = manifest(&["vpc", "role", "vpc"]);
    let result = validate_manifest(&manifest);

    assert!(
        result.is_err(),
        "A manifest with duplicate resource names must fail validation",
    );

    let errors = result.unwrap_err();
    assert_eq!(
        errors.len(),
        1,
        "Expected exactly one validation error for one duplicate, got: {:?}",
        errors,
    );
    assert_eq!(
        errors[0].rule, "unique-resource-names",
        "Error must reference the correct rule ID",
    );
    assert!(
        errors[0].detail.contains("vpc"),
        "Error detail must mention the duplicate resource name 'vpc', got: {}",
        errors[0].detail,
    );
}

#[test]
fn test_unique_resource_names_multiple_duplicates() {
    let manifest = manifest(&["vpc", "vpc", "role", "role"]);
    let result = validate_manifest(&manifest);

    assert!(result.is_err());
    let errors = result.unwrap_err();
    assert_eq!(
        errors.len(),
        2,
        "Expected two errors (one per duplicate pair), got: {:?}",
        errors,
    );
}

#[test]
fn validation_error_is_shown_with_its_rule() {
    let errors = validate_manifest(&manifest(&["a", "a"])).unwrap_err();
    let text = errors[0].to_string();
    assert!(text.starts_with("[unique-resource-names] "), "got: {}", text);
    assert!(text.contains("'a'"), "got: {}", text);
}

#[test]
fn empty_manifest_is_valid() {
    assert!(validate_manifest(&manifest(&[])).is_ok());
}
