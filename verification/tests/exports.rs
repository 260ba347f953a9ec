use stackql_deploy::exports::{
    check_all_dicts, check_exports_as_statecheck_proxy, dry_run_export_data, export_vars,
    exports_from_proxy_result, is_version_higher, process_export_data, process_exports_result,
    pull_providers, ExportItem, ProviderAction,
};
use stackql_deploy::varmap::VarMap;

fn vm(pairs: &[(&str, &str)]) -> VarMap {
    let mut m = VarMap::new();
    for (k, v) in pairs {
        m.insert(k.to_string(), v.to_string());
    }
    m
}

fn get<'a>(m: &'a VarMap, k: &str) -> Option<&'a str> {
    m.get(k).map(|s| s.as_str())
}

#[test]
fn test_export_vars_sets_global_and_scoped_key() {
    let mut ctx = VarMap::new();
    let data = vm(&[("role_name", "my-role")]);

    export_vars(&mut ctx, "aws_cross_account_role", &data, &[]);

    assert_eq!(get(&ctx, "role_name"), Some("my-role"));
    assert_eq!(get(&ctx, "aws_cross_account_role.role_name"), Some("my-role"));
}

#[test]
fn test_export_vars_global_key_is_overridable() {
    let mut ctx = VarMap::new();

    let data1 = vm(&[("role_name", "first-role")]);
    export_vars(&mut ctx, "resource_a", &data1, &[]);

    let data2 = vm(&[("role_name", "second-role")]);
    export_vars(&mut ctx, "resource_b", &data2, &[]);

    assert_eq!(get(&ctx, "role_name"), Some("second-role"));
}

#[test]
fn test_export_vars_scoped_key_is_immutable() {
    let mut ctx = VarMap::new();

    let data1 = vm(&[("role_name", "original-role")]);
    export_vars(&mut ctx, "resource_a", &data1, &[]);

    let data2 = vm(&[("role_name", "should-not-overwrite")]);
    export_vars(&mut ctx, "resource_a", &data2, &[]);

    assert_eq!(get(&ctx, "resource_a.role_name"), Some("original-role"));
    assert_eq!(get(&ctx, "role_name"), Some("should-not-overwrite"));
}

#[test]
fn test_export_vars_protected_values_are_stored_normally() {
    let mut ctx = VarMap::new();
    let data = vm(&[("secret_key", "super-secret")]);

    export_vars(&mut ctx, "vault", &data, &["secret_key".to_string()]);

    assert_eq!(get(&ctx, "secret_key"), Some("super-secret"));
    assert_eq!(get(&ctx, "vault.secret_key"), Some("super-secret"));
}

#[test]
fn export_of_nothing_leaves_context_unchanged() {
    let mut ctx = vm(&[("a", "1")]);
    export_vars(&mut ctx, "r", &VarMap::new(), &[]);
    assert_eq!(ctx.len(), 1);
    assert_eq!(get(&ctx, "a"), Some("1"));
}

#[test]
fn statecheck_proxy_needs_a_row_without_error() {
    assert!(!check_exports_as_statecheck_proxy(&[]));
    assert!(check_exports_as_statecheck_proxy(&[vm(&[("id", "x")])]));
    assert!(!check_exports_as_statecheck_proxy(&[vm(&[("error", "boom")])]));
    assert!(!check_exports_as_statecheck_proxy(&[vm(&[("_stackql_deploy_error", "boom")])]));
}

fn mapping(pairs: &[(&str, &str)]) -> ExportItem {
    ExportItem::Mapping(pairs.iter().map(|(k, v)| (Some(k.to_string()), Some(v.to_string()))).collect())
}

#[test]
fn all_dicts_requires_a_nonempty_list_of_mappings() {
    assert!(!check_all_dicts(&[]));
    assert!(check_all_dicts(&[mapping(&[("a", "b")])]));
    assert!(!check_all_dicts(&[mapping(&[("a", "b")]), ExportItem::Name("c".to_string())]));
}

#[test]
fn export_data_renames_columns_of_mappings() {
    let rows = vec![vm(&[("vpc_id", "vpc-1"), ("cidr", "10.0.0.0/16")])];
    let items = vec![mapping(&[("vpc_id", "my_vpc_id")])];
    let d = process_export_data(&rows, &items, true);
    assert_eq!(get(&d, "my_vpc_id"), Some("vpc-1"));
    assert_eq!(d.len(), 1);
}

#[test]
fn export_data_reads_named_columns() {
    let rows = vec![vm(&[("vpc_id", "vpc-1")])];
    let items = vec![ExportItem::Name("vpc_id".to_string()), ExportItem::Name("missing".to_string())];
    let d = process_export_data(&rows, &items, false);
    assert_eq!(get(&d, "vpc_id"), Some("vpc-1"));
    assert_eq!(get(&d, "missing"), Some(""));
}

#[test]
fn dry_run_exports_are_placeholders() {
    let items = vec![ExportItem::Name("vpc_id".to_string())];
    let d = dry_run_export_data(&items, false);
    assert_eq!(get(&d, "vpc_id"), Some("<evaluated>"));
    let items = vec![mapping(&[("col", "name")])];
    let d = dry_run_export_data(&items, true);
    assert_eq!(get(&d, "name"), Some("<evaluated>"));
}

#[test]
fn exports_result_errors() {
    let items = vec![ExportItem::Name("x".to_string())];
    match process_exports_result(&[], &items, "res", true) {
        Ok(Some(d)) => assert_eq!(get(&d, "x"), Some("<unknown>")),
        _ => panic!("expected placeholder export data"),
    }
    match process_exports_result(&[], &items, "res", false) {
        Err(e) => assert_eq!(e, "Exports query failed for res"),
        _ => panic!("expected an error"),
    }
    match process_exports_result(&[vm(&[("error", "bad")])], &items, "res", false) {
        Err(e) => assert_eq!(e, "Exports query failed for res\n\nError details:\nbad"),
        _ => panic!("expected an error"),
    }
    match process_exports_result(&[vm(&[("x", "1")]), vm(&[("x", "2")])], &items, "res", false) {
        Err(e) => assert_eq!(e, "Exports should include one row only, received 2 rows"),
        _ => panic!("expected an error"),
    }
    match process_exports_result(&[vm(&[("x", "1")])], &items, "res", false) {
        Ok(Some(d)) => assert_eq!(get(&d, "x"), Some("1")),
        _ => panic!("expected export data"),
    }
}

#[test]
fn proxy_result_exports() {
    let items = vec![ExportItem::Name("x".to_string())];
    assert!(matches!(exports_from_proxy_result(&[], &items), Ok(None)));
    assert!(matches!(exports_from_proxy_result(&[vm(&[("x", "1")])], &[]), Ok(None)));
    match exports_from_proxy_result(&[vm(&[("x", "1")]), vm(&[("x", "2")])], &items) {
        Err(e) => assert_eq!(e, "Exports should include one row only, received 2 rows"),
        _ => panic!("expected an error"),
    }
    match exports_from_proxy_result(&[vm(&[("x", "1")])], &items) {
        Ok(Some(d)) => assert_eq!(get(&d, "x"), Some("1")),
        _ => panic!("expected export data"),
    }
}

#[test]
fn version_comparison() {
    assert!(is_version_higher("v24.11.00274", "v24.10.00000"));
    assert!(!is_version_higher("v24.10.00000", "v24.11.00274"));
    assert!(!is_version_higher("v1.0", "v1.0"));
    assert!(is_version_higher("v1.10.0", "v1.9.10"));
    assert!(!is_version_higher("v1.9.10", "v1.10.0"));
    assert!(!is_version_higher("v1.2", "v1.2.0"));
    assert!(is_version_higher("v1.2.1", "v1.2"));
}

#[test]
fn provider_pulls() {
    let installed = vec![vm(&[("name", "aws"), ("version", "v24.11.00274")])];
    let providers = vec!["aws".to_string(), "google".to_string(), "aws::v24.10.00000".to_string()];
    let actions = pull_providers(&providers, &installed);
    assert_eq!(actions.len(), 3);
    assert!(matches!(actions[0], ProviderAction::AlreadyInstalled));
    match &actions[1] {
        ProviderAction::Pull(cmd) => assert_eq!(cmd, "REGISTRY PULL google"),
        _ => panic!("expected a pull"),
    }
    assert!(matches!(actions[2], ProviderAction::HigherInstalled));
}
