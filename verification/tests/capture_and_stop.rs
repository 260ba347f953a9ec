use stackql_deploy::runner::{exists_capture, scope_fields, QueryAction, QueryRun};
use stackql_deploy::server::{server_to_stop, RunningServer};
use stackql_deploy::outputs::{stack_exports_document, StackExport};
use stackql_deploy::varmap::VarMap;

fn vm(pairs: &[(&str, &str)]) -> VarMap {
    let mut m = VarMap::new();
    for (k, v) in pairs {
        m.insert(k.to_string(), v.to_string());
    }
    m
}

#[test]
fn exists_rows_capture_identifiers() {
    let captured = exists_capture(&vec![vm(&[("vpc_id", "vpc-9")])]).expect("captured");
    assert_eq!(captured.get("vpc_id").map(|s| s.as_str()), Some("vpc-9"));
    assert!(exists_capture(&vec![vm(&[("vpc_id", "NULL")])]).is_none());
    assert!(exists_capture(&vec![vm(&[("count", "1")])]).is_none());
    assert!(exists_capture(&Vec::new()).is_none());
}

#[test]
fn captured_fields_are_scoped_to_the_resource() {
    let mut ctx = vm(&[("region", "us-east-1")]);
    scope_fields(&mut ctx, "vpc", &vm(&[("vpc_id", "vpc-9")]));
    assert_eq!(ctx.get("vpc.vpc_id").map(|s| s.as_str()), Some("vpc-9"));
    assert_eq!(ctx.get("region").map(|s| s.as_str()), Some("us-east-1"));
}

#[test]
fn only_the_first_local_server_on_the_port_is_stopped() {
    let servers = [
        RunningServer { pid: 10, port: 6000 },
        RunningServer { pid: 11, port: 5444 },
        RunningServer { pid: 12, port: 5444 },
    ];
    assert_eq!(server_to_stop("localhost", &servers, 5444), Some(11));
    assert_eq!(server_to_stop("127.0.0.1", &servers, 7000), None);
    assert_eq!(server_to_stop("db.example.com", &servers, 5444), None);
}

#[test]
fn suppressed_failures_return_the_last_error() {
    let mut run = QueryRun::new(2, true);
    assert!(matches!(run.step(Err("first".to_string())), QueryAction::Retry));
    assert!(matches!(run.step(Err("second".to_string())), QueryAction::Retry));
    match run.step(Err("third".to_string())) {
        QueryAction::Return { rows, .. } => {
            assert_eq!(rows.len(), 1);
            assert_eq!(rows[0].get("_stackql_deploy_error").map(|s| s.as_str()), Some("third"));
        }
        _ => panic!("expected the error row"),
    }
}

#[test]
fn stack_exports_document_keeps_json_values() {

    let entries = vec![
        StackExport { name: "stack_name".to_string(), value: "my\"stack".to_string(), is_json: false },
        StackExport { name: "subnets".to_string(), value: "[ \"a\", \"b\" ]".to_string(), is_json: true },
    ];
    assert_eq!(stack_exports_document(&entries), "{\"stack_name\":\"my\\\"stack\",\"subnets\":[\"a\",\"b\"]}");
}
