use stackql_deploy::condition::{evaluate_resource_condition, evaluate_simple_condition};
use stackql_deploy::deploy::{failure_message, DeployAction, DeployConfig, DeployEvent, DeployFailure, DeployRun};
use stackql_deploy::display::{print_unicode_box, BorderColor};
use stackql_deploy::download::{get_download_url, AppError, Platform};
use stackql_deploy::exports::ExportItem;
use stackql_deploy::filters::{merge_list_positions, sql_escape, sql_list, sql_list_filter, sql_list_item, SqlListInput};
use stackql_deploy::info::contributor_rows;
use stackql_deploy::logging::{format_log_line, parse_log_level, LevelColors, LogLevel};
use stackql_deploy::options::FailureAction;
use stackql_deploy::outputs::{dry_run_script, script_export_names, script_exports, stack_exports};
use stackql_deploy::patterns::filter_base64_encode;
use stackql_deploy::query::{execute_query, CellValue, QueryResult, RawNotice, RawQueryResult};
use stackql_deploy::runner::{
    error_detected_in_notice, prepare_command, row_to_map, run_test, show_query, CommandAction, CommandRun,
    QueryAction, QueryRun, TestAction, TestRetries,
};
use stackql_deploy::server::{
    check_and_start_server, extract_port_from_cmdline, extract_port_from_ps, get_server_pid, is_server_running,
    parse_pgrep_output, parse_windows_servers, server_args, stop_local_server, RunningServer, ServerPlan,
    StartServerOptions,
};
use stackql_deploy::settings::ServerSettings;
use stackql_deploy::teardown::{
    apply_reverse_exports, deletion_message, exports_source, skip_unless_found, teardown_handles, teardown_order, teardown_plan,
    ExportsSource, TeardownPlan,
};
use stackql_deploy::templating::{get_queries, parse_anchor, split_dict_entries};
use stackql_deploy::varmap::{AssocMap, VarMap};

fn vm(pairs: &[(&str, &str)]) -> VarMap {
    let mut m = VarMap::new();
    for (k, v) in pairs {
        m.insert(k.to_string(), v.to_string());
    }
    m
}

fn strings(v: &[&str]) -> Vec<String> {
    v.iter().map(|s| s.to_string()).collect()
}

// --- conditions ---

#[test]
fn simple_conditions() {
    assert_eq!(evaluate_simple_condition(" true "), Some(true));
    assert_eq!(evaluate_simple_condition("False"), Some(false));
    assert_eq!(evaluate_simple_condition("'prod' == 'prod'"), Some(true));
    assert_eq!(evaluate_simple_condition("'prod' == \"dev\""), Some(false));
    assert_eq!(evaluate_simple_condition("'prod' != 'dev'"), Some(true));
    assert_eq!(evaluate_simple_condition("'a' in ['a', 'b']"), Some(true));
    assert_eq!(evaluate_simple_condition("'c' in ['a', 'b']"), Some(false));
    assert_eq!(evaluate_simple_condition("'c' not in ['a', 'b']"), Some(true));
    assert_eq!(evaluate_simple_condition("'a' not in ['a', 'b']"), Some(false));
    assert_eq!(evaluate_simple_condition("maybe"), None);
}

#[test]
fn ne_negates_eq() {
    for (a, b) in [("x", "x"), ("x", "y"), ("'p'", "'q'")] {
        let eq = evaluate_simple_condition(&format!("{} == {}", a, b)).unwrap();
        let ne = evaluate_simple_condition(&format!("{} != {}", a, b)).unwrap();
        assert_eq!(eq, !ne);
    }
}

#[test]
fn resource_conditions() {
    assert_eq!(evaluate_resource_condition("r", None), Ok(true));
    assert_eq!(evaluate_resource_condition("r", Some("'a' == 'b'")), Ok(false));
    assert_eq!(
        evaluate_resource_condition("r", Some("nonsense")),
        Err("Error evaluating condition for resource [r]: nonsense".to_string())
    );
}

// --- templating ---

#[test]
fn anchors_are_parsed() {
    let (key, uints, strs) = parse_anchor("Exists, retries=5, retry_delay = 10, short_circuit_field=a.b, junk");
    assert_eq!(key, "exists");
    assert_eq!(uints.get("retries"), Some(&5));
    assert_eq!(uints.get("retry_delay"), Some(&10));
    assert_eq!(strs.get("short_circuit_field").map(|s| s.as_str()), Some("a.b"));
    assert_eq!(uints.len(), 2);
    assert_eq!(strs.len(), 1);
}

#[test]
fn dict_entries_respect_nesting_and_quotes() {
    let e = split_dict_entries(r#""a": x, "b": {"c": 1, "d": 2}, "e": 'f,g',"#);
    assert_eq!(e, strings(&[r#""a": x"#, r#""b": {"c": 1, "d": 2}"#, r#""e": 'f,g'"#]));
}

#[test]
fn queries_are_read_from_a_file() {
    let content = "/*+ preflight, retries=3 */\nSELECT 1;\n/*+ create */\nINSERT INTO t\nVALUES (1);\n/*+ postdeploy */\nSELECT 2;\n/*+ delete, retries=2, retry_delay=4 */\nDELETE FROM t;\n";
    let q = get_queries(content);
    assert_eq!(q.len(), 4);
    let exists = q.get("exists").unwrap();
    assert_eq!(exists.template, "SELECT 1;");
    assert_eq!(exists.options.retries, 3);
    assert_eq!(exists.options.retry_delay, 0);
    assert_eq!(exists.options.postdelete_retries, 10);
    assert_eq!(exists.options.postdelete_retry_delay, 5);
    assert_eq!(q.get("create").unwrap().template, "INSERT INTO t\nVALUES (1);");
    assert_eq!(q.get("statecheck").unwrap().template, "SELECT 2;");
    let delete = q.get("delete").unwrap();
    assert_eq!(delete.options.retries, 2);
    assert_eq!(delete.options.retry_delay, 4);
    assert!(q.get("preflight").is_none());
}

#[test]
fn canonical_anchor_wins_over_alias() {
    let q = get_queries("/*+ preflight */\nSELECT 1;\n/*+ exists */\nSELECT 2;\n");
    assert_eq!(q.get("exists").unwrap().template, "SELECT 2;");
    assert_eq!(q.len(), 1);
}

// --- query results and runs ---

fn raw(columns: &[&str], rows: Vec<Vec<(&str, CellValue)>>, notices: Vec<&str>) -> RawQueryResult {
    RawQueryResult {
        column_names: strings(columns),
        rows: rows
            .into_iter()
            .map(|r| {
                let mut m = AssocMap::new();
                for (k, v) in r {
                    m.insert(k.to_string(), v);
                }
                m
            })
            .collect(),
        notices: notices
            .into_iter()
            .map(|n| RawNotice { message: Some(n.to_string()), detail: None, hint: None })
            .collect(),
        row_count: 0,
    }
}

#[test]
fn query_results_are_converted() {
    let r = execute_query(Ok(raw(
        &["name", "count"],
        vec![vec![("name", CellValue::Text("vpc".to_string())), ("count", CellValue::Integer(1))]],
        vec![],
    )))
    .unwrap();
    match r {
        QueryResult::Data { columns, rows, notices } => {
            assert_eq!(columns.len(), 2);
            assert_eq!(columns[0].name, "name");
            assert_eq!(rows[0].values, strings(&["vpc", "1"]));
            assert!(notices.is_empty());
        }
        _ => panic!("expected data"),
    }
    assert!(matches!(execute_query(Ok(raw(&[], vec![], vec![]))), Ok(QueryResult::Empty)));
    assert_eq!(execute_query(Err("down".to_string())).err(), Some("Query execution failed: down".to_string()));
}

fn data(columns: &[&str], rows: &[&[&str]], notices: &[&str]) -> QueryResult {
    QueryResult::Data {
        columns: columns.iter().map(|c| stackql_deploy::query::QueryResultColumn { name: c.to_string() }).collect(),
        rows: rows.iter().map(|r| stackql_deploy::query::QueryResultRow { values: strings(r) }).collect(),
        notices: strings(notices),
    }
}

#[test]
fn query_run_returns_rows() {
    let mut run = QueryRun::new(0, false);
    match run.step(Ok(data(&["id"], &[&["a"]], &[]))) {
        QueryAction::Return { rows, after_sleep } => {
            assert!(!after_sleep);
            assert_eq!(rows.len(), 1);
            assert_eq!(rows[0].get("id").map(|s| s.as_str()), Some("a"));
        }
        _ => panic!("expected rows"),
    }
}

#[test]
fn query_run_retries_then_reports_last_error() {
    let mut run = QueryRun::new(1, true);
    assert!(matches!(run.step(Err("boom".to_string())), QueryAction::Retry));
    match run.step(Err("bang".to_string())) {
        QueryAction::Return { rows, after_sleep } => {
            assert!(after_sleep);
            assert_eq!(rows.len(), 1);
            assert_eq!(rows[0].get("_stackql_deploy_error").map(|s| s.as_str()), Some("bang"));
        }
        _ => panic!("expected the error row"),
    }
}

#[test]
fn query_run_exits_on_error_without_suppression() {
    let mut run = QueryRun::new(0, false);
    match run.step(Err("boom".to_string())) {
        QueryAction::Exit(m) => assert_eq!(m, "Exception during stackql query execution:\n\nboom\n"),
        _ => panic!("expected exit"),
    }
}

#[test]
fn query_run_rejects_more_than_one_match() {
    let mut run = QueryRun::new(0, false);
    match run.step(Ok(data(&["count"], &[&["2"]], &[]))) {
        QueryAction::Exit(m) => assert_eq!(m, "Detected more than one resource matching query criteria, expected 0 or 1, got 2"),
        _ => panic!("expected exit"),
    }
}

#[test]
fn command_runs() {
    let mut run = CommandRun::new(1, false);
    match run.step(Ok(QueryResult::Command("INSERT 0 1".to_string()))) {
        CommandAction::Return(message) => {
            assert_eq!(message, "INSERT 0 1");
        }
        _ => panic!("expected return"),
    }
    let mut run = CommandRun::new(1, false);
    assert!(matches!(run.step(Err("x".to_string())), CommandAction::Retry));
    match run.step(Err("y".to_string())) {
        CommandAction::Exit(message) => assert_eq!(message, "Exception during stackql command execution:\n\ny\n"),
        _ => panic!("expected exit"),
    }
    let mut run = CommandRun::new(1, false);
    assert!(matches!(run.step(Ok(data(&[], &[], &["fine", "error: not ready"]))), CommandAction::Retry));
    assert_eq!(run.attempt, 1);
    match run.step(Ok(data(&[], &[], &["error: still"]))) {
        CommandAction::Exit(message) => {
            assert_eq!(message, "Error during stackql command execution:\n\nerror: still\n");
        }
        _ => panic!("expected exit"),
    }
}

#[test]
fn notices_and_tests() {
    assert!(error_detected_in_notice("error: bad"));
    assert!(error_detected_in_notice("http response status code: 503, busy"));
    assert!(error_detected_in_notice("cannot find matching operation for x"));
    assert!(!error_detected_in_notice("ERROR: not at the start in lower case"));
    assert!(!error_detected_in_notice("all fine"));
    assert!(run_test(&vec![vm(&[("count", "1")])], false));
    assert!(!run_test(&vec![vm(&[("count", "0")])], false));
    assert!(run_test(&vec![vm(&[("count", "0")])], true));
    assert!(run_test(&vec![vm(&[("vpc_id", "vpc-123")])], false));
    assert!(!run_test(&vec![vm(&[("vpc_id", "NULL")])], false));
    assert!(!run_test(&vec![vm(&[("vpc_id", "")])], false));
    assert!(run_test(&vec![vm(&[("vpc_id", "")])], true));
    assert!(!run_test(&vec![vm(&[("vpc_id", "vpc-123")])], true));
    let mut t = TestRetries::new(2);
    assert!(t.should_run());
    assert!(matches!(t.step(false), TestAction::Retry));
    assert!(matches!(t.step(false), TestAction::Failed));
    let mut t = TestRetries::new(2);
    assert!(matches!(t.step(true), TestAction::Passed));
}

#[test]
fn rows_become_maps() {
    let m = row_to_map(&strings(&["a", "b"]), &strings(&["1", "2"]));
    assert_eq!(m.get("b").map(|s| s.as_str()), Some("2"));
}

#[test]
fn queries_are_shown_on_request() {
    assert_eq!(show_query(true, "SELECT 1"), Some("query:\n\nSELECT 1\n".to_string()));
    assert_eq!(show_query(false, "SELECT 1"), None);
}

#[test]
fn registry_pull_commands_are_rewritten() {
    assert_eq!(prepare_command("REGISTRY PULL aws::v24.11.00274;"), "REGISTRY PULL aws v24.11.00274");
    assert_eq!(prepare_command("REGISTRY PULL aws;"), "REGISTRY PULL aws;");
    assert_eq!(prepare_command("SELECT 1"), "SELECT 1");
}

// --- servers and settings ---

#[test]
fn ports_are_read_from_command_lines() {
    assert_eq!(extract_port_from_cmdline("stackql srv --pgsrv.port=5444 --x"), Some(5444));
    assert_eq!(extract_port_from_cmdline("stackql srv --pgsrv.port 6000"), Some(6000));
    assert_eq!(extract_port_from_cmdline("stackql srv"), None);
    assert_eq!(extract_port_from_ps("stackql srv --pgsrv.port 5466"), Some(5466));
}

#[test]
fn running_servers() {
    let servers = [RunningServer { pid: 10, port: 5444 }, RunningServer { pid: 11, port: 6000 }];
    assert!(is_server_running(&servers, 6000));
    assert!(!is_server_running(&servers, 7000));
    assert_eq!(get_server_pid(&servers, 5444), Some(10));
    assert_eq!(get_server_pid(&servers, 1), None);
    assert!(stop_local_server("localhost", &servers, 5444));
    assert!(!stop_local_server("example.com", &servers, 5444));
    assert!(matches!(check_and_start_server("127.0.0.1", &servers, 5444), ServerPlan::Start { stop_first: true }));
    assert!(matches!(check_and_start_server("0.0.0.0", &servers, 1), ServerPlan::Start { stop_first: false }));
    assert!(matches!(check_and_start_server("db.example.com", &servers, 5444), ServerPlan::Remote));
}

#[test]
fn server_arguments() {
    let mut o = StartServerOptions::default();
    assert_eq!(o.host, "localhost");
    assert_eq!(o.port, 5444);
    o.registry = Some("{}".to_string());
    assert_eq!(
        server_args(&o),
        strings(&["srv", "--pgsrv.address", "localhost", "--pgsrv.port", "5444", "--pgsrv.debug.enable=true", "--pgsrv.loglevel=DEBUG", "--registry", "{}"])
    );
}

#[test]
fn process_listings() {
    let s = parse_windows_servers("PID=42 CMD=stackql srv --pgsrv.port=5444\nPID=x CMD=y\n");
    assert_eq!(s.len(), 1);
    assert_eq!(s[0].pid, 42);
    assert_eq!(s[0].port, 5444);
    let p = parse_pgrep_output("123\n456\nnot-a-pid\n");
    assert_eq!(p.len(), 2);
    assert_eq!(p[0].1, 123);
    assert_eq!(p[1].1, 456);
}

#[test]
fn settings_first_initialization_wins() {
    let mut s = ServerSettings::new();
    assert_eq!(s.server_host(), "localhost");
    assert_eq!(s.server_port(), 5444);
    assert!(s.connection_string().is_none());
    s.init_globals("db".to_string(), 6000);
    s.init_globals("other".to_string(), 7000);
    assert_eq!(s.server_host(), "db");
    assert_eq!(s.server_port(), 6000);
    assert_eq!(s.connection_string().map(|c| c.as_str()), Some("host=db port=6000 user=stackql dbname=stackql application_name=stackql"));
}

// --- display, logging, download, options ---

#[test]
fn boxes_frame_messages() {
    let lines = print_unicode_box("hi", BorderColor::Green);
    assert_eq!(lines.len(), 3);
    assert_eq!(lines[0], "\x1b[92m┌────┐\x1b[0m");
    assert_eq!(lines[1], "\x1b[92m│ hi │\x1b[0m");
    assert_eq!(lines[2], "\x1b[92m└────┘\x1b[0m");
    assert_eq!(BorderColor::Red.ansi_code(), "\x1b[91m");
    let wide = print_unicode_box("🚀 go\nx", BorderColor::Blue);
    assert_eq!(wide.len(), 4);
    assert_eq!(wide[0], "\x1b[94m┌───────┐\x1b[0m");
    assert_eq!(wide[1], "\x1b[94m│ 🚀 go │\x1b[0m");
    assert_eq!(wide[2], "\x1b[94m│ x     │\x1b[0m");
}

#[test]
fn log_levels_and_lines() {
    assert_eq!(LevelColors::get_color(LogLevel::Error), "\x1B[31m");
    assert_eq!(LevelColors::get_color(LogLevel::Trace), "\x1B[35m");
    assert_eq!(parse_log_level("DEBUG"), LogLevel::Debug);
    assert_eq!(parse_log_level("loud"), LogLevel::Info);
    assert_eq!(
        format_log_line("T", LogLevel::Info, "main.rs", 3, "hello"),
        "[T \x1B[32mINFO\x1B[0m stackql_deploy] hello"
    );
    assert_eq!(
        format_log_line("T", LogLevel::Debug, "main.rs", 42, "hello"),
        "[T \x1B[36mDEBUG\x1B[0m main.rs (42)] hello"
    );
}

#[test]
fn download_urls() {
    assert_eq!(
        get_download_url(Platform::Linux, true).unwrap(),
        "https://releases.stackql.io/stackql/latest/stackql_linux_arm64.zip"
    );
    assert_eq!(
        get_download_url(Platform::Linux, false).unwrap(),
        "https://releases.stackql.io/stackql/latest/stackql_linux_amd64.zip"
    );
    assert_eq!(
        get_download_url(Platform::MacOS, false).unwrap(),
        "https://releases.stackql.io/stackql/latest/stackql_darwin_multiarch.pkg"
    );
    assert_eq!(
        get_download_url(Platform::Windows, false).unwrap(),
        "https://releases.stackql.io/stackql/latest/stackql_windows_amd64.zip"
    );
    match get_download_url(Platform::Unknown, false) {
        Err(AppError::CommandFailed(m)) => assert_eq!(m, "Unsupported platform for stackql download"),
        Ok(u) => panic!("unexpected url {}", u),
    }
}

#[test]
fn failure_actions() {
    assert_eq!(FailureAction::parse("Rollback"), Ok(FailureAction::Rollback));
    assert_eq!(FailureAction::parse("IGNORE"), Ok(FailureAction::Ignore));
    assert_eq!("error".parse::<FailureAction>(), Ok(FailureAction::Error));
    assert_eq!(FailureAction::parse("retry"), Err("Unknown failure action: retry".to_string()));
}

// --- filters ---

#[test]
fn sql_filters() {
    assert_eq!(sql_escape("O'Brien's"), "O''Brien''s");
    assert_eq!(sql_list(&strings(&["a", "b"])), "('a','b')");
    assert_eq!(sql_list(&Vec::new()), "(NULL)");
    assert_eq!(sql_list_filter(SqlListInput::Text(r#"["x","y"]"#.to_string())), "('x','y')");
    assert_eq!(sql_list_filter(SqlListInput::Text("solo".to_string())), "('solo')");
    assert_eq!(sql_list_filter(SqlListInput::Other), "(NULL)");
    assert_eq!(sql_list_filter(SqlListInput::Items(strings(&["1"]))), "('1')");
    assert_eq!(sql_list_item(false, "\"q\""), "q");
    assert_eq!(sql_list_item(true, "\"q\""), "\"q\"");
}

#[test]
fn merge_lists_keeps_first_of_each() {
    assert_eq!(merge_list_positions(&strings(&["1", "2", "1", "3", "2"])), vec![0, 1, 3]);
    assert_eq!(merge_list_positions(&Vec::new()), Vec::<usize>::new());
}

#[test]
fn base64_encoding() {
    assert_eq!(filter_base64_encode("hello"), "aGVsbG8=");
    assert_eq!(filter_base64_encode(""), "");
}

// --- outputs ---

#[test]
fn stack_exports_are_collected() {
    let ctx = vm(&[("vpc_id", "vpc-1"), ("ids", "[1,2]"), ("bad", "[not json")]);
    let es = stack_exports("s", "dev", &strings(&["vpc_id", "stack_name", "ids", "bad"]), &ctx, "1.5s").ok().unwrap();
    let v: Vec<(String, String, bool)> = es.into_iter().map(|e| (e.name, e.value, e.is_json)).collect();
    assert_eq!(
        v,
        vec![
            ("stack_name".to_string(), "s".to_string(), false),
            ("stack_env".to_string(), "dev".to_string(), false),
            ("vpc_id".to_string(), "vpc-1".to_string(), false),
            ("ids".to_string(), "[1,2]".to_string(), true),
            ("bad".to_string(), "[not json".to_string(), false),
            ("elapsed_time".to_string(), "1.5s".to_string(), false),
        ]
    );
    match stack_exports("s", "dev", &strings(&["a", "vpc_id", "b"]), &ctx, "1s") {
        Err(m) => assert_eq!(m, strings(&["a", "b"])),
        Ok(_) => panic!("expected missing variables"),
    }
}

#[test]
fn script_outputs() {
    assert!(matches!(script_exports("whatever", &[]), Ok(None)));
    match script_exports(r#"{"a": "1", "b": "2"}"#, &strings(&["a"])) {
        Ok(Some(m)) => {
            assert_eq!(m.get("a").map(|s| s.as_str()), Some("1"));
            assert_eq!(m.len(), 2);
        }
        _ => panic!("expected variables"),
    }
    match script_exports(r#"{"a": "1"}"#, &strings(&["a", "c"])) {
        Err(e) => assert_eq!(e, "Exported variable 'c' not found in script output"),
        _ => panic!("expected an error"),
    }
    match script_exports("not json", &strings(&["a"])) {
        Err(e) => assert_eq!(e, "External scripts must return valid JSON: not json"),
        _ => panic!("expected an error"),
    }
    let names = script_export_names(&[
        ExportItem::Name("a".to_string()),
        ExportItem::Mapping(vec![]),
        ExportItem::Name("b".to_string()),
    ]);
    assert_eq!(names, strings(&["a", "b"]));
    assert_eq!(dry_run_script(r#"echo "" """ x"#), r#"echo "<evaluated>" "<evaluated>"" x"#);
}

// --- teardown ---

#[test]
fn teardown_goes_in_reverse() {
    assert_eq!(teardown_order(3), vec![2, 1, 0]);
    assert!(teardown_order(0).is_empty());
}

#[test]
fn reverse_exports_fill_the_context() {
    let mut ctx = vm(&[("my_vpc_id", "vpc-1")]);
    apply_reverse_exports(
        &mut ctx,
        &[ExportItem::Mapping(vec![
            (Some("vpc_id".to_string()), Some("my_vpc_id".to_string())),
            (Some("other".to_string()), Some("absent".to_string())),
        ])],
    );
    assert_eq!(ctx.get("vpc_id").map(|s| s.as_str()), Some("vpc-1"));
    assert!(ctx.get("other").is_none());
}

#[test]
fn teardown_plans() {
    let q = get_queries("/*+ statecheck, retries=2 */\nSELECT 1;\n/*+ delete, retries=3 */\nDELETE;\n");
    match teardown_plan("vpc", "resource", &q) {
        TeardownPlan::Proceed { check_anchor, check_retries, pre_check, ignore_errors, delete_retries, .. } => {
            assert_eq!(check_anchor, "statecheck");
            assert_eq!(check_retries, 2);
            assert!(pre_check);
            assert!(!ignore_errors);
            assert_eq!(delete_retries, 3);
        }
        TeardownPlan::Skip { message, .. } => panic!("unexpected skip: {}", message),
    }
    match teardown_plan("vpc", "multi", &q) {
        TeardownPlan::Proceed { pre_check, ignore_errors, .. } => {
            assert!(!pre_check);
            assert!(ignore_errors);
        }
        TeardownPlan::Skip { message, .. } => panic!("unexpected skip: {}", message),
    }
    match teardown_plan("q", "query", &q) {
        TeardownPlan::Skip { message, check_first } => {
            assert_eq!(message, "skipping resource [q] (type: query)");
            assert!(check_first.is_none());
        }
        _ => panic!("expected a skip"),
    }
    let no_delete = get_queries("/*+ exists */\nSELECT 1;\n");
    match teardown_plan("vpc", "resource", &no_delete) {
        TeardownPlan::Skip { message, check_first } => {
            assert_eq!(message, "delete query not defined for [vpc], skipping...");
            assert_eq!(check_first, Some("exists".to_string()));
        }
        _ => panic!("expected a skip"),
    }
    let nothing = get_queries("/*+ delete */\nDELETE;\n");
    match teardown_plan("vpc", "resource", &nothing) {
        TeardownPlan::Skip { message, .. } => assert_eq!(message, "No exists or statecheck query for [vpc], skipping..."),
        _ => panic!("expected a skip"),
    }
    assert_eq!(skip_unless_found("vpc", true), None);
    assert_eq!(skip_unless_found("vpc", false), Some("resource [vpc] does not exist, skipping delete".to_string()));
    assert_eq!(deletion_message("vpc", false), "successfully deleted vpc");
    assert_eq!(
        deletion_message("vpc", true),
        "[vpc] delete dispatched (resource may still be deleting asynchronously)"
    );
    assert_eq!(exports_source("command", true), ExportsSource::Nothing);
    assert_eq!(exports_source("query", true), ExportsSource::InlineSql);
    assert_eq!(exports_source("query", false), ExportsSource::QueryFile);
    assert_eq!(exports_source("resource", true), ExportsSource::QueryFile);
    assert!(teardown_handles("multi"));
    assert!(!teardown_handles("script"));
}

// --- builds ---

fn config() -> DeployConfig {
    DeployConfig {
        has_createorupdate: false,
        has_create: true,
        has_exists: true,
        has_statecheck: true,
        has_exports: false,
        skip_validation: false,
        dry_run: false,
    }
}

#[test]
fn build_creates_a_missing_resource_and_checks_it() {
    let (mut run, a) = DeployRun::start(config());
    assert_eq!(a, DeployAction::CheckExists);
    assert_eq!(run.step(DeployEvent::Checked(false)), DeployAction::Create);
    assert_eq!(run.step(DeployEvent::Applied(true)), DeployAction::CheckState);
    assert_eq!(run.step(DeployEvent::Checked(true)), DeployAction::Done { use_proxy_rows: false });
}

#[test]
fn build_updates_a_resource_in_the_wrong_state() {
    let (mut run, _) = DeployRun::start(config());
    assert_eq!(run.step(DeployEvent::Checked(true)), DeployAction::CheckState);
    assert_eq!(run.step(DeployEvent::Checked(false)), DeployAction::Update);
    assert_eq!(run.step(DeployEvent::Applied(true)), DeployAction::CheckState);
    assert_eq!(run.step(DeployEvent::Checked(false)), DeployAction::Fail(DeployFailure::PostDeployChecks));
}

#[test]
fn build_leaves_a_correct_resource_alone() {
    let (mut run, _) = DeployRun::start(config());
    assert_eq!(run.step(DeployEvent::Checked(true)), DeployAction::CheckState);
    assert_eq!(run.step(DeployEvent::Checked(true)), DeployAction::Done { use_proxy_rows: false });
}

#[test]
fn build_uses_exports_as_a_state_check() {
    let c = DeployConfig { has_statecheck: false, has_exports: true, ..config() };
    let (mut run, a) = DeployRun::start(c);
    assert_eq!(a, DeployAction::CheckExportsProxy { fast: true });
    assert_eq!(
        run.step(DeployEvent::Proxy { correct: true, has_rows: true }),
        DeployAction::Done { use_proxy_rows: true }
    );
    let (mut run, _) = DeployRun::start(c);
    assert_eq!(run.step(DeployEvent::Proxy { correct: false, has_rows: false }), DeployAction::CheckExists);
    assert_eq!(run.step(DeployEvent::Checked(false)), DeployAction::Create);
    assert_eq!(run.step(DeployEvent::Applied(true)), DeployAction::CheckExportsProxy { fast: false });
    assert_eq!(
        run.step(DeployEvent::Proxy { correct: true, has_rows: true }),
        DeployAction::Done { use_proxy_rows: true }
    );
}

#[test]
fn build_failures() {
    let c = DeployConfig { has_create: false, ..config() };
    assert_eq!(DeployRun::start(c).1, DeployAction::Fail(DeployFailure::NoCreateAnchor));
    let c = DeployConfig { has_exists: false, has_statecheck: false, has_exports: false, ..config() };
    assert_eq!(DeployRun::start(c).1, DeployAction::Fail(DeployFailure::NoCheckAnchor));
    let c = DeployConfig { has_createorupdate: true, has_statecheck: false, ..config() };
    let (mut run, a) = DeployRun::start(c);
    assert_eq!(a, DeployAction::Create);
    assert_eq!(run.step(DeployEvent::Applied(true)), DeployAction::Fail(DeployFailure::PostDeployChecks));
    let c = DeployConfig { dry_run: true, ..config() };
    let (mut run, _) = DeployRun::start(c);
    assert_eq!(run.step(DeployEvent::Checked(false)), DeployAction::Create);
    assert_eq!(run.step(DeployEvent::Applied(false)), DeployAction::Done { use_proxy_rows: false });
    assert_eq!(failure_message(DeployFailure::PostDeployChecks, "vpc"), "deployment failed for vpc after post-deploy checks.");
    assert_eq!(
        failure_message(DeployFailure::NoCreateAnchor, "vpc"),
        "iql file must include either 'create' or 'createorupdate' anchor."
    );
}

#[test]
fn skip_validation_trusts_an_existing_resource() {
    let c = DeployConfig { skip_validation: true, ..config() };
    let (mut run, _) = DeployRun::start(c);
    assert_eq!(run.step(DeployEvent::Checked(true)), DeployAction::Done { use_proxy_rows: false });
}

// --- info ---

#[test]
fn contributors_are_listed_four_to_a_row() {
    let rows = contributor_rows("a\nb\n\n  \nc\nd\ne\n");
    assert_eq!(rows, strings(&["a, b, c, d", "e"]));
    assert!(contributor_rows("").is_empty());
}

// --- callbacks ---

use stackql_deploy::callback::{
    callback_anchor, callback_succeeded, callback_timeout_message, capture_returning, fields_map, returning_fields,
    should_short_circuit, JsonTree,
};

#[test]
fn callback_queries_and_defaults() {
    let q = get_queries("/*+ create */\nINSERT;\n/*+ callback:create, retries=10 */\nSELECT 1 as success;\n/*+ callback */\nSELECT 2;\n");
    assert_eq!(callback_anchor(&q, "create"), Some("callback:create".to_string()));
    assert_eq!(callback_anchor(&q, "delete"), Some("callback".to_string()));
    let plain = q.get("callback").unwrap();
    assert_eq!(plain.options.retries, 3);
    assert_eq!(plain.options.retry_delay, 5);
    let specific = q.get("callback:create").unwrap();
    assert_eq!(specific.options.retries, 10);
    assert_eq!(specific.options.retry_delay, 5);
    assert_eq!(q.get("create").unwrap().options.retries, 1);
    let none = get_queries("/*+ create */\nINSERT;\n");
    assert_eq!(callback_anchor(&none, "create"), None);
}

#[test]
fn returned_rows_are_flattened_and_kept() {
    let row = vec![
        (
            "ProgressEvent".to_string(),
            JsonTree::Object(vec![
                ("OperationStatus".to_string(), JsonTree::Leaf("SUCCESS".to_string())),
                ("RequestToken".to_string(), JsonTree::Leaf("a0088b9e".to_string())),
            ]),
        ),
        ("Identifier".to_string(), JsonTree::Leaf("bucket-1".to_string())),
    ];
    let fields = returning_fields(&row);
    assert_eq!(
        fields,
        vec![
            ("ProgressEvent.OperationStatus".to_string(), "SUCCESS".to_string()),
            ("ProgressEvent.RequestToken".to_string(), "a0088b9e".to_string()),
            ("Identifier".to_string(), "bucket-1".to_string()),
        ]
    );
    let mut ctx = VarMap::new();
    capture_returning(&mut ctx, "aws_s3_workspace_bucket", &fields);
    assert_eq!(ctx.get("callback.ProgressEvent.OperationStatus").map(|s| s.as_str()), Some("SUCCESS"));
    assert_eq!(
        ctx.get("aws_s3_workspace_bucket.callback.ProgressEvent.RequestToken").map(|s| s.as_str()),
        Some("a0088b9e")
    );
    let m = fields_map(&fields);
    assert!(should_short_circuit(&m, Some("ProgressEvent.OperationStatus"), Some("SUCCESS")));
    assert!(!should_short_circuit(&m, Some("ProgressEvent.OperationStatus"), Some("FAILED")));
    assert!(!should_short_circuit(&m, None, Some("SUCCESS")));
}

#[test]
fn callback_polls() {
    assert!(callback_succeeded(&[vm(&[("success", "true")])]));
    assert!(callback_succeeded(&[vm(&[("success", "0")]), vm(&[("success", "1")])]));
    assert!(callback_succeeded(&[vm(&[("count", "1")])]));
    assert!(!callback_succeeded(&[vm(&[("success", "false"), ("count", "1")])]));
    assert!(!callback_succeeded(&[]));
    assert_eq!(
        callback_timeout_message("bucket", "create", 3),
        "callback:create for [bucket] did not succeed after 3 attempts"
    );
}

// --- resource variables ---

use stackql_deploy::context::{add_resource_variables, resource_token};

#[test]
fn idempotency_tokens_are_stable_per_resource() {
    let mut global = VarMap::new();
    let first = resource_token(&mut global, "bucket");
    assert_eq!(first.len(), 36);
    let again = resource_token(&mut global, "bucket");
    assert_eq!(first, again);
    assert_eq!(global.get("bucket.idempotency_token").map(|s| s.as_str()), Some(first.as_str()));
    let other = resource_token(&mut global, "role");
    assert_ne!(first, other);
    let mut ctx = VarMap::new();
    add_resource_variables(&mut ctx, "bucket", &first);
    assert_eq!(ctx.get("resource_name").map(|s| s.as_str()), Some("bucket"));
    assert_eq!(ctx.get("idempotency_token").map(|s| s.as_str()), Some(first.as_str()));
    assert_eq!(ctx.get("this.idempotency_token").map(|s| s.as_str()), Some(first.as_str()));
}

#[test]
fn suppressed_query_runs_exit_only_on_counts() {
    let mut run = QueryRun::new(0, true);
    match run.step(Ok(data(&["error"], &[&["bad"]], &[]))) {
        QueryAction::Return { rows, .. } => {
            assert_eq!(rows[0].get("_stackql_deploy_error").map(|s| s.as_str()), Some("bad"));
        }
        _ => panic!("expected the error row"),
    }
    let mut run = QueryRun::new(0, true);
    assert!(matches!(run.step(Ok(data(&["count"], &[&["3"]], &[]))), QueryAction::Exit(_)));
}

#[test]
fn ignored_command_errors_do_not_stop() {
    let mut run = CommandRun::new(0, true);
    match run.step(Err("boom".to_string())) {
        CommandAction::Return(message) => {
            assert_eq!(message, "");
        }
        _ => panic!("expected a return"),
    }
    let mut run = CommandRun::new(0, true);
    match run.step(Ok(data(&[], &[], &["error: ignored", "fine"]))) {
        CommandAction::Return(message) => assert_eq!(message, "error: ignored\nfine"),
        _ => panic!("expected a return"),
    }
}
