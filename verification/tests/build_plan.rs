use stackql_deploy::teardown::{TeardownAction, TeardownEvent, TeardownRun};
use stackql_deploy::deploy::build_plan;
use stackql_deploy::templating::get_queries;
use stackql_deploy::varmap::AssocMap;

#[test]
fn createorupdate_serves_both_changes() {
    let q = get_queries("/*+ exists */\nSELECT 1;\n/*+ createorupdate, retries=3, retry_delay=5 */\nINSERT 1;\n/*+ create */\nINSERT 2;\n");
    let plan = build_plan("resource", false, &q).ok().expect("a plan");
    let create = plan.create.expect("create");
    assert_eq!(create.anchor.as_deref(), Some("createorupdate"));
    assert_eq!((create.retries, create.retry_delay), (3, 5));
    assert_eq!(plan.update.expect("update").anchor.as_deref(), Some("createorupdate"));
    assert_eq!(plan.exists.expect("exists").anchor.as_deref(), Some("exists"));
    assert!(plan.statecheck.is_none());
    assert!(plan.command.is_none());
}

#[test]
fn query_and_command_resources_fall_back_to_inline_sql() {
    let empty = AssocMap::new();
    let plan = build_plan("query", true, &empty).ok().expect("a plan");
    let exports = plan.exports.expect("exports");
    assert_eq!((exports.anchor, exports.retries, exports.retry_delay), (None, 1, 0));
    assert!(plan.create.is_none());
    let plan = build_plan("command", true, &empty).ok().expect("a plan");
    assert_eq!(plan.command.expect("command").anchor, None);
    assert_eq!(
        build_plan("query", false, &empty).err(),
        Some("Inline sql must be supplied or an iql file must be present with an 'exports' anchor for query type resources.".to_string())
    );
    assert_eq!(
        build_plan("command", false, &empty).err(),
        Some("'sql' should be defined in the resource or the 'command' anchor needs to be supplied in the corresponding iql file for command type resources.".to_string())
    );
}

#[test]
fn teardown_run_deletes_found_resources_last_first() {

    let (mut run, action) = TeardownRun::start(3);
    assert!(matches!(action, TeardownAction::Visit(2)));
    assert!(matches!(run.step(TeardownEvent::Checked(true)), TeardownAction::Delete(2)));
    assert!(matches!(run.step(TeardownEvent::Deleted), TeardownAction::Visit(1)));
    assert!(matches!(run.step(TeardownEvent::Skipped), TeardownAction::Visit(0)));
    assert!(matches!(run.step(TeardownEvent::Checked(false)), TeardownAction::Finished));
    let (_, action) = TeardownRun::start(0);
    assert!(matches!(action, TeardownAction::Finished));
}
