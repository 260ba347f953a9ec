//! The decisions of a build for a `resource` or `multi` resource: which
//! checks run, whether the resource is created or updated, and whether the
//! deployment stands.  The caller runs each check or change that an action
//! names and hands back its result.
use vstd::prelude::*;
use crate::text::{chars_of, string_of, push_str, str_eq};
use crate::templating::{ParsedQuery, ParsedQueryView};
use crate::varmap::AssocMap;

verus! {

/// What the queries of a resource offer a build.
#[derive(Debug, Clone, Copy)]
pub struct DeployConfig {
    pub has_createorupdate: bool,
    pub has_create: bool,
    pub has_exists: bool,
    pub has_statecheck: bool,
    /// An exports query is there to stand in for a state check.
    pub has_exports: bool,
    /// The manifest says the state of an existing resource is not checked.
    pub skip_validation: bool,
    pub dry_run: bool,
}

/// Where a build of a resource stands.
#[derive(Debug, Clone, Copy, PartialEq, Eq, Structural)]
pub enum DeployStage {
    AwaitExists,
    AwaitStateAsExists,
    AwaitPreState,
    AwaitFastProxy,
    AwaitCreate,
    AwaitUpdate,
    AwaitPostState,
    AwaitPostProxy,
    Finished,
}

/// The state of a build of one resource.
#[derive(Debug, Clone, Copy)]
pub struct DeployState {
    pub config: DeployConfig,
    pub stage: DeployStage,
    pub exists: bool,
    pub correct: bool,
    pub applied: bool,
    /// The rows of an exports query that stood in for a state check are
    /// the resource's exports.
    pub use_proxy_rows: bool,
}

/// Why a build of a resource stops the run.
#[derive(Debug, Clone, Copy, PartialEq, Eq, Structural)]
pub enum DeployFailure {
    NoCreateAnchor,
    NoCheckAnchor,
    PostDeployChecks,
}

/// What the caller does next.
#[derive(Debug, Clone, Copy, PartialEq, Eq, Structural)]
pub enum DeployAction {
    /// Run the `exists` query; hand back whether it found the resource.
    CheckExists,
    /// Run the `statecheck` query; hand back whether it passed.
    CheckState,
    /// Run the exports query as a state check, with one attempt and no
    /// delay where `fast`, else with the exports query's own retries.
    CheckExportsProxy { fast: bool },
    /// Create the resource (with `createorupdate` where there is one).
    Create,
    /// Update the resource.
    Update,
    /// Stop the run.
    Fail(DeployFailure),
    /// The resource is done; its exports come from the rows of the exports
    /// query that stood in for a state check where `use_proxy_rows`.
    Done { use_proxy_rows: bool },
}

/// The result of what an action asked for.
#[derive(Debug, Clone, Copy)]
pub enum DeployEvent {
    /// A check found the resource, or passed.
    Checked(bool),
    /// An exports query standing in for a state check: whether it passed
    /// and whether it gave rows.
    Proxy { correct: bool, has_rows: bool },
    /// Whether a create or update was carried out.
    Applied(bool),
}

pub open spec fn at(st: DeployState, stage: DeployStage) -> DeployState {
    DeployState { stage, ..st }
}

/// The end of a build: it fails where the resource is not in the desired
/// state, unless this is a dry run.
pub open spec fn finish(st: DeployState) -> (DeployState, DeployAction) {
    if !st.correct && !st.config.dry_run {
        (at(st, DeployStage::Finished), DeployAction::Fail(DeployFailure::PostDeployChecks))
    } else {
        (at(st, DeployStage::Finished), DeployAction::Done { use_proxy_rows: st.use_proxy_rows })
    }
}

/// After a change: the state is checked again where something was created
/// or updated.
pub open spec fn post(st: DeployState) -> (DeployState, DeployAction) {
    if st.applied && st.config.has_statecheck {
        (at(st, DeployStage::AwaitPostState), DeployAction::CheckState)
    } else if st.applied && st.config.has_exports {
        (at(st, DeployStage::AwaitPostProxy), DeployAction::CheckExportsProxy { fast: false })
    } else {
        finish(st)
    }
}

/// Create what does not exist; update what exists in the wrong state.
pub open spec fn apply(st: DeployState) -> (DeployState, DeployAction) {
    if !st.exists {
        (at(st, DeployStage::AwaitCreate), DeployAction::Create)
    } else if !st.correct {
        (at(st, DeployStage::AwaitUpdate), DeployAction::Update)
    } else {
        post(st)
    }
}

pub open spec fn initial(config: DeployConfig) -> DeployState {
    DeployState {
        config,
        stage: DeployStage::Finished,
        exists: false,
        correct: false,
        applied: false,
        use_proxy_rows: false,
    }
}

/// The first step of a build: `createorupdate` goes straight to a change;
/// else the state check, the exports query, or the exists query decides
/// whether the resource exists.
pub open spec fn deploy_start(config: DeployConfig) -> (DeployState, DeployAction) {
    let st = initial(config);
    if !config.has_createorupdate && !config.has_create {
        (st, DeployAction::Fail(DeployFailure::NoCreateAnchor))
    } else if config.has_createorupdate {
        apply(st)
    } else if config.has_statecheck {
        if config.has_exists {
            (at(st, DeployStage::AwaitExists), DeployAction::CheckExists)
        } else {
            (at(st, DeployStage::AwaitStateAsExists), DeployAction::CheckState)
        }
    } else if config.has_exports {
        (at(st, DeployStage::AwaitFastProxy), DeployAction::CheckExportsProxy { fast: true })
    } else if config.has_exists {
        (at(st, DeployStage::AwaitExists), DeployAction::CheckExists)
    } else {
        (st, DeployAction::Fail(DeployFailure::NoCheckAnchor))
    }
}

/// A build's step on the result of its last action.  An event that does
/// not answer the action leaves the state as it is.
pub open spec fn deploy_step(st: DeployState, ev: DeployEvent) -> (DeployState, DeployAction) {
    match (st.stage, ev) {
        (DeployStage::AwaitExists, DeployEvent::Checked(found)) => {
            let s = DeployState { exists: found, ..st };
            if st.config.has_statecheck && found && !s.correct {
                if st.config.skip_validation {
                    apply(DeployState { correct: true, ..s })
                } else {
                    (at(s, DeployStage::AwaitPreState), DeployAction::CheckState)
                }
            } else {
                apply(s)
            }
        },
        (DeployStage::AwaitStateAsExists, DeployEvent::Checked(ok)) => apply(DeployState { exists: ok, correct: ok, ..st }),
        (DeployStage::AwaitPreState, DeployEvent::Checked(ok)) => apply(DeployState { correct: ok, ..st }),
        (DeployStage::AwaitFastProxy, DeployEvent::Proxy { correct, has_rows }) => {
            if correct {
                apply(DeployState { exists: true, correct: true, use_proxy_rows: has_rows, ..st })
            } else if st.config.has_exists {
                (at(DeployState { exists: false, correct: false, use_proxy_rows: false, ..st }, DeployStage::AwaitExists),
                 DeployAction::CheckExists)
            } else {
                apply(DeployState { exists: false, correct: false, use_proxy_rows: false, ..st })
            }
        },
        (DeployStage::AwaitCreate, DeployEvent::Applied(done)) => post(DeployState { applied: done, ..st }),
        (DeployStage::AwaitUpdate, DeployEvent::Applied(done)) => post(DeployState { applied: done, ..st }),
        (DeployStage::AwaitPostState, DeployEvent::Checked(ok)) => finish(DeployState { correct: ok, ..st }),
        (DeployStage::AwaitPostProxy, DeployEvent::Proxy { correct, has_rows }) => finish(DeployState {
            correct,
            use_proxy_rows: if has_rows { true } else { st.use_proxy_rows },
            ..st
        }),
        _ => (st, DeployAction::Done { use_proxy_rows: st.use_proxy_rows }),
    }
}

fn at_exec(st: DeployState, stage: DeployStage) -> (r: DeployState)
    ensures
        r == at(st, stage),
{
    DeployState { stage, ..st }
}

fn finish_exec(st: DeployState) -> (r: (DeployState, DeployAction))
    ensures
        r == finish(st),
{
    if !st.correct && !st.config.dry_run {
        (at_exec(st, DeployStage::Finished), DeployAction::Fail(DeployFailure::PostDeployChecks))
    } else {
        (at_exec(st, DeployStage::Finished), DeployAction::Done { use_proxy_rows: st.use_proxy_rows })
    }
}

fn post_exec(st: DeployState) -> (r: (DeployState, DeployAction))
    ensures
        r == post(st),
{
    if st.applied && st.config.has_statecheck {
        (at_exec(st, DeployStage::AwaitPostState), DeployAction::CheckState)
    } else if st.applied && st.config.has_exports {
        (at_exec(st, DeployStage::AwaitPostProxy), DeployAction::CheckExportsProxy { fast: false })
    } else {
        finish_exec(st)
    }
}

fn apply_exec(st: DeployState) -> (r: (DeployState, DeployAction))
    ensures
        r == apply(st),
{
    if !st.exists {
        (at_exec(st, DeployStage::AwaitCreate), DeployAction::Create)
    } else if !st.correct {
        (at_exec(st, DeployStage::AwaitUpdate), DeployAction::Update)
    } else {
        post_exec(st)
    }
}

/// A build of one resource.
pub struct DeployRun {
    pub state: DeployState,
}

impl DeployRun {
    /// Starts a build of a resource whose queries and settings are
    /// `config`, with the first action.
    pub fn start(config: DeployConfig) -> (r: (DeployRun, DeployAction))
        ensures
            (r.0.state, r.1) == deploy_start(config),
    {
        let st = DeployState {
            config,
            stage: DeployStage::Finished,
            exists: false,
            correct: false,
            applied: false,
            use_proxy_rows: false,
        };
        let (s, a) = if !config.has_createorupdate && !config.has_create {
            (st, DeployAction::Fail(DeployFailure::NoCreateAnchor))
        } else if config.has_createorupdate {
            apply_exec(st)
        } else if config.has_statecheck {
            if config.has_exists {
                (at_exec(st, DeployStage::AwaitExists), DeployAction::CheckExists)
            } else {
                (at_exec(st, DeployStage::AwaitStateAsExists), DeployAction::CheckState)
            }
        } else if config.has_exports {
            (at_exec(st, DeployStage::AwaitFastProxy), DeployAction::CheckExportsProxy { fast: true })
        } else if config.has_exists {
            (at_exec(st, DeployStage::AwaitExists), DeployAction::CheckExists)
        } else {
            (st, DeployAction::Fail(DeployFailure::NoCheckAnchor))
        };
        (DeployRun { state: s }, a)
    }

    /// The next action, given the result of the last one.
    pub fn step(&mut self, ev: DeployEvent) -> (a: DeployAction)
        ensures
            (final(self).state, a) == deploy_step(old(self).state, ev),
    {
        let st = self.state;
        let (s, a) = match (st.stage, ev) {
            (DeployStage::AwaitExists, DeployEvent::Checked(found)) => {
                let s = DeployState { exists: found, ..st };
                if st.config.has_statecheck && found && !s.correct {
                    if st.config.skip_validation {
                        apply_exec(DeployState { correct: true, ..s })
                    } else {
                        (at_exec(s, DeployStage::AwaitPreState), DeployAction::CheckState)
                    }
                } else {
                    apply_exec(s)
                }
            },
            (DeployStage::AwaitStateAsExists, DeployEvent::Checked(ok)) => apply_exec(DeployState { exists: ok, correct: ok, ..st }),
            (DeployStage::AwaitPreState, DeployEvent::Checked(ok)) => apply_exec(DeployState { correct: ok, ..st }),
            (DeployStage::AwaitFastProxy, DeployEvent::Proxy { correct, has_rows }) => {
                if correct {
                    apply_exec(DeployState { exists: true, correct: true, use_proxy_rows: has_rows, ..st })
                } else if st.config.has_exists {
                    (at_exec(DeployState { exists: false, correct: false, use_proxy_rows: false, ..st }, DeployStage::AwaitExists),
                     DeployAction::CheckExists)
                } else {
                    apply_exec(DeployState { exists: false, correct: false, use_proxy_rows: false, ..st })
                }
            },
            (DeployStage::AwaitCreate, DeployEvent::Applied(done)) => post_exec(DeployState { applied: done, ..st }),
            (DeployStage::AwaitUpdate, DeployEvent::Applied(done)) => post_exec(DeployState { applied: done, ..st }),
            (DeployStage::AwaitPostState, DeployEvent::Checked(ok)) => finish_exec(DeployState { correct: ok, ..st }),
            (DeployStage::AwaitPostProxy, DeployEvent::Proxy { correct, has_rows }) => finish_exec(DeployState {
                correct,
                use_proxy_rows: if has_rows { true } else { st.use_proxy_rows },
                ..st
            }),
            _ => (st, DeployAction::Done { use_proxy_rows: st.use_proxy_rows }),
        };
        self.state = s;
        a
    }
}

/// The message on which a build stops for `failure` of the resource `name`.
pub fn failure_message(failure: DeployFailure, name: &str) -> (r: String)
    ensures
        failure == DeployFailure::NoCreateAnchor ==> r@ == "iql file must include either 'create' or 'createorupdate' anchor."@,
        failure == DeployFailure::NoCheckAnchor ==> r@ == "iql file must include either 'exists', 'statecheck', or 'exports' anchor."@,
        failure == DeployFailure::PostDeployChecks ==> r@ == "deployment failed for "@ + name@ + " after post-deploy checks."@,
{
    match failure {
        DeployFailure::NoCreateAnchor => "iql file must include either 'create' or 'createorupdate' anchor.".to_owned(),
        DeployFailure::NoCheckAnchor => "iql file must include either 'exists', 'statecheck', or 'exports' anchor.".to_owned(),
        DeployFailure::PostDeployChecks => {
            let mut t = chars_of("deployment failed for ");
            push_str(&mut t, name);
            push_str(&mut t, " after post-deploy checks.");
            string_of(t.as_slice())
        },
    }
}

// ---------------------------------------------------------------------------
// Laws of a build
// ---------------------------------------------------------------------------

/// A resource is created only where no check found it, and updated only
/// where it was found and not in the desired state.
pub proof fn law_change_follows_checks(st: DeployState, ev: DeployEvent)
    ensures
        ({
            let (s, a) = deploy_step(st, ev);
            &&& a == DeployAction::Create ==> !s.exists
            &&& a == DeployAction::Update ==> s.exists && !s.correct
        }),
{
}

/// A build that ends without failing leaves a resource in the desired
/// state, unless it is a dry run.
pub proof fn law_done_means_desired_state(st: DeployState, ev: DeployEvent)
    requires
        st.stage != DeployStage::Finished,
    ensures
        ({
            let (s, a) = deploy_step(st, ev);
            a is Done && s.stage == DeployStage::Finished ==> s.correct || s.config.dry_run
        }),
{
}

/// A build with `createorupdate` runs no check before its change.
pub proof fn law_createorupdate_skips_checks(config: DeployConfig)
    requires
        config.has_createorupdate,
    ensures
        deploy_start(config).1 == DeployAction::Create,
{
}

// ---------------------------------------------------------------------------
// Laws of the existence decision
// ---------------------------------------------------------------------------

/// Where the state check stands in for the exists check, its verdict is
/// also whether the resource exists: a failed check leaves a missing
/// resource that is created, a passing one a resource in the desired state
/// that is neither created nor updated.
pub proof fn law_statecheck_as_exists_decides_existence(st: DeployState, ok: bool)
    requires
        st.stage == DeployStage::AwaitStateAsExists,
    ensures
        deploy_step(st, DeployEvent::Checked(ok)).0.exists == ok,
        !ok ==> deploy_step(st, DeployEvent::Checked(ok)).1 == DeployAction::Create,
        ok ==> deploy_step(st, DeployEvent::Checked(ok)).1 != DeployAction::Create
            && deploy_step(st, DeployEvent::Checked(ok)).1 != DeployAction::Update,
{
}

/// A resource that the exists check does not find is created.
pub proof fn law_missing_resource_is_created(st: DeployState)
    requires
        st.stage == DeployStage::AwaitExists,
    ensures
        deploy_step(st, DeployEvent::Checked(false)).0.exists == false,
        deploy_step(st, DeployEvent::Checked(false)).1 == DeployAction::Create,
{
}

/// Whatever the step, an update is only ever asked for a resource that
/// exists, and a create only for one that does not.
pub proof fn law_changes_follow_existence(st: DeployState, ev: DeployEvent)
    ensures
        deploy_step(st, ev).1 == DeployAction::Update ==> deploy_step(st, ev).0.exists,
        deploy_step(st, ev).1 == DeployAction::Create ==> !deploy_step(st, ev).0.exists
            || deploy_step(st, ev).0.config.has_createorupdate,
{
}

// ---------------------------------------------------------------------------
// Which queries a build runs
// ---------------------------------------------------------------------------

/// A query that a build runs for a resource: the anchor it is rendered
/// from (`None` for the resource's inline SQL), with its retries and delay.
pub struct PlannedQuery {
    pub anchor: Option<String>,
    pub retries: u32,
    pub retry_delay: u32,
}

pub open spec fn planned_view(q: Option<PlannedQuery>) -> Option<(Option<Seq<char>>, u32, u32)> {
    match q {
        Some(p) => Some((match p.anchor { Some(a) => Some(a@), None => None }, p.retries, p.retry_delay)),
        None => None,
    }
}

/// The queries of a build for one resource.
pub struct BuildPlan {
    pub create: Option<PlannedQuery>,
    pub update: Option<PlannedQuery>,
    pub exists: Option<PlannedQuery>,
    pub statecheck: Option<PlannedQuery>,
    pub exports: Option<PlannedQuery>,
    pub command: Option<PlannedQuery>,
}

pub struct BuildPlanView {
    pub create: Option<(Option<Seq<char>>, u32, u32)>,
    pub update: Option<(Option<Seq<char>>, u32, u32)>,
    pub exists: Option<(Option<Seq<char>>, u32, u32)>,
    pub statecheck: Option<(Option<Seq<char>>, u32, u32)>,
    pub exports: Option<(Option<Seq<char>>, u32, u32)>,
    pub command: Option<(Option<Seq<char>>, u32, u32)>,
}

impl View for BuildPlan {
    type V = BuildPlanView;

    open spec fn view(&self) -> BuildPlanView {
        BuildPlanView {
            create: planned_view(self.create),
            update: planned_view(self.update),
            exists: planned_view(self.exists),
            statecheck: planned_view(self.statecheck),
            exports: planned_view(self.exports),
            command: planned_view(self.command),
        }
    }
}

/// The query of anchor `a`, where the query file has one.
pub open spec fn anchor_query(qs: Map<Seq<char>, ParsedQueryView>, a: Seq<char>) -> Option<(Option<Seq<char>>, u32, u32)> {
    if qs.contains_key(a) {
        Some((Some(a), qs[a].options.retries, qs[a].options.retry_delay))
    } else {
        None
    }
}

/// The resource's inline SQL, run once.
pub open spec fn inline_query() -> Option<(Option<Seq<char>>, u32, u32)> {
    Some((None, 1, 0))
}

/// The queries that a build runs for a resource of type `res_type` whose
/// query file has the anchors `qs` (none where the resource's inline SQL
/// is used, `has_inline`): a resource creates and updates with
/// `createorupdate` where it has one, else with `create` and `update`; a
/// query resource exports with its `exports` anchor or its inline SQL; a
/// command runs its inline SQL or its `command` anchor.  A query or
/// command resource with neither is an error.
pub open spec fn build_plan_of(res_type: Seq<char>, has_inline: bool, qs: Map<Seq<char>, ParsedQueryView>) -> Result<BuildPlanView, Seq<char>> {
    let is_resource = res_type == "resource"@ || res_type == "multi"@;
    let create = if !is_resource { None } else if qs.contains_key("createorupdate"@) {
        anchor_query(qs, "createorupdate"@)
    } else {
        anchor_query(qs, "create"@)
    };
    let update = if !is_resource { None } else if qs.contains_key("createorupdate"@) {
        anchor_query(qs, "createorupdate"@)
    } else {
        anchor_query(qs, "update"@)
    };
    let exports = anchor_query(qs, "exports"@);
    if res_type == "query"@ && exports is None && !has_inline {
        Err("Inline sql must be supplied or an iql file must be present with an 'exports' anchor for query type resources."@)
    } else if res_type == "command"@ && !has_inline && !qs.contains_key("command"@) {
        Err("'sql' should be defined in the resource or the 'command' anchor needs to be supplied in the corresponding iql file for command type resources."@)
    } else {
        Ok(BuildPlanView {
            create,
            update,
            exists: anchor_query(qs, "exists"@),
            statecheck: anchor_query(qs, "statecheck"@),
            exports: if res_type == "query"@ && exports is None { inline_query() } else { exports },
            command: if res_type != "command"@ { None } else if has_inline { inline_query() } else { anchor_query(qs, "command"@) },
        })
    }
}

fn planned_anchor(qs: &AssocMap<ParsedQuery>, a: &str) -> (r: Option<PlannedQuery>)
    ensures
        planned_view(r) == anchor_query(qs@, a@),
{
    match qs.get(a) {
        Some(q) => Some(PlannedQuery { anchor: Some(a.to_owned()), retries: q.options.retries, retry_delay: q.options.retry_delay }),
        None => None,
    }
}

fn planned_inline() -> (r: Option<PlannedQuery>)
    ensures
        planned_view(r) == inline_query(),
{
    Some(PlannedQuery { anchor: None, retries: 1, retry_delay: 0 })
}

/// The queries that a build runs for a resource, as `build_plan_of` says.
pub fn build_plan(res_type: &str, has_inline: bool, qs: &AssocMap<ParsedQuery>) -> (r: Result<BuildPlan, String>)
    ensures
        match r {
            Ok(p) => build_plan_of(res_type@, has_inline, qs@) == Ok::<BuildPlanView, Seq<char>>(p@),
            Err(e) => build_plan_of(res_type@, has_inline, qs@) == Err::<BuildPlanView, Seq<char>>(e@),
        },
{
    let is_resource = str_eq(res_type, "resource") || str_eq(res_type, "multi");
    let has_cou = qs.contains_key("createorupdate");
    let create = if !is_resource { None } else if has_cou { planned_anchor(qs, "createorupdate") } else { planned_anchor(qs, "create") };
    let update = if !is_resource { None } else if has_cou { planned_anchor(qs, "createorupdate") } else { planned_anchor(qs, "update") };
    let exports = planned_anchor(qs, "exports");
    let is_query = str_eq(res_type, "query");
    let is_command = str_eq(res_type, "command");
    if is_query && exports.is_none() && !has_inline {
        return Err("Inline sql must be supplied or an iql file must be present with an 'exports' anchor for query type resources.".to_owned());
    }
    if is_command && !has_inline && !qs.contains_key("command") {
        return Err("'sql' should be defined in the resource or the 'command' anchor needs to be supplied in the corresponding iql file for command type resources.".to_owned());
    }
    let exports = if is_query && exports.is_none() { planned_inline() } else { exports };
    let command = if !is_command { None } else if has_inline { planned_inline() } else { planned_anchor(qs, "command") };
    Ok(BuildPlan {
        create,
        update,
        exists: planned_anchor(qs, "exists"),
        statecheck: planned_anchor(qs, "statecheck"),
        exports,
        command,
    })
}

} // verus!
