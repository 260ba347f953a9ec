//! The decisions of a teardown: the order in which resources go, which
//! query checks that a resource exists, what is deleted, and the context
//! that the delete queries see.
use vstd::prelude::*;
use crate::exports::{ExportItem, ExportItemView, items_view, opt_str_view, unwrap_or_empty};
use crate::templating::{ParsedQuery, ParsedQueryView};
use crate::text::{chars_of, string_of, push_str, str_eq};
use crate::varmap::{AssocMap, VarMap};

verus! {

/// Positions `0..n` in reverse.
pub open spec fn reverse_positions(n: nat) -> Seq<int> {
    Seq::new(n, |i: int| n - 1 - i)
}

/// A teardown visits every resource exactly once, each after all those
/// declared after it.
pub proof fn law_teardown_visits_each_resource_once_in_reverse(n: nat)
    ensures
        reverse_positions(n).len() == n,
        forall|p: int| 0 <= p < n ==> #[trigger] reverse_positions(n).contains(p),
        forall|i: int, j: int| 0 <= i < j < n ==> #[trigger] reverse_positions(n)[i] > #[trigger] reverse_positions(n)[j],
{
    assert forall|p: int| 0 <= p < n implies #[trigger] reverse_positions(n).contains(p) by {
        assert(reverse_positions(n)[n - 1 - p] == p);
    }
}

/// The order in which a teardown visits the `n` resources of a manifest:
/// the reverse of the manifest's order.
pub fn teardown_order(n: usize) -> (r: Vec<usize>)
    ensures
        r@.map_values(|i: usize| i as int) == reverse_positions(n as nat),
{
    let mut r: Vec<usize> = Vec::new();
    let mut k: usize = n;
    while k > 0
        invariant
            k <= n,
            r@.len() == n - k,
            forall|i: int| 0 <= i < r@.len() ==> #[trigger] r@[i] == n - 1 - i,
        decreases k,
    {
        k = k - 1;
        r.push(k);
    }
    assert(r@.map_values(|i: usize| i as int) =~= reverse_positions(n as nat));
    r
}

// ---------------------------------------------------------------------------
// The context of a teardown
// ---------------------------------------------------------------------------

/// The context with each pair of a mapping `(key, lookup)` applied in order:
/// `key` is set to the value of `lookup` where the context has one.
pub open spec fn reverse_mapping(
    ctx: Map<Seq<char>, Seq<char>>,
    m: Seq<(Option<Seq<char>>, Option<Seq<char>>)>,
) -> Map<Seq<char>, Seq<char>>
    decreases m.len(),
{
    if m.len() == 0 {
        ctx
    } else {
        let c = reverse_mapping(ctx, m.drop_last());
        let key = unwrap_or_empty(m.last().0);
        let lookup = unwrap_or_empty(m.last().1);
        if c.contains_key(lookup) { c.insert(key, c[lookup]) } else { c }
    }
}

/// The context with the mappings of a resource's exports applied in
/// reverse: each export name set back to the value of the variable that
/// holds it.
pub open spec fn reverse_exports(ctx: Map<Seq<char>, Seq<char>>, items: Seq<ExportItemView>) -> Map<Seq<char>, Seq<char>>
    decreases items.len(),
{
    if items.len() == 0 {
        ctx
    } else {
        let c = reverse_exports(ctx, items.drop_last());
        match items.last() {
            ExportItemView::Mapping(m) => reverse_mapping(c, m),
            _ => c,
        }
    }
}

fn apply_reverse_mapping(ctx: &mut VarMap, m: &Vec<(Option<String>, Option<String>)>)
    ensures
        final(ctx)@ == reverse_mapping(old(ctx)@,
            m@.map_values(|p: (Option<String>, Option<String>)| (opt_str_view(p.0), opt_str_view(p.1)))),
{
    let ghost mv = m@.map_values(|p: (Option<String>, Option<String>)| (opt_str_view(p.0), opt_str_view(p.1)));
    let ghost c0 = ctx@;
    let mut i: usize = 0;
    assert(mv.subrange(0, 0) =~= Seq::<(Option<Seq<char>>, Option<Seq<char>>)>::empty());
    while i < m.len()
        invariant
            i <= m@.len(),
            mv == m@.map_values(|p: (Option<String>, Option<String>)| (opt_str_view(p.0), opt_str_view(p.1))),
            ctx@ == reverse_mapping(c0, mv.subrange(0, i as int)),
        decreases m@.len() - i,
    {
        assert(mv.subrange(0, i + 1).drop_last() =~= mv.subrange(0, i as int));
        assert(mv.subrange(0, i + 1).last() == mv[i as int]);
        let key: String = match &m[i].0 {
            Some(k) => k.clone(),
            None => String::new(),
        };
        let lookup: String = match &m[i].1 {
            Some(l) => l.clone(),
            None => String::new(),
        };
        let found: Option<String> = match ctx.get(lookup.as_str()) {
            Some(v) => Some(v.clone()),
            None => None,
        };
        match found {
            Some(v) => {
                ctx.insert(key, v);
            },
            None => {},
        }
        i = i + 1;
    }
    assert(mv.subrange(0, m@.len() as int) =~= mv);
}

/// Adds to `ctx` the variables of the reverse export map of a resource.
pub fn apply_reverse_exports(ctx: &mut VarMap, exports: &[ExportItem])
    ensures
        final(ctx)@ == reverse_exports(old(ctx)@, items_view(exports@)),
{
    let ghost iv = items_view(exports@);
    let ghost c0 = ctx@;
    let mut i: usize = 0;
    assert(iv.subrange(0, 0) =~= Seq::<ExportItemView>::empty());
    while i < exports.len()
        invariant
            i <= exports@.len(),
            iv == items_view(exports@),
            ctx@ == reverse_exports(c0, iv.subrange(0, i as int)),
        decreases exports@.len() - i,
    {
        assert(iv.subrange(0, i + 1).drop_last() =~= iv.subrange(0, i as int));
        assert(iv.subrange(0, i + 1).last() == exports@[i as int]@);
        match &exports[i] {
            ExportItem::Mapping(m) => {
                apply_reverse_mapping(ctx, m);
            },
            _ => {},
        }
        i = i + 1;
    }
    assert(iv.subrange(0, exports@.len() as int) =~= iv);
}

// ---------------------------------------------------------------------------
// The plan for one resource
// ---------------------------------------------------------------------------

/// What a teardown does with a resource.
pub enum TeardownPlan {
    /// Nothing; the message says why.  Where the resource lacks only a
    /// `delete` query, `check_first` names the query that checks for it,
    /// which is still rendered first.
    Skip { message: String, check_first: Option<String> },
    /// Delete it: where `pre_check` is set, only after the query of
    /// `check_anchor` finds it.  `ignore_errors` is set for a `multi`
    /// resource.
    Proceed {
        check_anchor: String,
        check_retries: u32,
        check_retry_delay: u32,
        pre_check: bool,
        ignore_errors: bool,
        delete_retries: u32,
        delete_retry_delay: u32,
    },
}

pub enum TeardownPlanView {
    Skip { message: Seq<char>, check_first: Option<Seq<char>> },
    Proceed {
        check_anchor: Seq<char>,
        check_retries: u32,
        check_retry_delay: u32,
        pre_check: bool,
        ignore_errors: bool,
        delete_retries: u32,
        delete_retry_delay: u32,
    },
}

impl View for TeardownPlan {
    type V = TeardownPlanView;

    open spec fn view(&self) -> TeardownPlanView {
        match self {
            TeardownPlan::Skip { message, check_first } => TeardownPlanView::Skip {
                message: message@,
                check_first: opt_str_view(*check_first),
            },
            TeardownPlan::Proceed {
                check_anchor,
                check_retries,
                check_retry_delay,
                pre_check,
                ignore_errors,
                delete_retries,
                delete_retry_delay,
            } => TeardownPlanView::Proceed {
                check_anchor: check_anchor@,
                check_retries: *check_retries,
                check_retry_delay: *check_retry_delay,
                pre_check: *pre_check,
                ignore_errors: *ignore_errors,
                delete_retries: *delete_retries,
                delete_retry_delay: *delete_retry_delay,
            },
        }
    }
}

/// Whether a teardown deletes resources of type `res_type`.
pub open spec fn is_torn_down(res_type: Seq<char>) -> bool {
    res_type == "resource"@ || res_type == "multi"@
}

/// Whether a teardown deletes resources of type `res_type`: `resource`
/// and `multi` resources only.
pub fn teardown_handles(res_type: &str) -> (b: bool)
    ensures
        b == is_torn_down(res_type@),
{
    str_eq(res_type, "resource") || str_eq(res_type, "multi")
}

/// The query that checks whether a resource exists: `exists`, else
/// `statecheck`.
pub open spec fn check_anchor_of(q: Map<Seq<char>, ParsedQueryView>) -> Option<Seq<char>> {
    if q.contains_key("exists"@) {
        Some("exists"@)
    } else if q.contains_key("statecheck"@) {
        Some("statecheck"@)
    } else {
        None
    }
}

/// What a teardown does with the resource `name` of type `res_type` whose
/// queries are `q`: only `resource` and `multi` resources are deleted, and
/// only where they have a query that checks for them and a `delete` query.
pub open spec fn teardown_plan_of(name: Seq<char>, res_type: Seq<char>, q: Map<Seq<char>, ParsedQueryView>) -> TeardownPlanView {
    if !is_torn_down(res_type) {
        TeardownPlanView::Skip { message: "skipping resource ["@ + name + "] (type: "@ + res_type + ")"@, check_first: None }
    } else {
        match check_anchor_of(q) {
            None => TeardownPlanView::Skip {
                message: "No exists or statecheck query for ["@ + name + "], skipping..."@,
                check_first: None,
            },
            Some(a) => if !q.contains_key("delete"@) {
                TeardownPlanView::Skip {
                    message: "delete query not defined for ["@ + name + "], skipping..."@,
                    check_first: Some(a),
                }
            } else {
                TeardownPlanView::Proceed {
                    check_anchor: a,
                    check_retries: q[a].options.retries,
                    check_retry_delay: q[a].options.retry_delay,
                    pre_check: res_type != "multi"@,
                    ignore_errors: res_type == "multi"@,
                    delete_retries: q["delete"@].options.retries,
                    delete_retry_delay: q["delete"@].options.retry_delay,
                }
            },
        }
    }
}

fn message3(a: &str, b: &str, c: &str) -> (r: String)
    ensures
        r@ == a@ + b@ + c@,
{
    let mut t = chars_of(a);
    push_str(&mut t, b);
    push_str(&mut t, c);
    string_of(t.as_slice())
}

/// What a teardown does with the resource `name` of type `res_type`.
pub fn teardown_plan(name: &str, res_type: &str, queries: &AssocMap<ParsedQuery>) -> (r: TeardownPlan)
    ensures
        r@ == teardown_plan_of(name@, res_type@, queries@),
{
    let is_multi = str_eq(res_type, "multi");
    if !teardown_handles(res_type) {
        let mut t = chars_of("skipping resource [");
        push_str(&mut t, name);
        push_str(&mut t, "] (type: ");
        push_str(&mut t, res_type);
        push_str(&mut t, ")");
        return TeardownPlan::Skip { message: string_of(t.as_slice()), check_first: None };
    }
    let check = match queries.get("exists") {
        Some(q) => Some(("exists", q)),
        None => match queries.get("statecheck") {
            Some(q) => Some(("statecheck", q)),
            None => None,
        },
    };
    match check {
        None => TeardownPlan::Skip {
            message: message3("No exists or statecheck query for [", name, "], skipping..."),
            check_first: None,
        },
        Some((anchor, cq)) => {
            match queries.get("delete") {
                None => TeardownPlan::Skip {
                    message: message3("delete query not defined for [", name, "], skipping..."),
                    check_first: Some(anchor.to_owned()),
                },
                Some(dq) => TeardownPlan::Proceed {
                    check_anchor: anchor.to_owned(),
                    check_retries: cq.options.retries,
                    check_retry_delay: cq.options.retry_delay,
                    pre_check: !is_multi,
                    ignore_errors: is_multi,
                    delete_retries: dq.options.retries,
                    delete_retry_delay: dq.options.retry_delay,
                },
            }
        },
    }
}

/// The message on which a teardown leaves a resource that its check did not
/// find; `None` where it goes on to delete it.
pub fn skip_unless_found(name: &str, exists: bool) -> (r: Option<String>)
    ensures
        exists ==> r is None,
        !exists ==> (r matches Some(m) && m@ == "resource ["@ + name@ + "] does not exist, skipping delete"@),
{
    if exists {
        None
    } else {
        Some(message3("resource [", name, "] does not exist, skipping delete"))
    }
}

/// What a teardown reports after the check that follows a delete.
pub fn deletion_message(name: &str, still_exists: bool) -> (r: String)
    ensures
        still_exists ==> r@ == "["@ + name@ + "] delete dispatched (resource may still be deleting asynchronously)"@,
        !still_exists ==> r@ == "successfully deleted "@ + name@,
{
    if still_exists {
        message3("[", name, "] delete dispatched (resource may still be deleting asynchronously)")
    } else {
        let mut t = chars_of("successfully deleted ");
        push_str(&mut t, name);
        string_of(t.as_slice())
    }
}

// ---------------------------------------------------------------------------
// Collecting exports before a teardown
// ---------------------------------------------------------------------------

/// Where the exports of a resource come from before a teardown.
#[derive(Debug, Clone, Copy, PartialEq, Eq, Structural)]
pub enum ExportsSource {
    /// The resource exports nothing that can be read (a command).
    Nothing,
    /// The resource's inline SQL.
    InlineSql,
    /// Its query file: the `exists` query runs first where there is one,
    /// then the `exports` query where there is one.
    QueryFile,
}

pub open spec fn exports_source_of(res_type: Seq<char>, has_sql: bool) -> ExportsSource {
    if res_type == "command"@ {
        ExportsSource::Nothing
    } else if has_sql && res_type == "query"@ {
        ExportsSource::InlineSql
    } else {
        ExportsSource::QueryFile
    }
}

/// Where a teardown reads the exports of a resource of type `res_type`
/// from; `has_sql` says whether it has inline SQL.
pub fn exports_source(res_type: &str, has_sql: bool) -> (r: ExportsSource)
    ensures
        r == exports_source_of(res_type@, has_sql),
{
    if str_eq(res_type, "command") {
        ExportsSource::Nothing
    } else if has_sql && str_eq(res_type, "query") {
        ExportsSource::InlineSql
    } else {
        ExportsSource::QueryFile
    }
}

/// The exists query decides whether a resource is there, wherever there is
/// one: a resource or multi resource with an `exists` and a `delete` query
/// is checked with `exists`, with that query's retries; the state check is
/// used only where there is no `exists` query.
pub proof fn law_exists_query_checks_first(name: Seq<char>, res_type: Seq<char>, q: Map<Seq<char>, ParsedQueryView>)
    requires
        is_torn_down(res_type),
        q.contains_key("delete"@),
    ensures
        q.contains_key("exists"@) ==> (teardown_plan_of(name, res_type, q) matches TeardownPlanView::Proceed {
            check_anchor, check_retries, check_retry_delay, .. }
            && check_anchor == "exists"@ && check_retries == q["exists"@].options.retries
            && check_retry_delay == q["exists"@].options.retry_delay),
        !q.contains_key("exists"@) && q.contains_key("statecheck"@) ==> (teardown_plan_of(name, res_type, q) matches
            TeardownPlanView::Proceed { check_anchor, .. } && check_anchor == "statecheck"@),
        !q.contains_key("exists"@) && !q.contains_key("statecheck"@) ==> teardown_plan_of(name, res_type, q) is Skip,
{
}

// ---------------------------------------------------------------------------
// The run over the resources
// ---------------------------------------------------------------------------

/// Where a teardown stands: about to decide on resource `i`, having asked
/// for resource `i` to be deleted, or done.
pub enum TeardownPhase {
    Visiting(nat),
    Deleting(nat),
    Finished,
}

/// What the caller reports after carrying out an action.
pub enum TeardownEvent {
    /// The resource is left alone (its type, its condition, or its queries).
    Skipped,
    /// The existence check ran and found the resource, or not.
    Checked(bool),
    /// The delete (and its callback and post-delete check) ran.
    Deleted,
}

/// What the caller is to do next.
pub enum TeardownAction {
    /// Decide on resource `i`: plan it and run its existence check.
    Visit(usize),
    /// Delete resource `i`.
    Delete(usize),
    /// Every resource has been visited.
    Finished,
}

pub enum TeardownActionView {
    Visit(nat),
    Delete(nat),
    Finished,
}

impl View for TeardownAction {
    type V = TeardownActionView;

    open spec fn view(&self) -> TeardownActionView {
        match self {
            TeardownAction::Visit(i) => TeardownActionView::Visit(*i as nat),
            TeardownAction::Delete(i) => TeardownActionView::Delete(*i as nat),
            TeardownAction::Finished => TeardownActionView::Finished,
        }
    }
}

/// After resource `i`: on to the one declared before it, or done.
pub open spec fn after_resource(i: nat) -> (TeardownPhase, TeardownActionView) {
    if i == 0 {
        (TeardownPhase::Finished, TeardownActionView::Finished)
    } else {
        (TeardownPhase::Visiting((i - 1) as nat), TeardownActionView::Visit((i - 1) as nat))
    }
}

/// The start of a teardown of `n` resources: the last one first.
pub open spec fn teardown_start(n: nat) -> (TeardownPhase, TeardownActionView) {
    after_resource(n)
}

/// A step of a teardown: a resource that its check found is deleted; after
/// that, or where it is skipped or not found, on to the one before it.
pub open spec fn teardown_step(ph: TeardownPhase, ev: TeardownEvent) -> (TeardownPhase, TeardownActionView) {
    match ph {
        TeardownPhase::Visiting(i) => match ev {
            TeardownEvent::Checked(true) => (TeardownPhase::Deleting(i), TeardownActionView::Delete(i)),
            _ => after_resource(i),
        },
        TeardownPhase::Deleting(i) => after_resource(i),
        TeardownPhase::Finished => (TeardownPhase::Finished, TeardownActionView::Finished),
    }
}

/// The resources that a teardown in phase `ph` deletes, in order, as the
/// events `evs` come in.
pub open spec fn run_deletes(ph: TeardownPhase, evs: Seq<TeardownEvent>) -> Seq<nat>
    decreases evs.len(),
{
    if evs.len() == 0 {
        Seq::empty()
    } else {
        let (ph2, a) = teardown_step(ph, evs[0]);
        let rest = run_deletes(ph2, evs.drop_first());
        match a {
            TeardownActionView::Delete(j) => seq![j] + rest,
            _ => rest,
        }
    }
}

/// The resources still to be deleted from phase `ph` on are below this.
pub open spec fn delete_limit(ph: TeardownPhase) -> nat {
    match ph {
        TeardownPhase::Visiting(i) => i + 1,
        TeardownPhase::Deleting(i) => i,
        TeardownPhase::Finished => 0,
    }
}

/// The deletes of a run come in strictly decreasing order, below the limit.
proof fn lemma_run_deletes(ph: TeardownPhase, evs: Seq<TeardownEvent>)
    ensures
        forall|k: int| 0 <= k < run_deletes(ph, evs).len() ==> #[trigger] run_deletes(ph, evs)[k] < delete_limit(ph),
        forall|k: int, l: int| 0 <= k < l < run_deletes(ph, evs).len()
            ==> #[trigger] run_deletes(ph, evs)[k] > #[trigger] run_deletes(ph, evs)[l],
    decreases evs.len(),
{
    if evs.len() > 0 {
        let (ph2, a) = teardown_step(ph, evs[0]);
        lemma_run_deletes(ph2, evs.drop_first());
        assert(delete_limit(ph2) <= delete_limit(ph));
        match a {
            TeardownActionView::Delete(j) => {
                let rest = run_deletes(ph2, evs.drop_first());
                let all = seq![j] + rest;
                assert(all == run_deletes(ph, evs));
                assert(delete_limit(ph2) == j && j < delete_limit(ph));
                assert forall|k: int, l: int| 0 <= k < l < all.len() implies #[trigger] all[k] > #[trigger] all[l] by {
                    if k == 0 {
                        assert(all[l] == rest[l - 1]);
                    } else {
                        assert(all[k] == rest[k - 1] && all[l] == rest[l - 1]);
                    }
                }
                assert forall|k: int| 0 <= k < all.len() implies #[trigger] all[k] < delete_limit(ph) by {
                    if k > 0 {
                        assert(all[k] == rest[k - 1]);
                    }
                }
            },
            _ => {},
        }
    }
}

/// A teardown of `n` resources deletes each at most once, in the reverse of
/// their order in the manifest, whatever its checks report.
pub proof fn law_teardown_deletes_in_reverse_at_most_once(n: nat, evs: Seq<TeardownEvent>)
    ensures
        forall|k: int| 0 <= k < run_deletes(teardown_start(n).0, evs).len()
            ==> #[trigger] run_deletes(teardown_start(n).0, evs)[k] < n,
        forall|k: int, l: int| 0 <= k < l < run_deletes(teardown_start(n).0, evs).len()
            ==> #[trigger] run_deletes(teardown_start(n).0, evs)[k] > #[trigger] run_deletes(teardown_start(n).0, evs)[l],
{
    lemma_run_deletes(teardown_start(n).0, evs);
}

/// The events of a teardown in which each of `k` resources is found and
/// then deleted.
pub open spec fn all_found(k: nat) -> Seq<TeardownEvent>
    decreases k,
{
    if k == 0 {
        Seq::empty()
    } else {
        seq![TeardownEvent::Checked(true), TeardownEvent::Deleted] + all_found((k - 1) as nat)
    }
}

proof fn lemma_all_found(i: nat)
    ensures
        run_deletes(TeardownPhase::Visiting(i), all_found(i + 1)) == reverse_positions(i + 1).map_values(|p: int| p as nat),
    decreases i,
{
    let evs = all_found(i + 1);
    let (ph1, a1) = teardown_step(TeardownPhase::Visiting(i), evs[0]);
    assert(evs[0] == TeardownEvent::Checked(true));
    let evs1 = evs.drop_first();
    assert(evs1[0] == TeardownEvent::Deleted);
    let (ph2, a2) = teardown_step(ph1, evs1[0]);
    let evs2 = evs1.drop_first();
    assert(evs2 =~= all_found(i));
    if i == 0 {
        assert(evs2 =~= Seq::<TeardownEvent>::empty());
        assert(run_deletes(ph2, evs2) =~= Seq::<nat>::empty());
        assert(run_deletes(ph1, evs1) =~= Seq::<nat>::empty());
        assert(reverse_positions(1).map_values(|p: int| p as nat) =~= seq![0nat]);
    } else {
        lemma_all_found((i - 1) as nat);
        assert(ph2 == TeardownPhase::Visiting((i - 1) as nat));
        assert(run_deletes(ph1, evs1) == run_deletes(ph2, evs2));
        assert(reverse_positions(i + 1).map_values(|p: int| p as nat)
            =~= seq![i] + reverse_positions(i).map_values(|p: int| p as nat));
    }
}

/// Where the check finds every resource, a teardown of `n` resources
/// deletes each exactly once, the last declared first.
pub proof fn law_teardown_deletes_every_found_resource(n: nat)
    ensures
        run_deletes(teardown_start(n).0, all_found(n)) == reverse_positions(n).map_values(|p: int| p as nat),
{
    if n == 0 {
        assert(all_found(0) =~= Seq::<TeardownEvent>::empty());
        assert(reverse_positions(0).map_values(|p: int| p as nat) =~= Seq::<nat>::empty());
    } else {
        lemma_all_found((n - 1) as nat);
    }
}

/// A teardown run over the resources of a manifest.
pub struct TeardownRun {
    current: usize,
    deleting: bool,
    finished: bool,
}

impl TeardownRun {
    /// The phase of the run.
    pub closed spec fn phase(&self) -> TeardownPhase {
        if self.finished {
            TeardownPhase::Finished
        } else if self.deleting {
            TeardownPhase::Deleting(self.current as nat)
        } else {
            TeardownPhase::Visiting(self.current as nat)
        }
    }

    /// A teardown of `n` resources, and its first action.
    pub fn start(n: usize) -> (r: (TeardownRun, TeardownAction))
        ensures
            (r.0.phase(), r.1@) == teardown_start(n as nat),
    {
        if n == 0 {
            (TeardownRun { current: 0, deleting: false, finished: true }, TeardownAction::Finished)
        } else {
            (TeardownRun { current: n - 1, deleting: false, finished: false },
                TeardownAction::Visit(n - 1))
        }
    }

    /// The step on what the last action gave.
    pub fn step(&mut self, ev: TeardownEvent) -> (a: TeardownAction)
        ensures
            (final(self).phase(), a@) == teardown_step(old(self).phase(), ev),
    {
        if self.finished {
            return TeardownAction::Finished;
        }
        if !self.deleting {
            if let TeardownEvent::Checked(true) = ev {
                self.deleting = true;
                return TeardownAction::Delete(self.current);
            }
        }
        self.deleting = false;
        if self.current == 0 {
            self.finished = true;
            TeardownAction::Finished
        } else {
            self.current = self.current - 1;
            TeardownAction::Visit(self.current)
        }
    }
}

} // verus!
