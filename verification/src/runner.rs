//! The decisions of query and command execution with retries.
//!
//! Executing a query over the wire and sleeping between attempts is the
//! caller's part; after each attempt it hands the outcome to a run, which
//! says what to do next: run again after a delay, return, or stop the
//! program with a message.
use vstd::prelude::*;
use crate::query::{int_text, QueryResult, QueryResultView};
use crate::patterns::{opt_string_view, regex_captures, regex_first_match};
use crate::text::{
    chars_of, contains, contains_str, parse_i64, parse_i64_exec, push_all, push_str,
    starts_with, starts_with_str, string_of, str_eq,
};
use crate::varmap::{AssocMap, VarMap};

verus! {

/// The outcome of one attempt, as plain values.
pub open spec fn outcome_view(o: Result<QueryResult, String>) -> Result<QueryResultView, Seq<char>> {
    match o {
        Ok(q) => Ok(q@),
        Err(e) => Err(e@),
    }
}

/// The map of one result row: each column to its value, or `NULL` where
/// the row has fewer values than there are columns.
pub open spec fn row_map(columns: Seq<Seq<char>>, values: Seq<Seq<char>>) -> Map<Seq<char>, Seq<char>>
    decreases columns.len(),
{
    if columns.len() == 0 {
        Map::empty()
    } else {
        let i = columns.len() - 1;
        row_map(columns.drop_last(), values).insert(
            columns[i],
            if i < values.len() { values[i] } else { "NULL"@ },
        )
    }
}

/// A notice that marks a failed query.
pub open spec fn is_error_notice(n: Seq<char>) -> bool {
    contains(n, "error"@) || starts_with(n, "ERROR"@)
}

/// The first error notice of `notices`, if any.
pub open spec fn first_error_notice(notices: Seq<Seq<char>>) -> Option<Seq<char>>
    decreases notices.len(),
{
    if notices.len() == 0 {
        None
    } else {
        match first_error_notice(notices.drop_last()) {
            Some(n) => Some(n),
            None => if is_error_notice(notices.last()) { Some(notices.last()) } else { None },
        }
    }
}

/// The last error notice of `notices`, if any.
pub open spec fn last_error_notice(notices: Seq<Seq<char>>) -> Option<Seq<char>>
    decreases notices.len(),
{
    if notices.len() == 0 {
        None
    } else if is_error_notice(notices.last()) {
        Some(notices.last())
    } else {
        last_error_notice(notices.drop_last())
    }
}

/// The state of a query run, as plain values.
pub struct QueryRunView {
    pub attempt: nat,
    pub retries: nat,
    pub suppress_errors: bool,
    pub last_error: Option<Seq<char>>,
}

/// What to do after an attempt, as plain values.
pub enum QueryActionView {
    Retry,
    Return { rows: Seq<Map<Seq<char>, Seq<char>>>, after_sleep: bool },
    Exit(Seq<char>),
}

/// What a run returns once its attempts are used up: the last error, in a
/// row of its own, where errors are suppressed.
pub open spec fn exhausted_rows(st: QueryRunView) -> Seq<Map<Seq<char>, Seq<char>>> {
    match st.last_error {
        Some(e) => if st.suppress_errors {
            seq![Map::<Seq<char>, Seq<char>>::empty().insert("_stackql_deploy_error"@, e)]
        } else {
            Seq::empty()
        },
        None => Seq::empty(),
    }
}

/// After a failed attempt: sleep, then try again while attempts are left.
pub open spec fn after_failure(st: QueryRunView) -> (QueryRunView, QueryActionView) {
    let next = QueryRunView { attempt: st.attempt + 1, ..st };
    if next.attempt <= next.retries {
        (next, QueryActionView::Retry)
    } else {
        (next, QueryActionView::Return { rows: exhausted_rows(next), after_sleep: true })
    }
}

/// The step of a query run on the outcome of one attempt.
pub open spec fn query_step(st: QueryRunView, outcome: Result<QueryResultView, Seq<char>>) -> (QueryRunView, QueryActionView) {
    match outcome {
        Ok(QueryResultView::Data { columns, rows, notices }) => {
            let st1 = match last_error_notice(notices) {
                Some(n) => QueryRunView { last_error: Some(n), ..st },
                None => st,
            };
            if first_error_notice(notices) is Some && !st.suppress_errors && st.attempt == st.retries {
                (st1, QueryActionView::Exit(
                    "Error during stackql query execution:\n\n"@ + first_error_notice(notices)->0 + "\n"@,
                ))
            } else if rows.len() == 0 {
                if st.attempt < st.retries {
                    (QueryRunView { attempt: st.attempt + 1, ..st1 }, QueryActionView::Retry)
                } else {
                    (st1, QueryActionView::Return { rows: Seq::empty(), after_sleep: false })
                }
            } else {
                let maps = rows.map_values(|r: Seq<Seq<char>>| row_map(columns, r));
                let first = maps[0];
                if first.contains_key("error"@) {
                    let st2 = QueryRunView { last_error: Some(first["error"@]), ..st1 };
                    if !st.suppress_errors && st.attempt == st.retries {
                        (st2, QueryActionView::Exit(
                            "Error during stackql query execution:\n\n"@ + first["error"@] + "\n"@,
                        ))
                    } else {
                        after_failure(st2)
                    }
                } else if first.contains_key("count"@) && parse_i64(first["count"@]) is Some
                    && parse_i64(first["count"@])->0 > 1 {
                    (st1, QueryActionView::Exit(
                        "Detected more than one resource matching query criteria, expected 0 or 1, got "@
                            + int_text(parse_i64(first["count"@])->0),
                    ))
                } else {
                    (st1, QueryActionView::Return { rows: maps, after_sleep: false })
                }
            }
        },
        Ok(QueryResultView::Command(_)) => (st, QueryActionView::Return { rows: Seq::empty(), after_sleep: false }),
        Ok(QueryResultView::Empty) => {
            if st.attempt < st.retries {
                (QueryRunView { attempt: st.attempt + 1, ..st }, QueryActionView::Retry)
            } else {
                (st, QueryActionView::Return { rows: Seq::empty(), after_sleep: false })
            }
        },
        Err(e) => {
            let st1 = QueryRunView { last_error: Some(e), ..st };
            if st.attempt == st.retries && !st.suppress_errors {
                (st1, QueryActionView::Exit("Exception during stackql query execution:\n\n"@ + e + "\n"@))
            } else {
                after_failure(st1)
            }
        },
    }
}

/// What to do after an attempt of a query.
pub enum QueryAction {
    /// Sleep for the retry delay, then run the query again.
    Retry,
    /// Return `rows`; sleep for the retry delay first where `after_sleep`.
    Return { rows: Vec<VarMap>, after_sleep: bool },
    /// Log the message and stop the program.
    Exit(String),
}

impl View for QueryAction {
    type V = QueryActionView;

    open spec fn view(&self) -> QueryActionView {
        match self {
            QueryAction::Retry => QueryActionView::Retry,
            QueryAction::Return { rows, after_sleep } => QueryActionView::Return {
                rows: rows@.map_values(|m: VarMap| m@),
                after_sleep: *after_sleep,
            },
            QueryAction::Exit(m) => QueryActionView::Exit(m@),
        }
    }
}

/// A query run with retries: the decisions of `run_stackql_query`.  The
/// caller sends the query and waits the retry delay where an action says so.
pub struct QueryRun {
    pub attempt: u32,
    pub retries: u32,
    pub suppress_errors: bool,
    pub last_error: Option<String>,
}

impl View for QueryRun {
    type V = QueryRunView;

    open spec fn view(&self) -> QueryRunView {
        QueryRunView {
            attempt: self.attempt as nat,
            retries: self.retries as nat,
            suppress_errors: self.suppress_errors,
            last_error: match self.last_error { Some(e) => Some(e@), None => None },
        }
    }
}

fn error_message(prefix: &str, body: &str, suffix: &str) -> (r: String)
    ensures
        r@ == prefix@ + body@ + suffix@,
{
    let mut t = chars_of(prefix);
    push_str(&mut t, body);
    push_str(&mut t, suffix);
    string_of(t.as_slice())
}

/// The map of a result row.
pub fn row_to_map(columns: &Vec<String>, values: &Vec<String>) -> (m: VarMap)
    ensures
        m@ == row_map(columns@.map_values(|c: String| c@), values@.map_values(|v: String| v@)),
{
    let ghost cv = columns@.map_values(|c: String| c@);
    let ghost vv = values@.map_values(|v: String| v@);
    let mut m: VarMap = AssocMap::new();
    let mut i: usize = 0;
    assert(cv.subrange(0, 0) =~= Seq::<Seq<char>>::empty());
    while i < columns.len()
        invariant
            i <= columns@.len(),
            cv == columns@.map_values(|c: String| c@),
            vv == values@.map_values(|v: String| v@),
            m@ == row_map(cv.subrange(0, i as int), vv),
        decreases columns@.len() - i,
    {
        let value = if i < values.len() { values[i].clone() } else { "NULL".to_owned() };
        m.insert(columns[i].clone(), value);
        assert(cv.subrange(0, i + 1).drop_last() =~= cv.subrange(0, i as int));
        i = i + 1;
    }
    assert(cv.subrange(0, columns@.len() as int) =~= cv);
    m
}

fn is_error_notice_exec(n: &String) -> (b: bool)
    ensures
        b == is_error_notice(n@),
{
    let nc = chars_of(n.as_str());
    contains_str(n.as_str(), "error") || starts_with_str(nc.as_slice(), "ERROR")
}

fn error_notices(notices: &Vec<String>) -> (r: (Option<usize>, Option<usize>))
    ensures
        match r.0 {
            Some(i) => i < notices@.len() && first_error_notice(notices@.map_values(|n: String| n@)) == Some(notices@[i as int]@),
            None => first_error_notice(notices@.map_values(|n: String| n@)) is None,
        },
        match r.1 {
            Some(i) => i < notices@.len() && last_error_notice(notices@.map_values(|n: String| n@)) == Some(notices@[i as int]@),
            None => last_error_notice(notices@.map_values(|n: String| n@)) is None,
        },
{
    let ghost nv = notices@.map_values(|n: String| n@);
    let mut first: Option<usize> = None;
    let mut last: Option<usize> = None;
    let mut i: usize = 0;
    assert(nv.subrange(0, 0) =~= Seq::<Seq<char>>::empty());
    while i < notices.len()
        invariant
            i <= notices@.len(),
            nv == notices@.map_values(|n: String| n@),
            match first {
                Some(j) => j < i && first_error_notice(nv.subrange(0, i as int)) == Some(nv[j as int]),
                None => first_error_notice(nv.subrange(0, i as int)) is None,
            },
            match last {
                Some(j) => j < i && last_error_notice(nv.subrange(0, i as int)) == Some(nv[j as int]),
                None => last_error_notice(nv.subrange(0, i as int)) is None,
            },
        decreases notices@.len() - i,
    {
        assert(nv.subrange(0, i + 1).drop_last() =~= nv.subrange(0, i as int));
        assert(nv.subrange(0, i + 1).last() == nv[i as int]);
        if is_error_notice_exec(&notices[i]) {
            if first.is_none() {
                first = Some(i);
            }
            last = Some(i);
        }
        i = i + 1;
    }
    assert(nv.subrange(0, notices@.len() as int) =~= nv);
    (first, last)
}

impl QueryRun {
    /// A run that makes at most `retries + 1` attempts.
    pub fn new(retries: u32, suppress_errors: bool) -> (r: Self)
        requires
            retries < u32::MAX,
        ensures
            r@ == (QueryRunView { attempt: 0, retries: retries as nat, suppress_errors, last_error: None }),
    {
        QueryRun { attempt: 0, retries, suppress_errors, last_error: None }
    }

    fn fail_and_continue(&mut self) -> (a: QueryAction)
        requires
            old(self).attempt <= old(self).retries,
            old(self).retries < u32::MAX,
        ensures
            (final(self)@, a@) == after_failure(old(self)@),
    {
        self.attempt = self.attempt + 1;
        if self.attempt <= self.retries {
            QueryAction::Retry
        } else {
            let mut rows: Vec<VarMap> = Vec::new();
            if self.suppress_errors {
                if let Some(e) = &self.last_error {
                    let mut m: VarMap = AssocMap::new();
                    m.insert("_stackql_deploy_error".to_owned(), e.clone());
                    rows.push(m);
                    assert(rows@.map_values(|m: VarMap| m@) =~= exhausted_rows(self@));
                }
            }
            assert(rows@.map_values(|m: VarMap| m@) =~= exhausted_rows(self@));
            QueryAction::Return { rows, after_sleep: true }
        }
    }

    /// The step of the run on the outcome of one attempt of the query.
    ///
    /// Another attempt is asked for only while attempts are left, and each
    /// one counts.
    pub fn step(&mut self, outcome: Result<QueryResult, String>) -> (a: QueryAction)
        requires
            old(self).attempt <= old(self).retries,
            old(self).retries < u32::MAX,
        ensures
            (final(self)@, a@) == query_step(old(self)@, outcome_view(outcome)),
            final(self).retries == old(self).retries,
            final(self).suppress_errors == old(self).suppress_errors,
            a is Retry ==> final(self).attempt == old(self).attempt + 1 && final(self).attempt <= final(self).retries,
            !(a is Retry) ==> final(self).attempt <= old(self).attempt + 1,
    {
        match outcome {
            Ok(QueryResult::Data { columns, rows, notices }) => {
                let ghost nv = notices@.map_values(|n: String| n@);
                let (first_err, last_err) = error_notices(&notices);
                if let Some(j) = last_err {
                    self.last_error = Some(notices[j].clone());
                }
                if let Some(j) = first_err {
                    if !self.suppress_errors && self.attempt == self.retries {
                        return QueryAction::Exit(error_message(
                            "Error during stackql query execution:\n\n",
                            notices[j].as_str(),
                            "\n",
                        ));
                    }
                }
                if rows.len() == 0 {
                    if self.attempt < self.retries {
                        self.attempt = self.attempt + 1;
                        return QueryAction::Retry;
                    }
                    let empty: Vec<VarMap> = Vec::new();
                    assert(empty@.map_values(|m: VarMap| m@) =~= Seq::<Map<Seq<char>, Seq<char>>>::empty());
                    return QueryAction::Return { rows: empty, after_sleep: false };
                }
                let mut col_names: Vec<String> = Vec::new();
                let mut i: usize = 0;
                while i < columns.len()
                    invariant
                        i <= columns@.len(),
                        col_names@.map_values(|c: String| c@) =~= columns@.subrange(0, i as int).map_values(|c: crate::query::QueryResultColumn| c.name@),
                    decreases columns@.len() - i,
                {
                    let ghost before = col_names@;
                    let c = columns[i].name.clone();
                    let ghost cg = c;
                    col_names.push(c);
                    assert(col_names@ =~= before.push(cg));
                    assert(columns@.subrange(0, i + 1) =~= columns@.subrange(0, i as int).push(columns@[i as int]));
                    assert(col_names@.map_values(|c: String| c@) =~= before.map_values(|c: String| c@).push(cg@));
                    i = i + 1;
                }
                assert(columns@.subrange(0, columns@.len() as int) =~= columns@);
                let ghost cv = columns@.map_values(|c: crate::query::QueryResultColumn| c.name@);
                let ghost rv = rows@.map_values(|r: crate::query::QueryResultRow| crate::query::string_views(r.values@));
                let mut maps: Vec<VarMap> = Vec::new();
                let mut k: usize = 0;
                while k < rows.len()
                    invariant
                        k <= rows@.len(),
                        col_names@.map_values(|c: String| c@) == cv,
                        rv == rows@.map_values(|r: crate::query::QueryResultRow| crate::query::string_views(r.values@)),
                        maps@.map_values(|m: VarMap| m@) =~= rv.subrange(0, k as int).map_values(|r: Seq<Seq<char>>| row_map(cv, r)),
                    decreases rows@.len() - k,
                {
                    let m = row_to_map(&col_names, &rows[k].values);
                    let ghost before = maps@;
                    let ghost mg = m;
                    maps.push(m);
                    assert(maps@ =~= before.push(mg));
                    assert(rv.subrange(0, k + 1) =~= rv.subrange(0, k as int).push(rv[k as int]));
                    assert(maps@.map_values(|m: VarMap| m@) =~= before.map_values(|m: VarMap| m@).push(mg@));
                    k = k + 1;
                }
                assert(rv.subrange(0, rows@.len() as int) =~= rv);
                let ghost mv = maps@.map_values(|m: VarMap| m@);
                assert(mv[0] == maps@[0]@);
                if let Some(err) = maps[0].get("error") {
                    let err_s = err.clone();
                    self.last_error = Some(err.clone());
                    if !self.suppress_errors && self.attempt == self.retries {
                        return QueryAction::Exit(error_message(
                            "Error during stackql query execution:\n\n",
                            err_s.as_str(),
                            "\n",
                        ));
                    }
                    return self.fail_and_continue();
                }
                if let Some(count_str) = maps[0].get("count") {
                    let cc = chars_of(count_str.as_str());
                    if let Some(count) = parse_i64_exec(cc.as_slice()) {
                        if count > 1 {
                            let mut t = chars_of("Detected more than one resource matching query criteria, expected 0 or 1, got ");
                            let d = crate::query::int_text_exec(count);
                            push_all(&mut t, d.as_slice());
                            return QueryAction::Exit(string_of(t.as_slice()));
                        }
                    }
                }
                assert(mv =~= rv.map_values(|r: Seq<Seq<char>>| row_map(cv, r)));
                QueryAction::Return { rows: maps, after_sleep: false }
            },
            Ok(QueryResult::Command(_)) => {
                let empty: Vec<VarMap> = Vec::new();
                assert(empty@.map_values(|m: VarMap| m@) =~= Seq::<Map<Seq<char>, Seq<char>>>::empty());
                QueryAction::Return { rows: empty, after_sleep: false }
            },
            Ok(QueryResult::Empty) => {
                if self.attempt < self.retries {
                    self.attempt = self.attempt + 1;
                    QueryAction::Retry
                } else {
                    let empty: Vec<VarMap> = Vec::new();
                    assert(empty@.map_values(|m: VarMap| m@) =~= Seq::<Map<Seq<char>, Seq<char>>>::empty());
                    QueryAction::Return { rows: empty, after_sleep: false }
                }
            },
            Err(e) => {
                let msg = error_message("Exception during stackql query execution:\n\n", e.as_str(), "\n");
                self.last_error = Some(e);
                if self.attempt == self.retries && !self.suppress_errors {
                    return QueryAction::Exit(msg);
                }
                self.fail_and_continue()
            },
        }
    }
}

// ---------------------------------------------------------------------------
// Commands
// ---------------------------------------------------------------------------

/// Whether a notice of a command marks an error.
pub open spec fn notice_is_error(msg: Seq<char>) -> bool {
    ||| starts_with(msg, "http response status code: 4"@)
    ||| starts_with(msg, "http response status code: 5"@)
    ||| starts_with(msg, "error:"@)
    ||| starts_with(msg, "disparity in fields to insert"@)
    ||| starts_with(msg, "cannot find matching operation"@)
}

/// Check if a notice/message indicates an error.
pub fn error_detected_in_notice(msg: &str) -> (b: bool)
    ensures
        b == notice_is_error(msg@),
{
    let m = chars_of(msg);
    starts_with_str(m.as_slice(), "http response status code: 4")
        || starts_with_str(m.as_slice(), "http response status code: 5")
        || starts_with_str(m.as_slice(), "error:")
        || starts_with_str(m.as_slice(), "disparity in fields to insert")
        || starts_with_str(m.as_slice(), "cannot find matching operation")
}

/// The first notice at index `i` or after that marks a failed command.
pub open spec fn first_command_error(notices: Seq<Seq<char>>, i: int) -> Option<Seq<char>>
    decreases notices.len() - i,
{
    if i < 0 || i >= notices.len() {
        None
    } else if notice_is_error(notices[i]) {
        Some(notices[i])
    } else {
        first_command_error(notices, i + 1)
    }
}

pub struct CommandRunView {
    pub attempt: nat,
    pub retries: nat,
    pub ignore_errors: bool,
}

pub enum CommandActionView {
    Retry,
    Return(Seq<char>),
    Exit(Seq<char>),
}

/// The step of a command run on the outcome of one attempt.
pub open spec fn command_step(st: CommandRunView, outcome: Result<QueryResultView, Seq<char>>) -> (CommandRunView, CommandActionView) {
    match outcome {
        Ok(QueryResultView::Data { notices, .. }) => match first_command_error(notices, 0) {
            Some(n) if !st.ignore_errors => if st.attempt < st.retries {
                (CommandRunView { attempt: st.attempt + 1, ..st }, CommandActionView::Retry)
            } else {
                (st, CommandActionView::Exit("Error during stackql command execution:\n\n"@ + n + "\n"@))
            },
            _ => (st, CommandActionView::Return(crate::text::join(notices, "\n"@))),
        },
        Ok(QueryResultView::Command(m)) => (st, CommandActionView::Return(m)),
        Ok(QueryResultView::Empty) => (st, CommandActionView::Return(Seq::empty())),
        Err(e) => if !st.ignore_errors {
            if st.attempt < st.retries {
                (CommandRunView { attempt: st.attempt + 1, ..st }, CommandActionView::Retry)
            } else {
                (st, CommandActionView::Exit("Exception during stackql command execution:\n\n"@ + e + "\n"@))
            }
        } else {
            (st, CommandActionView::Return(Seq::empty()))
        },
    }
}

/// What to do after an attempt of a command.
pub enum CommandAction {
    /// Sleep for the retry delay, then run the command again.
    Retry,
    /// Return the command's message.
    Return(String),
    /// Log the message and stop the program.
    Exit(String),
}

impl View for CommandAction {
    type V = CommandActionView;

    open spec fn view(&self) -> CommandActionView {
        match self {
            CommandAction::Retry => CommandActionView::Retry,
            CommandAction::Return(m) => CommandActionView::Return(m@),
            CommandAction::Exit(m) => CommandActionView::Exit(m@),
        }
    }
}

/// A command run with retries: the decisions of `run_stackql_command`.
/// The caller sends the command and waits the retry delay before a retry.
pub struct CommandRun {
    pub attempt: u32,
    pub retries: u32,
    pub ignore_errors: bool,
}

impl View for CommandRun {
    type V = CommandRunView;

    open spec fn view(&self) -> CommandRunView {
        CommandRunView { attempt: self.attempt as nat, retries: self.retries as nat, ignore_errors: self.ignore_errors }
    }
}

fn join_notices(notices: &Vec<String>) -> (r: String)
    ensures
        r@ == crate::text::join(notices@.map_values(|n: String| n@), "\n"@),
{
    let ghost nv = notices@.map_values(|n: String| n@);
    let mut t: Vec<char> = Vec::new();
    let mut i: usize = 0;
    assert(nv.subrange(0, 0) =~= Seq::<Seq<char>>::empty());
    while i < notices.len()
        invariant
            i <= notices@.len(),
            nv == notices@.map_values(|n: String| n@),
            t@ == crate::text::join(nv.subrange(0, i as int), "\n"@),
        decreases notices@.len() - i,
    {
        let ghost pre = nv.subrange(0, i as int);
        let ghost next = nv.subrange(0, i + 1);
        assert(next.drop_last() =~= pre);
        assert(next.last() == notices@[i as int]@);
        if i > 0 {
            push_str(&mut t, "\n");
        }
        push_str(&mut t, notices[i].as_str());
        proof {
            if i == 0 {
                assert(crate::text::join(pre, "\n"@) =~= Seq::<char>::empty());
                assert(t@ =~= next[0]);
            } else {
                assert(t@ =~= crate::text::join(pre, "\n"@) + "\n"@ + next.last());
            }
        }
        i = i + 1;
    }
    assert(nv.subrange(0, notices@.len() as int) =~= nv);
    string_of(t.as_slice())
}

impl CommandRun {
    /// A run that makes at most `retries + 1` attempts.
    pub fn new(retries: u32, ignore_errors: bool) -> (r: Self)
        ensures
            r@ == (CommandRunView { attempt: 0, retries: retries as nat, ignore_errors }),
    {
        CommandRun { attempt: 0, retries, ignore_errors }
    }

    /// The step of the run on the outcome of one attempt of the command.
    pub fn step(&mut self, outcome: Result<QueryResult, String>) -> (a: CommandAction)
        requires
            old(self).attempt <= old(self).retries,
        ensures
            (final(self)@, a@) == command_step(old(self)@, outcome_view(outcome)),
            final(self).attempt <= final(self).retries,
            final(self).retries == old(self).retries,
            a is Retry ==> final(self).attempt == old(self).attempt + 1,
    {
        let ghost ov = outcome_view(outcome);
        match outcome {
            Ok(QueryResult::Data { notices, .. }) => {
                let ghost nv = notices@.map_values(|n: String| n@);
                if !self.ignore_errors {
                    let mut i: usize = 0;
                    while i < notices.len()
                        invariant
                            i <= notices@.len(),
                            nv == notices@.map_values(|n: String| n@),
                            first_command_error(nv, 0) == first_command_error(nv, i as int),
                            *self == *old(self),
                            !self.ignore_errors,
                            self.attempt <= self.retries,
                            ov == outcome_view(outcome),
                            ov matches Ok(QueryResultView::Data { notices: nn, .. }) && nn == nv,
                        decreases notices@.len() - i,
                    {
                        assert(nv[i as int] == notices@[i as int]@);
                        if error_detected_in_notice(notices[i].as_str()) {
                            assert(first_command_error(nv, i as int) == Some(nv[i as int]));
                            if self.attempt < self.retries {
                                self.attempt = self.attempt + 1;
                                return CommandAction::Retry;
                            }
                            let msg = error_message("Error during stackql command execution:\n\n", notices[i].as_str(), "\n");
                            return CommandAction::Exit(msg);
                        }
                        assert(first_command_error(nv, i as int) == first_command_error(nv, i + 1));
                        i = i + 1;
                    }
                    assert(first_command_error(nv, i as int) is None);
                }
                let msg = join_notices(&notices);
                CommandAction::Return(msg)
            },
            Ok(QueryResult::Command(m)) => CommandAction::Return(m),
            Ok(QueryResult::Empty) => CommandAction::Return(String::new()),
            Err(e) => {
                if !self.ignore_errors {
                    if self.attempt < self.retries {
                        self.attempt = self.attempt + 1;
                        CommandAction::Retry
                    } else {
                        let msg = error_message("Exception during stackql command execution:\n\n", e.as_str(), "\n");
                        CommandAction::Exit(msg)
                    }
                } else {
                    CommandAction::Return(String::new())
                }
            },
        }
    }
}

// ---------------------------------------------------------------------------
// Existence and state tests
// ---------------------------------------------------------------------------

/// A captured value that stands for no identifier: empty, or a null.
pub open spec fn is_null_value(v: Seq<char>) -> bool {
    v.len() == 0 || v == "NULL"@ || v == "null"@
}

/// Whether a row without a `count` identifies a resource: it captures at
/// least one field, and none of its fields is null or empty.
pub open spec fn identifies_resource(row: Map<Seq<char>, Seq<char>>) -> bool {
    &&& exists|k: Seq<char>| row.contains_key(k)
    &&& forall|k: Seq<char>| #[trigger] row.contains_key(k) ==> !is_null_value(row[k])
}

/// The verdict of an existence or state test on the rows of its query: a
/// `count` of 1 (0 for a delete test); a row without a count that
/// identifies the resource (one that does not, for a delete test); and for
/// a delete test no row or an error.
pub open spec fn test_verdict(rows: Seq<Map<Seq<char>, Seq<char>>>, delete_test: bool) -> bool {
    if rows.len() == 0 {
        delete_test
    } else if rows[0].contains_key("_stackql_deploy_error"@) || rows[0].contains_key("error"@) {
        delete_test
    } else if rows[0].contains_key("count"@) && parse_i64(rows[0]["count"@]) is Some {
        let c = parse_i64(rows[0]["count"@])->0;
        if delete_test { c == 0 } else { c == 1 }
    } else if identifies_resource(rows[0]) {
        !delete_test
    } else {
        delete_test
    }
}

fn is_null_value_exec(v: &str) -> (b: bool)
    ensures
        b == is_null_value(v@),
{
    proof {
        reveal_strlit("");
        assert(""@ =~= Seq::<char>::empty());
        if v@.len() == 0 {
            assert(v@ =~= ""@);
        }
    }
    str_eq(v, "") || str_eq(v, "NULL") || str_eq(v, "null")
}

/// Whether a row without a `count` identifies a resource.
pub fn row_identifies_resource(row: &VarMap) -> (b: bool)
    ensures
        b == identifies_resource(row@),
{
    let n = row.len();
    let ghost ps = row.pairs();
    assert forall|j: int| 0 <= j < ps.len() implies {
        &&& #[trigger] row@.contains_key(ps[j].0)
        &&& row@[ps[j].0] == ps[j].1
    } by {
        assert(row@.contains_key(row.pairs()[j].0));
    }
    let mut i: usize = 0;
    while i < n
        invariant
            i <= n,
            n == ps.len(),
            ps == row.pairs(),
            forall|j: int| 0 <= j < i ==> !is_null_value(#[trigger] ps[j].1),
            forall|j: int| 0 <= j < ps.len() ==> {
                &&& #[trigger] row@.contains_key(ps[j].0)
                &&& row@[ps[j].0] == ps[j].1
            },
        decreases n - i,
    {
        let (_k, v) = row.entry(i);
        if is_null_value_exec(v.as_str()) {
            assert(row@.contains_key(ps[i as int].0));
            return false;
        }
        i = i + 1;
    }
    if n == 0 {
        proof {
            assert forall|k: Seq<char>| !row@.contains_key(k) by {
                if row@.contains_key(k) {
                    let j = choose|j: int| 0 <= j < ps.len() && #[trigger] ps[j].0 == k;
                }
            }
        }
        return false;
    }
    proof {
        assert(row@.contains_key(ps[0].0));
        assert forall|k: Seq<char>| #[trigger] row@.contains_key(k) implies !is_null_value(row@[k]) by {
            let j = choose|j: int| 0 <= j < ps.len() && #[trigger] ps[j].0 == k;
            assert(row@[ps[j].0] == ps[j].1);
        }
    }
    true
}

/// Decide a test query's result: whether the resource exists (or, for a
/// delete test, whether it is gone).
pub fn run_test(rows: &Vec<VarMap>, delete_test: bool) -> (b: bool)
    ensures
        b == test_verdict(rows@.map_values(|m: VarMap| m@), delete_test),
{
    let ghost rv = rows@.map_values(|m: VarMap| m@);
    if rows.len() == 0 {
        return delete_test;
    }
    assert(rv[0] == rows@[0]@);
    if rows[0].contains_key("_stackql_deploy_error") || rows[0].contains_key("error") {
        return delete_test;
    }
    if let Some(count_str) = rows[0].get("count") {
        let cc = chars_of(count_str.as_str());
        if let Some(count) = parse_i64_exec(cc.as_slice()) {
            if delete_test {
                return count == 0;
            } else {
                return count == 1;
            }
        }
    }
    if row_identifies_resource(&rows[0]) {
        !delete_test
    } else {
        delete_test
    }
}

/// A test query whose first row reports an error finds nothing: an
/// existence or state test fails and a delete test passes, whatever else
/// the rows hold.
pub proof fn law_error_rows_find_nothing(rows: Seq<Map<Seq<char>, Seq<char>>>, delete_test: bool)
    requires
        rows.len() > 0,
        rows[0].contains_key("_stackql_deploy_error"@) || rows[0].contains_key("error"@),
    ensures
        test_verdict(rows, delete_test) == delete_test,
{
}

/// An existence test passes only on rows that show the resource: a first
/// row without an error that has a count of one, or that identifies the
/// resource by non-null fields.
pub proof fn law_existence_needs_a_resource(rows: Seq<Map<Seq<char>, Seq<char>>>)
    ensures
        test_verdict(rows, false) ==> rows.len() > 0
            && !rows[0].contains_key("_stackql_deploy_error"@) && !rows[0].contains_key("error"@)
            && (rows[0].contains_key("count"@) && parse_i64(rows[0]["count"@]) == Some(1int)
                || identifies_resource(rows[0])),
{
}

/// The fields that an exists check captures from its rows: those of the
/// first row, where it carries no count and no error and identifies the
/// resource.
pub open spec fn captured_fields(rows: Seq<Map<Seq<char>, Seq<char>>>) -> Option<Map<Seq<char>, Seq<char>>> {
    if rows.len() > 0 && !rows[0].contains_key("count"@) && !rows[0].contains_key("_stackql_deploy_error"@)
        && !rows[0].contains_key("error"@) && identifies_resource(rows[0]) {
        Some(rows[0])
    } else {
        None
    }
}

/// The fields that an exists check captures from its rows.
pub fn exists_capture(rows: &Vec<VarMap>) -> (r: Option<VarMap>)
    ensures
        match r {
            Some(m) => captured_fields(rows@.map_values(|m: VarMap| m@)) == Some(m@),
            None => captured_fields(rows@.map_values(|m: VarMap| m@)) is None,
        },
{
    let ghost rv = rows@.map_values(|m: VarMap| m@);
    if rows.len() == 0 {
        return None;
    }
    assert(rv[0] == rows@[0]@);
    let row = &rows[0];
    if row.contains_key("count") || row.contains_key("_stackql_deploy_error") || row.contains_key("error") {
        return None;
    }
    if !row_identifies_resource(row) {
        return None;
    }
    Some(row.duplicate())
}

/// The context with each captured field `k` kept as `{resource}.{k}`, in
/// order.
pub open spec fn scoped_fields(ctx: Map<Seq<char>, Seq<char>>, resource: Seq<char>, fields: Seq<(Seq<char>, Seq<char>)>) -> Map<Seq<char>, Seq<char>>
    decreases fields.len(),
{
    if fields.len() == 0 {
        ctx
    } else {
        scoped_fields(ctx, resource, fields.drop_last()).insert(resource + "."@ + fields.last().0, fields.last().1)
    }
}

/// Keeps the captured fields of a resource in its context, as
/// `scoped_fields` says.
pub fn scope_fields(ctx: &mut VarMap, resource: &str, fields: &VarMap)
    ensures
        final(ctx)@ == scoped_fields(old(ctx)@, resource@, fields.pairs()),
{
    let ghost fv = fields.pairs();
    let ghost c0 = ctx@;
    let n = fields.len();
    let mut i: usize = 0;
    assert(fv.subrange(0, 0) =~= Seq::<(Seq<char>, Seq<char>)>::empty());
    while i < n
        invariant
            i <= n,
            n == fv.len(),
            fv == fields.pairs(),
            ctx@ == scoped_fields(c0, resource@, fv.subrange(0, i as int)),
        decreases n - i,
    {
        let (k, v) = fields.entry(i);
        assert(fv.subrange(0, i + 1).drop_last() =~= fv.subrange(0, i as int));
        assert(fv.subrange(0, i + 1).last() == fv[i as int]);
        let mut key = chars_of(resource);
        push_str(&mut key, ".");
        push_str(&mut key, k.as_str());
        ctx.insert(string_of(key.as_slice()), v.clone());
        i = i + 1;
    }
    assert(fv.subrange(0, n as int) =~= fv);
}

/// What to do after one run of a test query.
pub enum TestAction {
    /// The test holds: stop and report success.
    Passed,
    /// Sleep for the retry delay, then run the test again.
    Retry,
    /// Sleep for the retry delay, then report failure.
    Failed,
}

/// Retries of a test query: the decisions of `perform_retries`.  The
/// caller runs the test and waits the retry delay where an action says so.
pub struct TestRetries {
    pub attempt: u32,
    pub retries: u32,
}

impl TestRetries {
    pub fn new(retries: u32) -> (r: Self)
        ensures
            r.attempt == 0,
            r.retries == retries,
    {
        TestRetries { attempt: 0, retries }
    }

    /// Whether another run of the test is due; with no retries the test is
    /// never run and fails.
    pub fn should_run(&self) -> (b: bool)
        ensures
            b == (self.attempt < self.retries),
    {
        self.attempt < self.retries
    }

    /// The step on the verdict of one run.
    pub fn step(&mut self, passed: bool) -> (a: TestAction)
        requires
            old(self).attempt < old(self).retries,
        ensures
            final(self).retries == old(self).retries,
            passed ==> a is Passed && final(self).attempt == old(self).attempt,
            !passed ==> final(self).attempt == old(self).attempt + 1 && (if final(self).attempt < final(self).retries {
                a is Retry
            } else {
                a is Failed
            }),
    {
        if passed {
            return TestAction::Passed;
        }
        self.attempt = self.attempt + 1;
        if self.attempt < self.retries {
            TestAction::Retry
        } else {
            TestAction::Failed
        }
    }
}

/// What is logged for a query about to run: the query, where queries are
/// shown.
pub open spec fn shown_query(show_queries: bool, query: Seq<char>) -> Option<Seq<char>> {
    if show_queries {
        Some("query:\n\n"@ + query + "\n"@)
    } else {
        None
    }
}

/// The log message that shows `query`, where `show_queries` is set.
pub fn show_query(show_queries: bool, query: &str) -> (r: Option<String>)
    ensures
        opt_string_view(r) == shown_query(show_queries, query@),
{
    if show_queries {
        let mut t = chars_of("query:\n\n");
        push_str(&mut t, query);
        push_str(&mut t, "\n");
        Some(string_of(t.as_slice()))
    } else {
        None
    }
}

/// A command as it is sent: `REGISTRY PULL provider::vX.Y` becomes
/// `REGISTRY PULL provider X.Y`; any other command is sent as it is.
pub open spec fn prepared_command(command: Seq<char>) -> Seq<char> {
    if starts_with(command, "REGISTRY PULL"@) {
        match regex_first_match(r"(REGISTRY PULL \w+)(::v[\d\.]+)?"@, command) {
            Some((_, groups, _)) => {
                if groups.len() >= 3 && groups[2] is Some && groups[2]->0.len() >= 2 {
                    let provider = match groups[1] { Some(p) => p, None => Seq::empty() };
                    provider + " "@ + groups[2]->0.subrange(2, groups[2]->0.len() as int)
                } else {
                    command
                }
            },
            None => command,
        }
    } else {
        command
    }
}

/// The text sent for `command`, as `prepared_command` says.
pub fn prepare_command(command: &str) -> (r: String)
    ensures
        r@ == prepared_command(command@),
{
    let cs = chars_of(command);
    if !starts_with_str(cs.as_slice(), "REGISTRY PULL") {
        return command.to_owned();
    }
    let m = match regex_captures(r"(REGISTRY PULL \w+)(::v[\d\.]+)?", command) {
        Some(m) => m,
        None => return command.to_owned(),
    };
    if m.groups.len() < 3 {
        return command.to_owned();
    }
    let ghost g = m.groups@.map_values(|o: Option<String>| opt_string_view(o));
    assert(g[1] == opt_string_view(m.groups@[1]));
    assert(g[2] == opt_string_view(m.groups@[2]));
    match &m.groups[2] {
        Some(v) => {
            let vc = chars_of(v.as_str());
            if vc.len() < 2 {
                return command.to_owned();
            }
            let mut t: Vec<char> = match &m.groups[1] {
                Some(p) => chars_of(p.as_str()),
                None => Vec::new(),
            };
            push_str(&mut t, " ");
            let tail = crate::text::slice_chars(vc.as_slice(), 2, vc.len());
            push_all(&mut t, tail.as_slice());
            string_of(t.as_slice())
        },
        None => command.to_owned(),
    }
}

// ---------------------------------------------------------------------------
// Laws of the runs
// ---------------------------------------------------------------------------

/// A query run asks for another attempt only while attempts are left: it
/// makes at most `retries + 1` attempts.
pub proof fn law_query_run_attempts_are_bounded(st: QueryRunView, outcome: Result<QueryResultView, Seq<char>>)
    requires
        st.attempt <= st.retries,
    ensures
        query_step(st, outcome).1 is Retry ==> query_step(st, outcome).0.attempt == st.attempt + 1
            && query_step(st, outcome).0.attempt <= st.retries,
{
}

/// A query run fed the outcomes `outs` in turn from the state `st`, for as
/// long as its steps ask for another attempt: the number of attempts made,
/// and the action that ends the run (`None` where the outcomes run out
/// first).
pub open spec fn query_run(st: QueryRunView, outs: Seq<Result<QueryResultView, Seq<char>>>) -> (nat, Option<QueryActionView>)
    decreases outs.len(),
{
    if outs.len() == 0 {
        (0, None)
    } else {
        let (st2, a) = query_step(st, outs[0]);
        if a is Retry {
            let r = query_run(st2, outs.drop_first());
            (r.0 + 1, r.1)
        } else {
            (1, Some(a))
        }
    }
}

/// The message of a failed attempt.
pub open spec fn error_of(o: Result<QueryResultView, Seq<char>>) -> Seq<char> {
    match o {
        Err(e) => e,
        Ok(_) => Seq::empty(),
    }
}

/// A query run makes at least one attempt and at most `retries + 1`
/// (counting from the attempts already made), and, given that many
/// outcomes, always ends with an action; with no retries it makes exactly
/// one.
pub proof fn law_query_run_makes_at_most_retries_plus_one_attempts(
    st: QueryRunView,
    outs: Seq<Result<QueryResultView, Seq<char>>>,
)
    requires
        st.attempt <= st.retries,
    ensures
        query_run(st, outs).0 <= st.retries - st.attempt + 1,
        outs.len() > 0 ==> query_run(st, outs).0 >= 1,
        outs.len() >= st.retries - st.attempt + 1 ==> query_run(st, outs).1 is Some,
        outs.len() > 0 && st.attempt == st.retries ==> query_run(st, outs).0 == 1,
    decreases outs.len(),
{
    if outs.len() > 0 {
        let (st2, a) = query_step(st, outs[0]);
        law_query_run_attempts_are_bounded(st, outs[0]);
        if a is Retry {
            law_query_run_makes_at_most_retries_plus_one_attempts(st2, outs.drop_first());
        }
    }
}

/// A query run whose errors are suppressed, and whose every attempt fails
/// with an error, returns after its last attempt a single row that holds
/// the last attempt's error under `_stackql_deploy_error`.
pub proof fn law_suppressed_failures_return_last_error(
    st: QueryRunView,
    outs: Seq<Result<QueryResultView, Seq<char>>>,
)
    requires
        st.suppress_errors,
        st.attempt <= st.retries,
        outs.len() == st.retries - st.attempt + 1,
        forall|i: int| 0 <= i < outs.len() ==> #[trigger] outs[i] is Err,
    ensures
        query_run(st, outs) == (outs.len(), Some(QueryActionView::Return {
            rows: seq![Map::<Seq<char>, Seq<char>>::empty().insert("_stackql_deploy_error"@, error_of(outs.last()))],
            after_sleep: true,
        })),
    decreases outs.len(),
{
    assert(outs[0] is Err);
    if st.attempt < st.retries {
        let (st2, a) = query_step(st, outs[0]);
        assert(a is Retry);
        let rest = outs.drop_first();
        assert forall|i: int| 0 <= i < rest.len() implies #[trigger] rest[i] is Err by {
            assert(rest[i] == outs[i + 1]);
        }
        law_suppressed_failures_return_last_error(st2, rest);
        assert(rest.last() == outs.last());
    }
}

/// A query run whose errors are suppressed stops the program only for a
/// count above one: every error comes back as an error row instead.
pub proof fn law_suppressed_query_run_exits_only_on_count(st: QueryRunView, outcome: Result<QueryResultView, Seq<char>>)
    requires
        st.suppress_errors,
    ensures
        query_step(st, outcome).1 matches QueryActionView::Exit(m) ==>
            starts_with(m, "Detected more than one resource matching query criteria, expected 0 or 1, got "@),
{
    let p = "Detected more than one resource matching query criteria, expected 0 or 1, got "@;
    match outcome {
        Ok(QueryResultView::Data { columns, rows, notices }) => {
            if rows.len() > 0 {
                let maps = rows.map_values(|r: Seq<Seq<char>>| row_map(columns, r));
                let first = maps[0];
                if !first.contains_key("error"@) && first.contains_key("count"@) && parse_i64(first["count"@]) is Some
                    && parse_i64(first["count"@])->0 > 1 {
                    let m = p + int_text(parse_i64(first["count"@])->0);
                    assert(m.subrange(0, p.len() as int) =~= p);
                }
            }
        },
        _ => {},
    }
}

/// A command run asks for another attempt only while attempts are left.
pub proof fn law_command_run_attempts_are_bounded(st: CommandRunView, outcome: Result<QueryResultView, Seq<char>>)
    requires
        st.attempt <= st.retries,
    ensures
        command_step(st, outcome).1 is Retry ==> command_step(st, outcome).0.attempt == st.attempt + 1
            && command_step(st, outcome).0.attempt <= st.retries,
{
}

/// A command run whose errors are ignored never stops the program.
pub proof fn law_ignored_command_errors_never_exit(st: CommandRunView, outcome: Result<QueryResultView, Seq<char>>)
    requires
        st.ignore_errors,
    ensures
        !(command_step(st, outcome).1 is Exit),
{
}

} // verus!
