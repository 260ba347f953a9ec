//! Query results as the library sees them.
//!
//! The wire client hands back column names, rows keyed by column, notices
//! and an affected-row count; this module turns that into a `QueryResult`.
use vstd::prelude::*;
use crate::text::{chars_of, decimal, decimal_exec, push_all, push_str, string_of};
use crate::varmap::AssocMap;

verus! {

/// A value of a result cell as the wire client decoded it.  Floating-point
/// values arrive already written out as text.
pub enum CellValue {
    Null,
    Bool(bool),
    Integer(i64),
    Float(String),
    Text(String),
    Bytes(Vec<u8>),
}

pub enum CellView {
    Null,
    Bool(bool),
    Integer(int),
    Float(Seq<char>),
    Text(Seq<char>),
    Bytes,
}

impl View for CellValue {
    type V = CellView;

    open spec fn view(&self) -> CellView {
        match self {
            CellValue::Null => CellView::Null,
            CellValue::Bool(b) => CellView::Bool(*b),
            CellValue::Integer(i) => CellView::Integer(*i as int),
            CellValue::Float(s) => CellView::Float(s@),
            CellValue::Text(s) => CellView::Text(s@),
            CellValue::Bytes(_) => CellView::Bytes,
        }
    }
}

/// A notice of the server, by the fields that the library reads.
pub struct RawNotice {
    pub message: Option<String>,
    pub detail: Option<String>,
    pub hint: Option<String>,
}

/// What the wire client returns for one query.
pub struct RawQueryResult {
    pub column_names: Vec<String>,
    pub rows: Vec<AssocMap<CellValue>>,
    pub notices: Vec<RawNotice>,
    pub row_count: i32,
}

/// Represents a column in a query result.
pub struct QueryResultColumn {
    pub name: String,
}

/// Represents a row in a query result.
pub struct QueryResultRow {
    pub values: Vec<String>,
}

/// The possible results of a query execution.
pub enum QueryResult {
    Data { columns: Vec<QueryResultColumn>, rows: Vec<QueryResultRow>, notices: Vec<String> },
    Command(String),
    Empty,
}

pub enum QueryResultView {
    Data { columns: Seq<Seq<char>>, rows: Seq<Seq<Seq<char>>>, notices: Seq<Seq<char>> },
    Command(Seq<char>),
    Empty,
}

pub open spec fn string_views(v: Seq<String>) -> Seq<Seq<char>> {
    v.map_values(|s: String| s@)
}

impl View for QueryResult {
    type V = QueryResultView;

    open spec fn view(&self) -> QueryResultView {
        match self {
            QueryResult::Data { columns, rows, notices } => QueryResultView::Data {
                columns: columns@.map_values(|c: QueryResultColumn| c.name@),
                rows: rows@.map_values(|r: QueryResultRow| string_views(r.values@)),
                notices: string_views(notices@),
            },
            QueryResult::Command(s) => QueryResultView::Command(s@),
            QueryResult::Empty => QueryResultView::Empty,
        }
    }
}

/// The decimal text of an integer, with a `-` sign where it is negative.
pub open spec fn int_text(i: int) -> Seq<char> {
    if i < 0 {
        seq!['-'] + decimal((-i) as nat)
    } else {
        decimal(i as nat)
    }
}

/// The text of a cell, or `NULL` where the row has no value for the column.
pub open spec fn cell_text(c: Option<CellView>) -> Seq<char> {
    match c {
        Some(CellView::Text(s)) => s,
        Some(CellView::Null) => "NULL"@,
        Some(CellView::Bool(b)) => if b { "true"@ } else { "false"@ },
        Some(CellView::Integer(i)) => int_text(i),
        Some(CellView::Float(s)) => s,
        Some(CellView::Bytes) => "UNKNOWN_TYPE"@,
        None => "NULL"@,
    }
}

/// The texts of a row, one per column.
pub open spec fn row_texts(columns: Seq<Seq<char>>, row: Map<Seq<char>, CellView>) -> Seq<Seq<char>> {
    columns.map_values(|c: Seq<char>| cell_text(if row.contains_key(c) { Some(row[c]) } else { None }))
}

pub open spec fn opt_text(o: Option<String>) -> Option<Seq<char>> {
    match o {
        Some(s) => Some(s@),
        None => None,
    }
}

/// The text of a notice: its message, then its detail and hint where given.
pub open spec fn notice_text(message: Option<Seq<char>>, detail: Option<Seq<char>>, hint: Option<Seq<char>>) -> Seq<char> {
    let m = match message { Some(m) => m, None => "Unknown notice"@ };
    let d = match detail { Some(d) => "\nDETAIL: "@ + d, None => Seq::empty() };
    let h = match hint { Some(h) => "\nHINT: "@ + h, None => Seq::empty() };
    m + d + h
}

pub open spec fn raw_notice_text(n: RawNotice) -> Seq<char> {
    notice_text(opt_text(n.message), opt_text(n.detail), opt_text(n.hint))
}

/// The result that a raw result of the wire client stands for.
pub open spec fn query_result_of(raw: RawQueryResult) -> QueryResultView {
    let columns = string_views(raw.column_names@);
    let rows = raw.rows@.map_values(|r: AssocMap<CellValue>| row_texts(columns, r@));
    let notices = raw.notices@.map_values(|n: RawNotice| raw_notice_text(n));
    if rows.len() > 0 || notices.len() > 0 {
        QueryResultView::Data { columns, rows, notices }
    } else if raw.row_count > 0 {
        QueryResultView::Command(
            "Command completed successfully (affected "@ + decimal(raw.row_count as nat) + " rows)"@,
        )
    } else {
        QueryResultView::Empty
    }
}

pub open spec fn execute_outcome(raw: Result<RawQueryResult, String>) -> Result<QueryResultView, Seq<char>> {
    match raw {
        Ok(r) => Ok(query_result_of(r)),
        Err(e) => Err("Query execution failed: "@ + e@),
    }
}

pub fn int_text_exec(i: i64) -> (r: Vec<char>)
    ensures
        r@ == int_text(i as int),
{
    if i < 0 {
        let m: u64 = if i == i64::MIN { 0x8000_0000_0000_0000u64 } else { (-i) as u64 };
        let mut r: Vec<char> = Vec::new();
        r.push('-');
        let d = decimal_exec(m);
        push_all(&mut r, d.as_slice());
        assert(r@ =~= seq!['-'] + decimal((-(i as int)) as nat));
        r
    } else {
        decimal_exec(i as u64)
    }
}

fn cell_text_exec(c: Option<&CellValue>) -> (r: String)
    ensures
        r@ == cell_text(match c { Some(v) => Some(v@), None => None }),
{
    match c {
        Some(CellValue::Text(s)) => s.clone(),
        Some(CellValue::Null) => "NULL".to_owned(),
        Some(CellValue::Bool(b)) => if *b { "true".to_owned() } else { "false".to_owned() },
        Some(CellValue::Integer(i)) => {
            let t = int_text_exec(*i);
            string_of(t.as_slice())
        },
        Some(CellValue::Float(s)) => s.clone(),
        Some(CellValue::Bytes(_)) => "UNKNOWN_TYPE".to_owned(),
        None => "NULL".to_owned(),
    }
}

fn notice_text_exec(n: &RawNotice) -> (r: String)
    ensures
        r@ == raw_notice_text(*n),
{
    let mut t: Vec<char> = match &n.message {
        Some(m) => chars_of(m.as_str()),
        None => chars_of("Unknown notice"),
    };
    if let Some(d) = &n.detail {
        push_str(&mut t, "\nDETAIL: ");
        push_str(&mut t, d.as_str());
    }
    if let Some(h) = &n.hint {
        push_str(&mut t, "\nHINT: ");
        push_str(&mut t, h.as_str());
    }
    proof {
        let m = match opt_text(n.message) { Some(m) => m, None => "Unknown notice"@ };
        let d = match opt_text(n.detail) { Some(d) => "\nDETAIL: "@ + d, None => Seq::<char>::empty() };
        let h = match opt_text(n.hint) { Some(h) => "\nHINT: "@ + h, None => Seq::<char>::empty() };
        assert(t@ =~= m + d + h);
    }
    string_of(t.as_slice())
}

/// Turns what the wire client returned for a query into a `QueryResult`:
/// rows or notices make a data result, an affected-row count alone a
/// command result, and nothing at all an empty one.
pub fn execute_query(raw: Result<RawQueryResult, String>) -> (r: Result<QueryResult, String>)
    ensures
        match r {
            Ok(q) => execute_outcome(raw) == Ok::<QueryResultView, Seq<char>>(q@),
            Err(e) => execute_outcome(raw) == Err::<QueryResultView, Seq<char>>(e@),
        },
{
    match raw {
        Err(e) => {
            let mut t = chars_of("Query execution failed: ");
            push_str(&mut t, e.as_str());
            Err(string_of(t.as_slice()))
        },
        Ok(result) => {
            let ghost gr = result;
            let ghost columns_v = string_views(result.column_names@);
            let mut columns: Vec<QueryResultColumn> = Vec::new();
            let mut i: usize = 0;
            while i < result.column_names.len()
                invariant
                    i <= result.column_names@.len(),
                    columns_v == string_views(result.column_names@),
                    columns@.map_values(|c: QueryResultColumn| c.name@) =~= columns_v.subrange(0, i as int),
                decreases result.column_names@.len() - i,
            {
                let ghost before = columns@;
                let col = QueryResultColumn { name: result.column_names[i].clone() };
                let ghost cg = col;
                columns.push(col);
                assert(columns@ =~= before.push(cg));
                assert(columns@.map_values(|c: QueryResultColumn| c.name@) =~= before.map_values(|c: QueryResultColumn| c.name@).push(cg.name@));
                i = i + 1;
            }
            let mut rows: Vec<QueryResultRow> = Vec::new();
            let mut j: usize = 0;
            while j < result.rows.len()
                invariant
                    j <= result.rows@.len(),
                    columns_v == string_views(result.column_names@),
                    columns_v.len() == result.column_names@.len(),
                    rows@.map_values(|r: QueryResultRow| string_views(r.values@)) =~=
                        result.rows@.subrange(0, j as int).map_values(|r: AssocMap<CellValue>| row_texts(columns_v, r@)),
                decreases result.rows@.len() - j,
            {
                let row_map = &result.rows[j];
                let mut values: Vec<String> = Vec::new();
                let mut k: usize = 0;
                while k < result.column_names.len()
                    invariant
                        k <= result.column_names@.len(),
                        columns_v == string_views(result.column_names@),
                        columns_v.len() == result.column_names@.len(),
                        string_views(values@) =~= row_texts(columns_v, row_map@).subrange(0, k as int),
                    decreases result.column_names@.len() - k,
                {
                    let v = cell_text_exec(row_map.get(result.column_names[k].as_str()));
                    let ghost before = values@;
                    let ghost vg = v;
                    values.push(v);
                    assert(values@ =~= before.push(vg));
                    assert(columns_v[k as int] == result.column_names@[k as int]@);
                    assert(string_views(values@) =~= string_views(before).push(vg@));
                    k = k + 1;
                }
                let ghost before = rows@;
                let row = QueryResultRow { values };
                let ghost rg = row;
                rows.push(row);
                assert(rows@ =~= before.push(rg));
                assert(result.rows@.subrange(0, j + 1) =~= result.rows@.subrange(0, j as int).push(result.rows@[j as int]));
                assert(string_views(rg.values@) =~= row_texts(columns_v, result.rows@[j as int]@));
                assert(rows@.map_values(|r: QueryResultRow| string_views(r.values@)) =~=
                    before.map_values(|r: QueryResultRow| string_views(r.values@)).push(string_views(rg.values@)));
                j = j + 1;
            }
            let mut notices: Vec<String> = Vec::new();
            let mut k: usize = 0;
            while k < result.notices.len()
                invariant
                    k <= result.notices@.len(),
                    string_views(notices@) =~= result.notices@.subrange(0, k as int).map_values(|n: RawNotice| raw_notice_text(n)),
                decreases result.notices@.len() - k,
            {
                let t = notice_text_exec(&result.notices[k]);
                let ghost before = notices@;
                let ghost tg = t;
                notices.push(t);
                assert(notices@ =~= before.push(tg));
                assert(result.notices@.subrange(0, k + 1) =~= result.notices@.subrange(0, k as int).push(result.notices@[k as int]));
                assert(string_views(notices@) =~= string_views(before).push(tg@));
                k = k + 1;
            }
            assert(result.rows@.subrange(0, result.rows@.len() as int) =~= result.rows@);
            assert(result.notices@.subrange(0, result.notices@.len() as int) =~= result.notices@);
            assert(columns_v.subrange(0, columns_v.len() as int) =~= columns_v);
            if rows.len() > 0 || notices.len() > 0 {
                Ok(QueryResult::Data { columns, rows, notices })
            } else if result.row_count > 0 {
                let mut t = chars_of("Command completed successfully (affected ");
                let d = decimal_exec(result.row_count as u64);
                push_all(&mut t, d.as_slice());
                push_str(&mut t, " rows)");
                Ok(QueryResult::Command(string_of(t.as_slice())))
            } else {
                Ok(QueryResult::Empty)
            }
        },
    }
}

} // verus!
