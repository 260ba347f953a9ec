//! Callbacks after a change.  A change whose statement returns its result
//! (`RETURNING *`) has the first row of that result kept in the context,
//! flattened to dot paths; an optional `callback` query then polls until
//! the provider's asynchronous operation completes, unless the kept result
//! already shows it done.
use vstd::prelude::*;
use crate::templating::{ParsedQuery, ParsedQueryView};
use crate::text::{chars_of, string_of, push_str, push_all, str_eq, decimal, decimal_exec};
use crate::varmap::{AssocMap, VarMap, map_of};

verus! {

// ---------------------------------------------------------------------------
// Returned values, flattened
// ---------------------------------------------------------------------------

/// A value of a returned row: text, or an object of named values.
pub enum JsonTree {
    Leaf(String),
    Object(Vec<(String, JsonTree)>),
}

pub enum JsonTreeView {
    Leaf(Seq<char>),
    Object(Seq<(Seq<char>, JsonTreeView)>),
}

pub open spec fn tree_view(t: JsonTree) -> JsonTreeView
    decreases t,
{
    match t {
        JsonTree::Leaf(s) => JsonTreeView::Leaf(s@),
        JsonTree::Object(es) => JsonTreeView::Object(entries_view(es@, es@.len() as int)),
    }
}

/// The first `n` entries of an object, as plain values.
pub open spec fn entries_view(es: Seq<(String, JsonTree)>, n: int) -> Seq<(Seq<char>, JsonTreeView)>
    decreases es, n,
{
    if n <= 0 || n > es.len() {
        Seq::empty()
    } else {
        entries_view(es, n - 1).push((es[n - 1].0@, tree_view(es[n - 1].1)))
    }
}

pub proof fn lemma_entries_view(es: Seq<(String, JsonTree)>, n: int)
    requires
        0 <= n <= es.len(),
    ensures
        entries_view(es, n).len() == n,
        forall|k: int| 0 <= k < n ==> #[trigger] entries_view(es, n)[k] == (es[k].0@, tree_view(es[k].1)),
    decreases n,
{
    if n > 0 {
        lemma_entries_view(es, n - 1);
    }
}

/// The leaves of `t` under their dot paths, `prefix` first.
pub open spec fn flatten(prefix: Seq<char>, t: JsonTreeView) -> Seq<(Seq<char>, Seq<char>)>
    decreases t,
{
    match t {
        JsonTreeView::Leaf(s) => seq![(prefix, s)],
        JsonTreeView::Object(es) => flatten_entries(prefix, es, es.len() as int),
    }
}

/// The leaves of the first `n` entries of an object under `prefix`.
pub open spec fn flatten_entries(prefix: Seq<char>, es: Seq<(Seq<char>, JsonTreeView)>, n: int) -> Seq<(Seq<char>, Seq<char>)>
    decreases es, n,
{
    if n <= 0 || n > es.len() {
        Seq::empty()
    } else {
        flatten_entries(prefix, es, n - 1) + flatten(prefix + "."@ + es[n - 1].0, es[n - 1].1)
    }
}

/// The fields of a returned row: each column's leaves under paths that
/// start with the column's name.
pub open spec fn row_fields(es: Seq<(Seq<char>, JsonTreeView)>, n: int) -> Seq<(Seq<char>, Seq<char>)>
    decreases n,
{
    if n <= 0 || n > es.len() {
        Seq::empty()
    } else {
        row_fields(es, n - 1) + flatten(es[n - 1].0, es[n - 1].1)
    }
}

pub open spec fn pairs_view(v: Seq<(String, String)>) -> Seq<(Seq<char>, Seq<char>)> {
    v.map_values(|p: (String, String)| (p.0@, p.1@))
}

fn flatten_into(prefix: &Vec<char>, t: &JsonTree, out: &mut Vec<(String, String)>)
    ensures
        pairs_view(final(out)@) == pairs_view(old(out)@) + flatten(prefix@, tree_view(*t)),
    decreases t,
{
    match t {
        JsonTree::Leaf(s) => {
            let ghost before = out@;
            let key = string_of(prefix.as_slice());
            let val = s.clone();
            let ghost pair = (key@, val@);
            out.push((key, val));
            assert(pairs_view(out@) =~= pairs_view(before).push(pair));
            assert(pairs_view(before) + seq![pair] =~= pairs_view(before).push(pair));
        },
        JsonTree::Object(es) => {
            let ghost ev = entries_view(es@, es@.len() as int);
            proof {
                lemma_entries_view(es@, es@.len() as int);
            }
            let ghost start = pairs_view(out@);
            let mut i: usize = 0;
            while i < es.len()
                invariant
                    *t == JsonTree::Object(*es),
                    i <= es@.len(),
                    ev == entries_view(es@, es@.len() as int),
                    ev.len() == es@.len(),
                    forall|k: int| 0 <= k < es@.len() ==> #[trigger] ev[k] == (es@[k].0@, tree_view(es@[k].1)),
                    pairs_view(out@) == start + flatten_entries(prefix@, ev, i as int),
                decreases es@.len() - i,
            {
                let mut p: Vec<char> = Vec::new();
                push_all(&mut p, prefix.as_slice());
                p.push('.');
                push_str(&mut p, es[i].0.as_str());
                assert(p@ =~= prefix@ + "."@ + es@[i as int].0@) by {
                    reveal_strlit(".");
                }
                proof {
                    assert(decreases_to!(*t => es@[i as int].1)) by {
                        assert(decreases_to!(*t => (*t)->Object_0));
                        assert((*t)->Object_0 == *es);
                        assert(decreases_to!(*es => es@));
                        assert(decreases_to!(es@ => es@[i as int]));
                        assert(decreases_to!(es@[i as int] => es@[i as int].1));
                    }
                }
                let ghost before = pairs_view(out@);
                flatten_into(&p, &es[i].1, out);
                assert(flatten_entries(prefix@, ev, i + 1) =~= flatten_entries(prefix@, ev, i as int)
                    + flatten(prefix@ + "."@ + ev[i as int].0, ev[i as int].1));
                assert(pairs_view(out@) =~= start + flatten_entries(prefix@, ev, i + 1));
                i = i + 1;
            }
        },
    }
}

/// The fields of a returned row, as `row_fields` says.
pub fn returning_fields(row: &Vec<(String, JsonTree)>) -> (r: Vec<(String, String)>)
    ensures
        pairs_view(r@) == row_fields(entries_view(row@, row@.len() as int), row@.len() as int),
{
    let ghost ev = entries_view(row@, row@.len() as int);
    proof {
        lemma_entries_view(row@, row@.len() as int);
    }
    let mut out: Vec<(String, String)> = Vec::new();
    let mut i: usize = 0;
    assert(pairs_view(out@) =~= Seq::<(Seq<char>, Seq<char>)>::empty());
    while i < row.len()
        invariant
            i <= row@.len(),
            ev == entries_view(row@, row@.len() as int),
            ev.len() == row@.len(),
            forall|k: int| 0 <= k < row@.len() ==> #[trigger] ev[k] == (row@[k].0@, tree_view(row@[k].1)),
            pairs_view(out@) == row_fields(ev, i as int),
        decreases row@.len() - i,
    {
        let p = chars_of(row[i].0.as_str());
        flatten_into(&p, &row[i].1, &mut out);
        assert(row_fields(ev, i + 1) =~= row_fields(ev, i as int) + flatten(ev[i as int].0, ev[i as int].1));
        i = i + 1;
    }
    out
}

// ---------------------------------------------------------------------------
// The kept result in the context
// ---------------------------------------------------------------------------

/// The context with each field kept as `callback.{field}` and as
/// `{resource}.callback.{field}`, in order.
pub open spec fn captured(ctx: Map<Seq<char>, Seq<char>>, resource: Seq<char>, fields: Seq<(Seq<char>, Seq<char>)>) -> Map<Seq<char>, Seq<char>>
    decreases fields.len(),
{
    if fields.len() == 0 {
        ctx
    } else {
        let c = captured(ctx, resource, fields.drop_last());
        let (k, v) = fields.last();
        c.insert("callback."@ + k, v).insert(resource + ".callback."@ + k, v)
    }
}

/// Keeps the fields of a returned row in the context, as `captured` says.
pub fn capture_returning(ctx: &mut VarMap, resource: &str, fields: &Vec<(String, String)>)
    ensures
        final(ctx)@ == captured(old(ctx)@, resource@, pairs_view(fields@)),
{
    let ghost fv = pairs_view(fields@);
    let ghost c0 = ctx@;
    let mut i: usize = 0;
    assert(fv.subrange(0, 0) =~= Seq::<(Seq<char>, Seq<char>)>::empty());
    while i < fields.len()
        invariant
            i <= fields@.len(),
            fv == pairs_view(fields@),
            ctx@ == captured(c0, resource@, fv.subrange(0, i as int)),
        decreases fields@.len() - i,
    {
        assert(fv.subrange(0, i + 1).drop_last() =~= fv.subrange(0, i as int));
        assert(fv.subrange(0, i + 1).last() == (fields@[i as int].0@, fields@[i as int].1@));
        let mut short = chars_of("callback.");
        push_str(&mut short, fields[i].0.as_str());
        let mut full = chars_of(resource);
        push_str(&mut full, ".callback.");
        push_str(&mut full, fields[i].0.as_str());
        ctx.insert(string_of(short.as_slice()), fields[i].1.clone());
        ctx.insert(string_of(full.as_slice()), fields[i].1.clone());
        i = i + 1;
    }
    assert(fv.subrange(0, fields@.len() as int) =~= fv);
}

/// The fields of a returned row as a map (a later path wins).
pub fn fields_map(fields: &Vec<(String, String)>) -> (m: VarMap)
    ensures
        m@ == map_of(pairs_view(fields@)),
{
    let ghost fv = pairs_view(fields@);
    let mut m = VarMap::new();
    let mut i: usize = 0;
    assert(fv.subrange(0, 0) =~= Seq::<(Seq<char>, Seq<char>)>::empty());
    while i < fields.len()
        invariant
            i <= fields@.len(),
            fv == pairs_view(fields@),
            m@ == map_of(fv.subrange(0, i as int)),
        decreases fields@.len() - i,
    {
        assert(fv.subrange(0, i + 1).drop_last() =~= fv.subrange(0, i as int));
        assert(fv.subrange(0, i + 1).last() == (fields@[i as int].0@, fields@[i as int].1@));
        m.insert(fields[i].0.clone(), fields[i].1.clone());
        i = i + 1;
    }
    assert(fv.subrange(0, fields@.len() as int) =~= fv);
    m
}

// ---------------------------------------------------------------------------
// Polling
// ---------------------------------------------------------------------------

/// The callback query for `op` (`create`, `update`, `delete`): the one for
/// that operation, else the plain `callback`.
pub open spec fn callback_anchor_of(q: Map<Seq<char>, ParsedQueryView>, op: Seq<char>) -> Option<Seq<char>> {
    if q.contains_key("callback:"@ + op) {
        Some("callback:"@ + op)
    } else if q.contains_key("callback"@) {
        Some("callback"@)
    } else {
        None
    }
}

/// The anchor of the callback query that follows the operation `op`.
pub fn callback_anchor(queries: &AssocMap<ParsedQuery>, op: &str) -> (r: Option<String>)
    ensures
        match r {
            Some(a) => callback_anchor_of(queries@, op@) == Some(a@),
            None => callback_anchor_of(queries@, op@) is None,
        },
{
    let mut t = chars_of("callback:");
    push_str(&mut t, op);
    let specific = string_of(t.as_slice());
    if queries.contains_key(specific.as_str()) {
        Some(specific)
    } else if queries.contains_key("callback") {
        Some("callback".to_owned())
    } else {
        None
    }
}

/// The kept result already shows the operation done: the named field has
/// the named value.
pub open spec fn short_circuited(fields: Map<Seq<char>, Seq<char>>, field: Option<Seq<char>>, value: Option<Seq<char>>) -> bool {
    match (field, value) {
        (Some(f), Some(v)) => fields.contains_key(f) && fields[f] == v,
        _ => false,
    }
}

/// Whether polling can be skipped for the kept `fields`.
pub fn should_short_circuit(fields: &VarMap, field: Option<&str>, value: Option<&str>) -> (b: bool)
    ensures
        b == short_circuited(fields@, match field { Some(f) => Some(f@), None => None },
            match value { Some(v) => Some(v@), None => None }),
{
    match (field, value) {
        (Some(f), Some(v)) => match fields.get(f) {
            Some(x) => str_eq(x.as_str(), v),
            None => false,
        },
        _ => false,
    }
}

/// A value that reads as true: `1` or `true`.
pub open spec fn truthy(v: Seq<char>) -> bool {
    v == "1"@ || v == "true"@
}

/// A row of a callback query that says the operation is complete: its
/// `success` column (else its `count`) is truthy.
pub open spec fn row_succeeded(r: Map<Seq<char>, Seq<char>>) -> bool {
    if r.contains_key("success"@) {
        truthy(r["success"@])
    } else {
        r.contains_key("count"@) && truthy(r["count"@])
    }
}

/// The rows of a callback query say the operation is complete.
pub open spec fn poll_succeeded(rows: Seq<Map<Seq<char>, Seq<char>>>) -> bool {
    exists|i: int| 0 <= i < rows.len() && row_succeeded(#[trigger] rows[i])
}

fn truthy_exec(v: &str) -> (b: bool)
    ensures
        b == truthy(v@),
{
    str_eq(v, "1") || str_eq(v, "true")
}

/// Whether one poll of a callback query found the operation complete.
pub fn callback_succeeded(rows: &[VarMap]) -> (b: bool)
    ensures
        b == poll_succeeded(rows@.map_values(|m: VarMap| m@)),
{
    let ghost rv = rows@.map_values(|m: VarMap| m@);
    let mut i: usize = 0;
    while i < rows.len()
        invariant
            i <= rows@.len(),
            rv == rows@.map_values(|m: VarMap| m@),
            forall|k: int| 0 <= k < i ==> !row_succeeded(#[trigger] rv[k]),
        decreases rows@.len() - i,
    {
        assert(rv[i as int] == rows@[i as int]@);
        let ok = match rows[i].get("success") {
            Some(v) => truthy_exec(v.as_str()),
            None => match rows[i].get("count") {
                Some(v) => truthy_exec(v.as_str()),
                None => false,
            },
        };
        if ok {
            return true;
        }
        i = i + 1;
    }
    false
}

/// The message on which a build or teardown stops when the callback of
/// `op` on `resource` never succeeded in `attempts` polls.
pub fn callback_timeout_message(resource: &str, op: &str, attempts: u32) -> (r: String)
    ensures
        r@ == "callback:"@ + op@ + " for ["@ + resource@ + "] did not succeed after "@
            + decimal(attempts as nat) + " attempts"@,
{
    let mut t = chars_of("callback:");
    push_str(&mut t, op);
    push_str(&mut t, " for [");
    push_str(&mut t, resource);
    push_str(&mut t, "] did not succeed after ");
    let d = decimal_exec(attempts as u64);
    push_all(&mut t, d.as_slice());
    push_str(&mut t, " attempts");
    string_of(t.as_slice())
}

/// A callback that the kept result shows done is never polled.
pub proof fn law_short_circuit_needs_both_options(fields: Map<Seq<char>, Seq<char>>, field: Option<Seq<char>>, value: Option<Seq<char>>)
    ensures
        short_circuited(fields, field, value) ==> field is Some && value is Some,
{
}

/// A kept field is readable under both of its names.
pub proof fn law_capture_keeps_both_names(ctx: Map<Seq<char>, Seq<char>>, resource: Seq<char>, k: Seq<char>, v: Seq<char>)
    ensures
        captured(ctx, resource, seq![(k, v)])["callback."@ + k] == v,
        captured(ctx, resource, seq![(k, v)])[resource + ".callback."@ + k] == v,
{
    reveal_strlit("callback.");
    reveal_strlit(".callback.");
    assert(seq![(k, v)].drop_last() =~= Seq::<(Seq<char>, Seq<char>)>::empty());
    assert(("callback."@ + k).len() < (resource + ".callback."@ + k).len());
}

} // verus!
