//! Exported variables: what a resource exports, and how exports enter the
//! context of the stack run.
use vstd::prelude::*;
use crate::text::{
    chars_of, parse_unsigned, parse_unsigned_exec, push_str, split_once, split_char, split_char_exec, views,
    split_once_chars, string_of,
};
use crate::varmap::{AssocMap, VarMap};

verus! {

/// The resource-scoped name of the export `key` of `resource`.
pub open spec fn scoped_key(resource: Seq<char>, key: Seq<char>) -> Seq<char> {
    resource + "."@ + key
}

/// The export name that `k` is the scoped name of, for `resource`.
pub open spec fn unscoped(resource: Seq<char>, k: Seq<char>) -> Option<Seq<char>> {
    let p = resource + "."@;
    if p.len() <= k.len() && k.subrange(0, p.len() as int) == p {
        Some(k.subrange(p.len() as int, k.len() as int))
    } else {
        None
    }
}

/// The context after `resource` exported `data`: each export under its own
/// name, replacing an earlier value, and under its resource-scoped name,
/// only where that name was not set yet.
pub open spec fn exported(
    ctx: Map<Seq<char>, Seq<char>>,
    resource: Seq<char>,
    data: Map<Seq<char>, Seq<char>>,
) -> Map<Seq<char>, Seq<char>> {
    Map::new(
        |k: Seq<char>| data.contains_key(k) || ctx.contains_key(k)
            || (unscoped(resource, k) is Some && data.contains_key(unscoped(resource, k)->0)),
        |k: Seq<char>| if data.contains_key(k) {
            data[k]
        } else if ctx.contains_key(k) {
            ctx[k]
        } else {
            data[unscoped(resource, k)->0]
        },
    )
}

pub proof fn lemma_unscoped_scoped(resource: Seq<char>, key: Seq<char>)
    ensures
        unscoped(resource, scoped_key(resource, key)) == Some(key),
{
    let p = resource + "."@;
    let k = scoped_key(resource, key);
    assert(k =~= p + key);
    assert(k.subrange(0, p.len() as int) =~= p);
    assert(k.subrange(p.len() as int, k.len() as int) =~= key);
}

pub proof fn lemma_exported_empty(ctx: Map<Seq<char>, Seq<char>>, resource: Seq<char>)
    ensures
        exported(ctx, resource, Map::empty()) == ctx,
{
    assert(exported(ctx, resource, Map::empty()) =~= ctx);
}

pub proof fn lemma_exported_step(
    ctx: Map<Seq<char>, Seq<char>>,
    resource: Seq<char>,
    d: Map<Seq<char>, Seq<char>>,
    k: Seq<char>,
    v: Seq<char>,
)
    requires
        !d.contains_key(k),
    ensures
        ({
            let e = exported(ctx, resource, d);
            let rk = scoped_key(resource, k);
            let e1 = if e.contains_key(rk) { e } else { e.insert(rk, v) };
            e1.insert(k, v) == exported(ctx, resource, d.insert(k, v))
        }),
{
    let e = exported(ctx, resource, d);
    let rk = scoped_key(resource, k);
    let e1 = if e.contains_key(rk) { e } else { e.insert(rk, v) };
    let f = exported(ctx, resource, d.insert(k, v));
    lemma_unscoped_scoped(resource, k);
    assert forall|q: Seq<char>| #[trigger] e1.insert(k, v).contains_key(q) <==> f.contains_key(q) by {
        if q != k && q != rk {
            if unscoped(resource, q) is Some && unscoped(resource, q)->0 == k {
                let p = resource + "."@;
                assert(q =~= p + k) by {
                    assert(q =~= q.subrange(0, p.len() as int) + q.subrange(p.len() as int, q.len() as int));
                }
            }
        }
    }
    assert forall|q: Seq<char>| #[trigger] f.contains_key(q) implies e1.insert(k, v)[q] == f[q] by {
        if q != k && q != rk {
            if unscoped(resource, q) is Some && unscoped(resource, q)->0 == k {
                let p = resource + "."@;
                assert(q =~= p + k) by {
                    assert(q =~= q.subrange(0, p.len() as int) + q.subrange(p.len() as int, q.len() as int));
                }
            }
        }
    }
    assert(e1.insert(k, v) =~= f);
}

/// An export is stored under its own name and, where that was not set yet,
/// under its resource-scoped name.
pub proof fn law_export_sets_global_and_scoped_key(
    ctx: Map<Seq<char>, Seq<char>>,
    resource: Seq<char>,
    data: Map<Seq<char>, Seq<char>>,
    key: Seq<char>,
)
    requires
        data.contains_key(key),
        !ctx.contains_key(scoped_key(resource, key)),
        !data.contains_key(scoped_key(resource, key)),
    ensures
        exported(ctx, resource, data)[key] == data[key],
        exported(ctx, resource, data).contains_key(scoped_key(resource, key)),
        exported(ctx, resource, data)[scoped_key(resource, key)] == data[key],
{
    lemma_unscoped_scoped(resource, key);
}

/// The global name of an export holds the value of the latest export of
/// that name.
pub proof fn law_export_global_key_is_overridable(
    ctx: Map<Seq<char>, Seq<char>>,
    first: Seq<char>,
    first_data: Map<Seq<char>, Seq<char>>,
    second: Seq<char>,
    second_data: Map<Seq<char>, Seq<char>>,
    key: Seq<char>,
)
    requires
        second_data.contains_key(key),
    ensures
        exported(exported(ctx, first, first_data), second, second_data)[key] == second_data[key],
{
}

/// A resource-scoped name, once set, keeps its value when the resource
/// exports the name again.
pub proof fn law_export_scoped_key_is_immutable(
    ctx: Map<Seq<char>, Seq<char>>,
    resource: Seq<char>,
    data: Map<Seq<char>, Seq<char>>,
    key: Seq<char>,
)
    requires
        ctx.contains_key(scoped_key(resource, key)),
        !data.contains_key(scoped_key(resource, key)),
    ensures
        exported(ctx, resource, data)[scoped_key(resource, key)] == ctx[scoped_key(resource, key)],
{
}

/// Exporting never removes a variable, and a variable that is neither
/// exported nor the scoped name of an export keeps its value.
pub proof fn law_export_keeps_other_variables(
    ctx: Map<Seq<char>, Seq<char>>,
    resource: Seq<char>,
    data: Map<Seq<char>, Seq<char>>,
    k: Seq<char>,
)
    requires
        ctx.contains_key(k),
    ensures
        exported(ctx, resource, data).contains_key(k),
        !data.contains_key(k) ==> exported(ctx, resource, data)[k] == ctx[k],
{
}

/// Exporting nothing leaves the context as it is.
pub proof fn law_export_nothing_changes_nothing(ctx: Map<Seq<char>, Seq<char>>, resource: Seq<char>)
    ensures
        exported(ctx, resource, Map::empty()) == ctx,
{
    lemma_exported_empty(ctx, resource);
}

/// Update the global context with exported values.
///
/// Each export is stored under two keys: `{key}`, which a later export of
/// the same name replaces, and `{resource_name}.{key}`, which is written
/// once and never overwritten.  Protected exports are stored like any
/// other; protection only masks them where they are logged.
pub fn export_vars(
    global_context: &mut VarMap,
    resource_name: &str,
    export_data: &VarMap,
    protected_exports: &[String],
)
    ensures
        final(global_context)@ == exported(old(global_context)@, resource_name@, export_data@),
{
    let n = export_data.len();
    let ghost ctx0 = global_context@;
    let ghost ps = export_data.pairs();
    let mut i: usize = 0;
    proof {
        lemma_exported_empty(ctx0, resource_name@);
        assert(crate::varmap::map_of(ps.subrange(0, 0)) =~= Map::<Seq<char>, Seq<char>>::empty());
    }
    while i < n
        invariant
            i <= n,
            n == ps.len(),
            ps == export_data.pairs(),
            crate::varmap::keys_distinct(ps),
            export_data@ == crate::varmap::map_of(ps),
            global_context@ == exported(ctx0, resource_name@, crate::varmap::map_of(ps.subrange(0, i as int))),
        decreases n - i,
    {
        let (key, value) = export_data.entry(i);
        let ghost d = crate::varmap::map_of(ps.subrange(0, i as int));
        proof {
            assert(ps.subrange(0, i + 1).drop_last() =~= ps.subrange(0, i as int));
            let pre = ps.subrange(0, i as int);
            assert(crate::varmap::keys_distinct(pre));
            crate::varmap::lemma_map_of_dom(pre, key@);
            if d.contains_key(key@) {
                let j = choose|j: int| 0 <= j < pre.len() && #[trigger] pre[j].0 == key@;
                assert(ps[j].0 == ps[i as int].0);
            }
            lemma_exported_step(ctx0, resource_name@, d, key@, value@);
        }
        let mut sk = chars_of(resource_name);
        push_str(&mut sk, ".");
        push_str(&mut sk, key.as_str());
        let scoped = string_of(sk.as_slice());
        global_context.insert_if_absent(scoped, value.clone());
        global_context.insert(key.clone(), value.clone());
        i = i + 1;
    }
    assert(ps.subrange(0, n as int) =~= ps);
}

/// Whether the rows of an exports query can stand in for a state check:
/// there is a row, and it holds no error.
pub open spec fn exports_prove_state(rows: Seq<Map<Seq<char>, Seq<char>>>) -> bool {
    rows.len() > 0 && !rows[0].contains_key("_stackql_deploy_error"@) && !rows[0].contains_key("error"@)
}

/// Check if an exports result can serve as a state-check proxy: it is
/// non-empty and holds no error.
pub fn check_exports_as_statecheck_proxy(exports_result: &[VarMap]) -> (b: bool)
    ensures
        b == exports_prove_state(exports_result@.map_values(|m: VarMap| m@)),
{
    if exports_result.len() == 0 {
        return false;
    }
    let ghost rv = exports_result@.map_values(|m: VarMap| m@);
    assert(rv[0] == exports_result@[0]@);
    if exports_result[0].contains_key("_stackql_deploy_error") {
        return false;
    }
    if exports_result[0].contains_key("error") {
        return false;
    }
    true
}

// ---------------------------------------------------------------------------
// What a resource exports
// ---------------------------------------------------------------------------

/// An entry of a resource's `exports` list in the manifest: a column name,
/// a mapping from result columns to export names, or another value.  In a
/// mapping, a key or value that is not a string is `None`.
#[derive(Debug, Clone)]
pub enum ExportItem {
    Name(String),
    Mapping(Vec<(Option<String>, Option<String>)>),
    Other,
}

pub enum ExportItemView {
    Name(Seq<char>),
    Mapping(Seq<(Option<Seq<char>>, Option<Seq<char>>)>),
    Other,
}

pub open spec fn opt_str_view(o: Option<String>) -> Option<Seq<char>> {
    match o {
        Some(s) => Some(s@),
        None => None,
    }
}

impl View for ExportItem {
    type V = ExportItemView;

    open spec fn view(&self) -> ExportItemView {
        match self {
            ExportItem::Name(s) => ExportItemView::Name(s@),
            ExportItem::Mapping(m) => ExportItemView::Mapping(
                m@.map_values(|p: (Option<String>, Option<String>)| (opt_str_view(p.0), opt_str_view(p.1))),
            ),
            ExportItem::Other => ExportItemView::Other,
        }
    }
}

pub open spec fn items_view(items: Seq<ExportItem>) -> Seq<ExportItemView> {
    items.map_values(|i: ExportItem| i@)
}

pub open spec fn all_mappings(items: Seq<ExportItemView>) -> bool {
    forall|i: int| 0 <= i < items.len() ==> #[trigger] items[i] is Mapping
}

/// Whether the export list is non-empty and every item is a mapping.
pub fn check_all_dicts(items: &[ExportItem]) -> (b: bool)
    ensures
        b == (items@.len() > 0 && all_mappings(items_view(items@))),
{
    if items.len() == 0 {
        return false;
    }
    is_all_mappings(items)
}

fn is_all_mappings(items: &[ExportItem]) -> (b: bool)
    ensures
        b == all_mappings(items_view(items@)),
{
    let ghost iv = items_view(items@);
    let mut i: usize = 0;
    while i < items.len()
        invariant
            i <= items@.len(),
            iv == items_view(items@),
            forall|j: int| 0 <= j < i ==> #[trigger] iv[j] is Mapping,
        decreases items@.len() - i,
    {
        assert(iv[i as int] == items@[i as int]@);
        match &items[i] {
            ExportItem::Mapping(_) => {},
            _ => {
                return false;
            },
        }
        i = i + 1;
    }
    true
}

pub open spec fn unwrap_or_empty(o: Option<Seq<char>>) -> Seq<char> {
    match o {
        Some(s) => s,
        None => Seq::empty(),
    }
}

pub open spec fn lookup_or_empty(row: Map<Seq<char>, Seq<char>>, k: Seq<char>) -> Seq<char> {
    if row.contains_key(k) { row[k] } else { Seq::empty() }
}

/// The exports of one mapping item: each export name (the value) gets the
/// row's value of the column (the key).
pub open spec fn mapping_exports(
    d: Map<Seq<char>, Seq<char>>,
    m: Seq<(Option<Seq<char>>, Option<Seq<char>>)>,
    row: Map<Seq<char>, Seq<char>>,
) -> Map<Seq<char>, Seq<char>>
    decreases m.len(),
{
    if m.len() == 0 {
        d
    } else {
        let p = m.last();
        mapping_exports(d, m.drop_last(), row).insert(unwrap_or_empty(p.1), lookup_or_empty(row, unwrap_or_empty(p.0)))
    }
}

/// The export data of a resource, read from the first row of its exports
/// query.  Where every item is a mapping, a mapping renames columns; else
/// each string item exports the column of that name.
pub open spec fn export_data_of(
    items: Seq<ExportItemView>,
    row: Map<Seq<char>, Seq<char>>,
    all_dicts: bool,
) -> Map<Seq<char>, Seq<char>>
    decreases items.len(),
{
    if items.len() == 0 {
        Map::empty()
    } else {
        let d = export_data_of(items.drop_last(), row, all_dicts);
        match items.last() {
            ExportItemView::Mapping(m) => if all_dicts { mapping_exports(d, m, row) } else { d },
            ExportItemView::Name(n) => if !all_dicts && n.len() > 0 {
                d.insert(n, lookup_or_empty(row, n))
            } else {
                d
            },
            ExportItemView::Other => d,
        }
    }
}

fn lookup_exec(row: &VarMap, k: &str) -> (r: String)
    ensures
        r@ == lookup_or_empty(row@, k@),
{
    match row.get(k) {
        Some(v) => v.clone(),
        None => String::new(),
    }
}

fn opt_or_empty(o: &Option<String>) -> (r: String)
    ensures
        r@ == unwrap_or_empty(opt_str_view(*o)),
{
    match o {
        Some(s) => s.clone(),
        None => String::new(),
    }
}

/// Extract the export data from the rows of an exports query.
pub fn process_export_data(exports: &[VarMap], expected_exports: &[ExportItem], all_dicts: bool) -> (r: VarMap)
    ensures
        r@ == export_data_of(
            items_view(expected_exports@),
            if exports@.len() > 0 { exports@[0]@ } else { Map::empty() },
            all_dicts,
        ),
{
    let empty_row: VarMap = AssocMap::new();
    let row: &VarMap = if exports.len() > 0 { &exports[0] } else { &empty_row };
    let ghost iv = items_view(expected_exports@);
    let mut data: VarMap = AssocMap::new();
    let mut i: usize = 0;
    assert(iv.subrange(0, 0) =~= Seq::<ExportItemView>::empty());
    while i < expected_exports.len()
        invariant
            i <= expected_exports@.len(),
            iv == items_view(expected_exports@),
            data@ == export_data_of(iv.subrange(0, i as int), row@, all_dicts),
        decreases expected_exports@.len() - i,
    {
        assert(iv.subrange(0, i + 1).drop_last() =~= iv.subrange(0, i as int));
        assert(iv.subrange(0, i + 1).last() == expected_exports@[i as int]@);
        let ghost d0 = data@;
        match &expected_exports[i] {
            ExportItem::Mapping(m) => {
                if all_dicts {
                    let ghost mv = m@.map_values(|p: (Option<String>, Option<String>)| (opt_str_view(p.0), opt_str_view(p.1)));
                    let mut j: usize = 0;
                    assert(mv.subrange(0, 0) =~= Seq::<(Option<Seq<char>>, Option<Seq<char>>)>::empty());
                    while j < m.len()
                        invariant
                            j <= m@.len(),
                            mv == m@.map_values(|p: (Option<String>, Option<String>)| (opt_str_view(p.0), opt_str_view(p.1))),
                            data@ == mapping_exports(d0, mv.subrange(0, j as int), row@),
                        decreases m@.len() - j,
                    {
                        assert(mv.subrange(0, j + 1).drop_last() =~= mv.subrange(0, j as int));
                        assert(mv.subrange(0, j + 1).last() == mv[j as int]);
                        let key = opt_or_empty(&m[j].0);
                        let val = opt_or_empty(&m[j].1);
                        let exported_value = lookup_exec(row, key.as_str());
                        data.insert(val, exported_value);
                        j = j + 1;
                    }
                    assert(mv.subrange(0, m@.len() as int) =~= mv);
                }
            },
            ExportItem::Name(n) => {
                if !all_dicts && !n.as_str().is_empty() {
                    let v = lookup_exec(row, n.as_str());
                    data.insert(n.clone(), v);
                }
            },
            ExportItem::Other => {},
        }
        i = i + 1;
    }
    assert(iv.subrange(0, expected_exports@.len() as int) =~= iv);
    data
}

/// Every export name set to the placeholder `value`.
pub open spec fn placeholder_data_of(items: Seq<ExportItemView>, all_dicts: bool, value: Seq<char>) -> Map<Seq<char>, Seq<char>>
    decreases items.len(),
{
    if items.len() == 0 {
        Map::empty()
    } else {
        let d = placeholder_data_of(items.drop_last(), all_dicts, value);
        match items.last() {
            ExportItemView::Mapping(m) => if all_dicts { placeholder_mapping(d, m, value) } else { d },
            ExportItemView::Name(n) => if !all_dicts { d.insert(n, value) } else { d },
            ExportItemView::Other => d,
        }
    }
}

pub open spec fn placeholder_mapping(
    d: Map<Seq<char>, Seq<char>>,
    m: Seq<(Option<Seq<char>>, Option<Seq<char>>)>,
    value: Seq<char>,
) -> Map<Seq<char>, Seq<char>>
    decreases m.len(),
{
    if m.len() == 0 {
        d
    } else {
        let rest = placeholder_mapping(d, m.drop_last(), value);
        match m.last().1 {
            Some(v) => rest.insert(v, value),
            None => rest,
        }
    }
}

/// The export data of a dry run: every export name set to `<evaluated>`.
pub open spec fn dry_run_data_of(items: Seq<ExportItemView>, all_dicts: bool) -> Map<Seq<char>, Seq<char>> {
    placeholder_data_of(items, all_dicts, "<evaluated>"@)
}

/// The export data that a dry run reports for a resource.
pub fn dry_run_export_data(expected_exports: &[ExportItem], all_dicts: bool) -> (r: VarMap)
    ensures
        r@ == dry_run_data_of(items_view(expected_exports@), all_dicts),
{
    placeholder_export_data(expected_exports, all_dicts, "<evaluated>")
}

/// Every export name of `expected_exports` set to `value`.
pub fn placeholder_export_data(expected_exports: &[ExportItem], all_dicts: bool, value: &str) -> (r: VarMap)
    ensures
        r@ == placeholder_data_of(items_view(expected_exports@), all_dicts, value@),
{
    let ghost iv = items_view(expected_exports@);
    let mut data: VarMap = AssocMap::new();
    let mut i: usize = 0;
    assert(iv.subrange(0, 0) =~= Seq::<ExportItemView>::empty());
    while i < expected_exports.len()
        invariant
            i <= expected_exports@.len(),
            iv == items_view(expected_exports@),
            data@ == placeholder_data_of(iv.subrange(0, i as int), all_dicts, value@),
        decreases expected_exports@.len() - i,
    {
        assert(iv.subrange(0, i + 1).drop_last() =~= iv.subrange(0, i as int));
        assert(iv.subrange(0, i + 1).last() == expected_exports@[i as int]@);
        let ghost d0 = data@;
        match &expected_exports[i] {
            ExportItem::Mapping(m) => {
                if all_dicts {
                    let ghost mv = m@.map_values(|p: (Option<String>, Option<String>)| (opt_str_view(p.0), opt_str_view(p.1)));
                    let mut j: usize = 0;
                    assert(mv.subrange(0, 0) =~= Seq::<(Option<Seq<char>>, Option<Seq<char>>)>::empty());
                    while j < m.len()
                        invariant
                            j <= m@.len(),
                            mv == m@.map_values(|p: (Option<String>, Option<String>)| (opt_str_view(p.0), opt_str_view(p.1))),
                            data@ == placeholder_mapping(d0, mv.subrange(0, j as int), value@),
                        decreases m@.len() - j,
                    {
                        assert(mv.subrange(0, j + 1).drop_last() =~= mv.subrange(0, j as int));
                        assert(mv.subrange(0, j + 1).last() == mv[j as int]);
                        if let Some(v) = &m[j].1 {
                            data.insert(v.clone(), value.to_owned());
                        }
                        j = j + 1;
                    }
                    assert(mv.subrange(0, m@.len() as int) =~= mv);
                }
            },
            ExportItem::Name(n) => {
                if !all_dicts {
                    data.insert(n.clone(), value.to_owned());
                }
            },
            ExportItem::Other => {},
        }
        i = i + 1;
    }
    assert(iv.subrange(0, expected_exports@.len() as int) =~= iv);
    data
}

/// What becomes of the rows of an exports query, as plain values.
pub open spec fn exports_outcome(
    rows: Seq<Map<Seq<char>, Seq<char>>>,
    items: Seq<ExportItemView>,
    resource_name: Seq<char>,
    ignore_missing_exports: bool,
) -> Result<Option<Map<Seq<char>, Seq<char>>>, Seq<char>> {
    if rows.len() == 0 {
        if ignore_missing_exports {
            Ok(Some(placeholder_data_of(items, all_mappings(items), "<unknown>"@)))
        } else {
            Err("Exports query failed for "@ + resource_name)
        }
    } else if rows[0].contains_key("_stackql_deploy_error"@) {
        Err("Exports query failed for "@ + resource_name + "\n\nError details:\n"@ + rows[0]["_stackql_deploy_error"@])
    } else if rows[0].contains_key("error"@) {
        Err("Exports query failed for "@ + resource_name + "\n\nError details:\n"@ + rows[0]["error"@])
    } else if rows.len() > 1 {
        Err("Exports should include one row only, received "@ + crate::text::decimal(rows.len()) + " rows"@)
    } else {
        Ok(Some(export_data_of(items, rows[0], all_mappings(items))))
    }
}

/// Decide what the rows of a resource's exports query give: the export
/// data of its single row, every export set to `<unknown>` where there is
/// no row and missing exports are ignored, or the message on which the run
/// stops.
pub fn process_exports_result(
    rows: &[VarMap],
    expected_exports: &[ExportItem],
    resource_name: &str,
    ignore_missing_exports: bool,
) -> (r: Result<Option<VarMap>, String>)
    ensures
        match r {
            Ok(Some(d)) => exports_outcome(rows@.map_values(|m: VarMap| m@), items_view(expected_exports@), resource_name@, ignore_missing_exports)
                == Ok::<Option<Map<Seq<char>, Seq<char>>>, Seq<char>>(Some(d@)),
            Ok(None) => exports_outcome(rows@.map_values(|m: VarMap| m@), items_view(expected_exports@), resource_name@, ignore_missing_exports)
                == Ok::<Option<Map<Seq<char>, Seq<char>>>, Seq<char>>(None),
            Err(e) => exports_outcome(rows@.map_values(|m: VarMap| m@), items_view(expected_exports@), resource_name@, ignore_missing_exports)
                == Err::<Option<Map<Seq<char>, Seq<char>>>, Seq<char>>(e@),
        },
{
    let ghost rv = rows@.map_values(|m: VarMap| m@);
    if rows.len() == 0 {
        if ignore_missing_exports {
            let all_dicts = is_all_mappings(expected_exports);
            return Ok(Some(placeholder_export_data(expected_exports, all_dicts, "<unknown>")));
        }
        let mut t = chars_of("Exports query failed for ");
        push_str(&mut t, resource_name);
        return Err(string_of(t.as_slice()));
    }
    assert(rv[0] == rows@[0]@);
    if let Some(e) = rows[0].get("_stackql_deploy_error") {
        let mut t = chars_of("Exports query failed for ");
        push_str(&mut t, resource_name);
        push_str(&mut t, "\n\nError details:\n");
        push_str(&mut t, e.as_str());
        return Err(string_of(t.as_slice()));
    }
    if let Some(e) = rows[0].get("error") {
        let mut t = chars_of("Exports query failed for ");
        push_str(&mut t, resource_name);
        push_str(&mut t, "\n\nError details:\n");
        push_str(&mut t, e.as_str());
        return Err(string_of(t.as_slice()));
    }
    if rows.len() > 1 {
        let mut t = chars_of("Exports should include one row only, received ");
        let d = crate::text::decimal_exec(rows.len() as u64);
        crate::text::push_all(&mut t, d.as_slice());
        push_str(&mut t, " rows");
        return Err(string_of(t.as_slice()));
    }
    let all_dicts = is_all_mappings(expected_exports);
    Ok(Some(process_export_data(rows, expected_exports, all_dicts)))
}

/// What an exports result obtained from a state check gives: nothing where
/// no export is expected or there is no row, else the export data of its
/// single row.
pub open spec fn proxy_exports_outcome(
    rows: Seq<Map<Seq<char>, Seq<char>>>,
    items: Seq<ExportItemView>,
) -> Result<Option<Map<Seq<char>, Seq<char>>>, Seq<char>> {
    if items.len() == 0 || rows.len() == 0 {
        Ok(None)
    } else if rows.len() > 1 {
        Err("Exports should include one row only, received "@ + crate::text::decimal(rows.len()) + " rows"@)
    } else {
        Ok(Some(export_data_of(items, rows[0], all_mappings(items))))
    }
}

/// Decide what an already-obtained exports result gives (the rows that an
/// exports query returned when it stood in for a state check).
pub fn exports_from_proxy_result(rows: &[VarMap], expected_exports: &[ExportItem]) -> (r: Result<Option<VarMap>, String>)
    ensures
        match r {
            Ok(Some(d)) => proxy_exports_outcome(rows@.map_values(|m: VarMap| m@), items_view(expected_exports@))
                == Ok::<Option<Map<Seq<char>, Seq<char>>>, Seq<char>>(Some(d@)),
            Ok(None) => proxy_exports_outcome(rows@.map_values(|m: VarMap| m@), items_view(expected_exports@))
                == Ok::<Option<Map<Seq<char>, Seq<char>>>, Seq<char>>(None),
            Err(e) => proxy_exports_outcome(rows@.map_values(|m: VarMap| m@), items_view(expected_exports@))
                == Err::<Option<Map<Seq<char>, Seq<char>>>, Seq<char>>(e@),
        },
{
    let ghost rv = rows@.map_values(|m: VarMap| m@);
    if expected_exports.len() == 0 || rows.len() == 0 {
        return Ok(None);
    }
    if rows.len() > 1 {
        let mut t = chars_of("Exports should include one row only, received ");
        let d = crate::text::decimal_exec(rows.len() as u64);
        crate::text::push_all(&mut t, d.as_slice());
        push_str(&mut t, " rows");
        return Err(string_of(t.as_slice()));
    }
    assert(rv[0] == rows@[0]@);
    let all_dicts = is_all_mappings(expected_exports);
    Ok(Some(process_export_data(rows, expected_exports, all_dicts)))
}

// ---------------------------------------------------------------------------
// Providers
// ---------------------------------------------------------------------------

/// The numeric value of one dotted component of a version; 0 where it is
/// not a number.
pub open spec fn component_value(p: Seq<char>) -> nat {
    match parse_unsigned(p, 0xffff_ffff_ffff_ffff) {
        Some(n) => n,
        None => 0,
    }
}

/// The dotted components of a version string, `v` removed, as numbers.
pub open spec fn version_components(v: Seq<char>) -> Seq<nat> {
    split_char(v.filter(|c: char| c != 'v'), '.').map_values(|p: Seq<char>| component_value(p))
}

/// Component `i` of a version, 0 past its end (`1.2` is `1.2.0`).
pub open spec fn component_at(s: Seq<nat>, i: int) -> nat {
    if 0 <= i < s.len() { s[i] } else { 0 }
}

/// Whether version `a` is higher than `b`, comparing components from `i` on.
pub open spec fn version_greater_from(a: Seq<nat>, b: Seq<nat>, i: int) -> bool
    decreases a.len() + b.len() - i,
{
    if i < 0 || (i >= a.len() && i >= b.len()) {
        false
    } else if component_at(a, i) > component_at(b, i) {
        true
    } else if component_at(a, i) < component_at(b, i) {
        false
    } else {
        version_greater_from(a, b, i + 1)
    }
}

/// Whether version `a` is higher than version `b`: the first dotted
/// component where they differ, compared as numbers, is larger in `a`.
pub open spec fn version_greater(a: Seq<char>, b: Seq<char>) -> bool {
    version_greater_from(version_components(a), version_components(b), 0)
}

fn version_components_exec(v: &str) -> (r: Vec<u64>)
    ensures
        r@.len() == version_components(v@).len(),
        forall|i: int| 0 <= i < r@.len() ==> r@[i] as nat == #[trigger] version_components(v@)[i],
{
    let cs = chars_of(v);
    let mut kept: Vec<char> = Vec::new();
    let mut i: usize = 0;
    let ghost f = |c: char| c != 'v';
    assert(cs@.subrange(0, 0).filter(f) =~= Seq::<char>::empty());
    while i < cs.len()
        invariant
            i <= cs@.len(),
            cs@ == v@,
            f == (|c: char| c != 'v'),
            kept@ == cs@.subrange(0, i as int).filter(f),
        decreases cs@.len() - i,
    {
        proof {
            let s = cs@.subrange(0, i + 1);
            assert(s.drop_last() =~= cs@.subrange(0, i as int));
            reveal(Seq::filter);
        }
        if cs[i] != 'v' {
            kept.push(cs[i]);
        }
        i = i + 1;
    }
    assert(cs@.subrange(0, cs@.len() as int) =~= cs@);
    let parts = split_char_exec(kept.as_slice(), '.');
    let ghost vc = version_components(v@);
    assert(vc.len() == parts@.len());
    let mut out: Vec<u64> = Vec::new();
    let mut j: usize = 0;
    while j < parts.len()
        invariant
            j <= parts@.len(),
            vc == version_components(v@),
            vc.len() == parts@.len(),
            views(parts@) == split_char(kept@, '.'),
            kept@ == v@.filter(f),
            f == (|c: char| c != 'v'),
            out@.len() == j,
            forall|k: int| 0 <= k < j ==> out@[k] as nat == #[trigger] vc[k],
        decreases parts@.len() - j,
    {
        assert(views(parts@)[j as int] == parts@[j as int]@);
        assert(vc[j as int] == component_value(parts@[j as int]@));
        let n: u64 = match parse_unsigned_exec(parts[j].as_slice(), 0xffff_ffff_ffff_ffff) {
            Some(n) => n,
            None => 0,
        };
        out.push(n);
        j = j + 1;
    }
    out
}

/// Compare version strings: whether `installed` is higher than `requested`,
/// component by component.
pub fn is_version_higher(installed: &str, requested: &str) -> (b: bool)
    ensures
        b == version_greater(installed@, requested@),
{
    let a = version_components_exec(installed);
    let c = version_components_exec(requested);
    let ghost av = version_components(installed@);
    let ghost cv = version_components(requested@);
    let n: usize = if a.len() > c.len() { a.len() } else { c.len() };
    let mut i: usize = 0;
    while i < n
        invariant
            i <= n,
            n == (if a@.len() > c@.len() { a@.len() } else { c@.len() }),
            a@.len() == av.len(),
            c@.len() == cv.len(),
            forall|k: int| 0 <= k < a@.len() ==> a@[k] as nat == #[trigger] av[k],
            forall|k: int| 0 <= k < c@.len() ==> c@[k] as nat == #[trigger] cv[k],
            av == version_components(installed@),
            cv == version_components(requested@),
            version_greater_from(av, cv, 0) == version_greater_from(av, cv, i as int),
        decreases n - i,
    {
        let x: u64 = if i < a.len() { a[i] } else { 0 };
        let y: u64 = if i < c.len() { c[i] } else { 0 };
        assert(x as nat == component_at(av, i as int));
        assert(y as nat == component_at(cv, i as int));
        if x > y {
            assert(version_greater_from(av, cv, i as int));
            return true;
        }
        if x < y {
            assert(!version_greater_from(av, cv, i as int));
            return false;
        }
        assert(version_greater_from(av, cv, i as int) == version_greater_from(av, cv, i + 1));
        i = i + 1;
    }
    assert(!version_greater_from(av, cv, i as int));
    false
}

/// What to do about a provider that a stack names.
pub enum ProviderAction {
    /// The provider (in that version) is installed.
    AlreadyInstalled,
    /// A higher version of the provider is installed.
    HigherInstalled,
    /// Pull it with this command.
    Pull(String),
}

pub enum ProviderActionView {
    AlreadyInstalled,
    HigherInstalled,
    Pull(Seq<char>),
}

impl View for ProviderAction {
    type V = ProviderActionView;

    open spec fn view(&self) -> ProviderActionView {
        match self {
            ProviderAction::AlreadyInstalled => ProviderActionView::AlreadyInstalled,
            ProviderAction::HigherInstalled => ProviderActionView::HigherInstalled,
            ProviderAction::Pull(c) => ProviderActionView::Pull(c@),
        }
    }
}

pub open spec fn row_has(r: Map<Seq<char>, Seq<char>>, k: Seq<char>, v: Seq<char>) -> bool {
    r.contains_key(k) && r[k] == v
}

/// What to do about provider `p` (`name` or `name::version`), given the
/// rows of the installed providers.
pub open spec fn provider_action(p: Seq<char>, installed: Seq<Map<Seq<char>, Seq<char>>>) -> ProviderActionView {
    let pull = ProviderActionView::Pull("REGISTRY PULL "@ + p);
    match split_once(p, "::"@) {
        Some((name, version)) => {
            if exists|i: int| 0 <= i < installed.len() && row_has(#[trigger] installed[i], "name"@, name)
                && row_has(installed[i], "version"@, version) {
                ProviderActionView::AlreadyInstalled
            } else if exists|i: int| 0 <= i < installed.len() && row_has(#[trigger] installed[i], "name"@, name)
                && installed[i].contains_key("version"@)
                && version_greater(installed[i]["version"@], version) {
                ProviderActionView::HigherInstalled
            } else {
                pull
            }
        },
        None => if exists|i: int| 0 <= i < installed.len() && row_has(#[trigger] installed[i], "name"@, p) {
            ProviderActionView::AlreadyInstalled
        } else {
            pull
        },
    }
}

/// A provider is left alone as installed in a higher version only where
/// an installed row of that name has a version strictly higher than the
/// one asked for; where every installed version of it is lower (and none
/// is the one asked for), it is pulled.
pub proof fn law_higher_installed_needs_a_higher_version(p: Seq<char>, installed: Seq<Map<Seq<char>, Seq<char>>>)
    ensures
        provider_action(p, installed) is HigherInstalled ==> (split_once(p, "::"@) matches Some((name, version))
            && exists|i: int| 0 <= i < installed.len() && row_has(#[trigger] installed[i], "name"@, name)
                && installed[i].contains_key("version"@) && version_greater(installed[i]["version"@], version)),
        (split_once(p, "::"@) matches Some((name, version))
            && forall|i: int| 0 <= i < installed.len() && row_has(#[trigger] installed[i], "name"@, name)
                ==> installed[i].contains_key("version"@) && version_greater(version, installed[i]["version"@]))
            ==> provider_action(p, installed) == ProviderActionView::Pull("REGISTRY PULL "@ + p),
{
    if let Some((name, version)) = split_once(p, "::"@) {
        if forall|i: int| 0 <= i < installed.len() && row_has(#[trigger] installed[i], "name"@, name)
            ==> installed[i].contains_key("version"@) && version_greater(version, installed[i]["version"@]) {
            assert forall|i: int| 0 <= i < installed.len() && row_has(#[trigger] installed[i], "name"@, name)
                implies !row_has(installed[i], "version"@, version)
                && !version_greater(installed[i]["version"@], version) by {
                law_version_order_is_strict(version, installed[i]["version"@]);
            }
        }
    }
}

/// Version comparison is a strict order: no version is higher than
/// itself, and of two versions at most one is higher than the other.
pub proof fn law_version_order_is_strict(a: Seq<char>, b: Seq<char>)
    ensures
        !version_greater(a, a),
        version_greater(a, b) ==> !version_greater(b, a),
{
    lemma_greater_from_asymmetric(version_components(a), version_components(b), 0);
    lemma_greater_from_irreflexive(version_components(a), 0);
}

proof fn lemma_greater_from_irreflexive(a: Seq<nat>, i: int)
    ensures
        !version_greater_from(a, a, i),
    decreases a.len() - i,
{
    if !(i < 0 || i >= a.len()) {
        lemma_greater_from_irreflexive(a, i + 1);
    }
}

proof fn lemma_greater_from_asymmetric(a: Seq<nat>, b: Seq<nat>, i: int)
    ensures
        version_greater_from(a, b, i) ==> !version_greater_from(b, a, i),
    decreases a.len() + b.len() - i,
{
    if !(i < 0 || (i >= a.len() && i >= b.len())) {
        lemma_greater_from_asymmetric(a, b, i + 1);
    }
}

fn row_has_exec(r: &VarMap, k: &str, v: &[char]) -> (b: bool)
    ensures
        b == row_has(r@, k@, v@),
{
    match r.get(k) {
        Some(x) => {
            let xc = chars_of(x.as_str());
            crate::text::chars_eq(xc.as_slice(), v)
        },
        None => false,
    }
}

fn provider_action_exec(p: &String, installed: &[VarMap]) -> (r: ProviderAction)
    ensures
        r@ == provider_action(p@, installed@.map_values(|m: VarMap| m@)),
{
    let ghost iv = installed@.map_values(|m: VarMap| m@);
    let pc = chars_of(p.as_str());
    let sep = chars_of("::");
    let mut cmd = chars_of("REGISTRY PULL ");
    push_str(&mut cmd, p.as_str());
    match split_once_chars(pc.as_slice(), sep.as_slice()) {
        Some((name, version)) => {
            let mut i: usize = 0;
            while i < installed.len()
                invariant
                    i <= installed@.len(),
                    iv == installed@.map_values(|m: VarMap| m@),
                    split_once(p@, "::"@) == Some((name@, version@)),
                    sep@ == "::"@,
                    forall|j: int| 0 <= j < i ==> !(row_has(#[trigger] iv[j], "name"@, name@)
                        && row_has(iv[j], "version"@, version@)),
                decreases installed@.len() - i,
            {
                assert(iv[i as int] == installed@[i as int]@);
                if row_has_exec(&installed[i], "name", name.as_slice())
                    && row_has_exec(&installed[i], "version", version.as_slice()) {
                    return ProviderAction::AlreadyInstalled;
                }
                i = i + 1;
            }
            let vs = string_of(version.as_slice());
            let mut k: usize = 0;
            while k < installed.len()
                invariant
                    k <= installed@.len(),
                    iv == installed@.map_values(|m: VarMap| m@),
                    vs@ == version@,
                    split_once(p@, "::"@) == Some((name@, version@)),
                    forall|j: int| 0 <= j < installed@.len() ==> !(row_has(#[trigger] iv[j], "name"@, name@)
                        && row_has(iv[j], "version"@, version@)),
                    forall|j: int| 0 <= j < k ==> !(row_has(#[trigger] iv[j], "name"@, name@)
                        && iv[j].contains_key("version"@)
                        && version_greater(iv[j]["version"@], version@)),
                decreases installed@.len() - k,
            {
                assert(iv[k as int] == installed@[k as int]@);
                if row_has_exec(&installed[k], "name", name.as_slice()) {
                    if let Some(iv_s) = installed[k].get("version") {
                        if is_version_higher(iv_s.as_str(), vs.as_str()) {
                            return ProviderAction::HigherInstalled;
                        }
                    }
                }
                k = k + 1;
            }
            ProviderAction::Pull(string_of(cmd.as_slice()))
        },
        None => {
            let mut i: usize = 0;
            while i < installed.len()
                invariant
                    i <= installed@.len(),
                    iv == installed@.map_values(|m: VarMap| m@),
                    pc@ == p@,
                    split_once(p@, "::"@) is None,
                    sep@ == "::"@,
                    forall|j: int| 0 <= j < i ==> !row_has(#[trigger] iv[j], "name"@, p@),
                decreases installed@.len() - i,
            {
                assert(iv[i as int] == installed@[i as int]@);
                if row_has_exec(&installed[i], "name", pc.as_slice()) {
                    return ProviderAction::AlreadyInstalled;
                }
                i = i + 1;
            }
            ProviderAction::Pull(string_of(cmd.as_slice()))
        },
    }
}

/// Decide, for each provider that a stack names, whether it is installed
/// already (or in a higher version) or must be pulled, given the rows of
/// `SHOW PROVIDERS`.
pub fn pull_providers(providers: &[String], installed: &[VarMap]) -> (r: Vec<ProviderAction>)
    ensures
        r@.len() == providers@.len(),
        forall|i: int| 0 <= i < providers@.len() ==>
            #[trigger] r@[i]@ == provider_action(providers@[i]@, installed@.map_values(|m: VarMap| m@)),
{
    let mut r: Vec<ProviderAction> = Vec::new();
    let mut i: usize = 0;
    while i < providers.len()
        invariant
            i <= providers@.len(),
            r@.len() == i,
            forall|j: int| 0 <= j < i ==>
                #[trigger] r@[j]@ == provider_action(providers@[j]@, installed@.map_values(|m: VarMap| m@)),
        decreases providers@.len() - i,
    {
        r.push(provider_action_exec(&providers[i], installed));
        i = i + 1;
    }
    r
}

} // verus!
