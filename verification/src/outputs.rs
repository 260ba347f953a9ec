//! What a stack hands back: the stack-level exports written after a build,
//! and the variables that an external script prints.
use vstd::prelude::*;
use crate::exports::{ExportItem, ExportItemView, items_view};
use crate::patterns::{json_parses, json_is_valid};
use crate::text::{chars_of, string_of, push_str, str_eq};
use crate::varmap::{VarMap, map_of};
use crate::json::{json_quoted, json_reencoded, object_text, pairs_view, object_text_exec, quote_json, reencode_json};

verus! {

// ---------------------------------------------------------------------------
// Stack exports
// ---------------------------------------------------------------------------

/// One entry of the stack's exports file: a name, its value, and whether
/// the value is written as the JSON it holds rather than as a string.
pub struct StackExport {
    pub name: String,
    pub value: String,
    pub is_json: bool,
}

pub open spec fn stack_export_view(e: StackExport) -> (Seq<char>, Seq<char>, bool) {
    (e.name@, e.value@, e.is_json)
}

pub open spec fn stack_exports_view(es: Seq<StackExport>) -> Seq<(Seq<char>, Seq<char>, bool)> {
    es.map_values(|e: StackExport| stack_export_view(e))
}

/// A value that starts like a JSON array or object and parses as JSON.
pub open spec fn is_json_value(v: Seq<char>) -> bool {
    v.len() > 0 && (v[0] == '[' || v[0] == '{') && json_parses(v)
}

/// The entries of the stack's own export variables (`stack_name` and
/// `stack_env` are left out: they are always written) and the variables
/// that the context lacks, each in order.
pub open spec fn stack_vars(vars: Seq<Seq<char>>, ctx: Map<Seq<char>, Seq<char>>) -> (Seq<(Seq<char>, Seq<char>, bool)>, Seq<Seq<char>>)
    decreases vars.len(),
{
    if vars.len() == 0 {
        (Seq::empty(), Seq::empty())
    } else {
        let (e, m) = stack_vars(vars.drop_last(), ctx);
        let v = vars.last();
        if v == "stack_name"@ || v == "stack_env"@ {
            (e, m)
        } else if ctx.contains_key(v) {
            (e.push((v, ctx[v], is_json_value(ctx[v]))), m)
        } else {
            (e, m.push(v))
        }
    }
}

/// The JSON text of an exported value: the JSON it holds where it is
/// marked as JSON and reads as such, else the value as a JSON string.
pub open spec fn export_value_text(value: Seq<char>, is_json: bool) -> Seq<char> {
    if is_json {
        match json_reencoded(value) {
            Ok(p) => p,
            Err(_) => json_quoted(value),
        }
    } else {
        json_quoted(value)
    }
}

/// The JSON object of the stack exports file: each entry's name with its
/// value's JSON text, in order.
pub open spec fn exports_document(es: Seq<(Seq<char>, Seq<char>, bool)>) -> Seq<char> {
    object_text(exports_members(es))
}

/// The members of the stack exports file for the entries `es`: each name
/// with its value's JSON text.
pub open spec fn exports_members(es: Seq<(Seq<char>, Seq<char>, bool)>) -> Seq<(Seq<char>, Seq<char>)> {
    es.map_values(|e: (Seq<char>, Seq<char>, bool)| (e.0, export_value_text(e.1, e.2)))
}

/// The exported variables of a stack besides `stack_name` and `stack_env`,
/// in order.
pub open spec fn own_vars(vars: Seq<Seq<char>>) -> Seq<Seq<char>>
    decreases vars.len(),
{
    if vars.len() == 0 {
        Seq::empty()
    } else {
        let v = vars.last();
        if v == "stack_name"@ || v == "stack_env"@ { own_vars(vars.drop_last()) } else { own_vars(vars.drop_last()).push(v) }
    }
}

proof fn lemma_stack_vars_present(vars: Seq<Seq<char>>, ctx: Map<Seq<char>, Seq<char>>)
    requires
        forall|i: int| 0 <= i < vars.len() && vars[i] != "stack_name"@ && vars[i] != "stack_env"@
            ==> ctx.contains_key(#[trigger] vars[i]),
    ensures
        stack_vars(vars, ctx).1.len() == 0,
        stack_vars(vars, ctx).0 == own_vars(vars).map_values(|v: Seq<char>| (v, ctx[v], is_json_value(ctx[v]))),
    decreases vars.len(),
{
    if vars.len() > 0 {
        let init = vars.drop_last();
        assert forall|i: int| 0 <= i < init.len() && init[i] != "stack_name"@ && init[i] != "stack_env"@
            implies ctx.contains_key(#[trigger] init[i]) by {
            assert(init[i] == vars[i]);
        }
        lemma_stack_vars_present(init, ctx);
        let v = vars.last();
        assert(vars[vars.len() - 1] == v);
        if !(v == "stack_name"@ || v == "stack_env"@) {
            assert(own_vars(vars).map_values(|v: Seq<char>| (v, ctx[v], is_json_value(ctx[v])))
                =~= own_vars(init).map_values(|v: Seq<char>| (v, ctx[v], is_json_value(ctx[v]))).push((v, ctx[v], is_json_value(ctx[v]))));
        }
    }
}

/// Where the context holds every exported variable, the stack exports file
/// is written, with `stack_name`, `stack_env`, each other exported variable
/// in order (its value as the JSON it holds where it starts like an array
/// or object and parses, else as a string), and `elapsed_time` last.
pub proof fn law_stack_exports_file(
    stack_name: Seq<char>,
    stack_env: Seq<char>,
    vars: Seq<Seq<char>>,
    ctx: Map<Seq<char>, Seq<char>>,
    elapsed_time: Seq<char>,
)
    requires
        forall|i: int| 0 <= i < vars.len() && vars[i] != "stack_name"@ && vars[i] != "stack_env"@
            ==> ctx.contains_key(#[trigger] vars[i]),
    ensures
        stack_exports_of(stack_name, stack_env, vars, ctx, elapsed_time) is Ok,
        ({
            let ms = exports_members(stack_exports_of(stack_name, stack_env, vars, ctx, elapsed_time)->Ok_0);
            let own = own_vars(vars);
            &&& ms.len() == own.len() + 3
            &&& ms[0] == ("stack_name"@, json_quoted(stack_name))
            &&& ms[1] == ("stack_env"@, json_quoted(stack_env))
            &&& ms[ms.len() - 1] == ("elapsed_time"@, json_quoted(elapsed_time))
            &&& forall|k: int| 0 <= k < own.len() ==> #[trigger] ms[k + 2]
                == (own[k], export_value_text(ctx[own[k]], is_json_value(ctx[own[k]])))
        }),
{
    lemma_stack_vars_present(vars, ctx);
    let es = stack_exports_of(stack_name, stack_env, vars, ctx, elapsed_time)->Ok_0;
    let own = own_vars(vars);
    let mid = own.map_values(|v: Seq<char>| (v, ctx[v], is_json_value(ctx[v])));
    assert(es == seq![("stack_name"@, stack_name, false), ("stack_env"@, stack_env, false)] + mid
        + seq![("elapsed_time"@, elapsed_time, false)]);
    let ms = exports_members(es);
    assert forall|k: int| 0 <= k < own.len() implies #[trigger] ms[k + 2]
        == (own[k], export_value_text(ctx[own[k]], is_json_value(ctx[own[k]]))) by {
        assert(es[k + 2] == mid[k]);
    }
    assert(es[es.len() - 1] == ("elapsed_time"@, elapsed_time, false));
}

/// The JSON text of the stack exports file (before it is laid out for
/// reading).
pub fn stack_exports_document(entries: &Vec<StackExport>) -> (r: String)
    ensures
        r@ == exports_document(stack_exports_view(entries@)),
{
    let ghost ev = stack_exports_view(entries@);
    let ghost mv = ev.map_values(|e: (Seq<char>, Seq<char>, bool)| (e.0, export_value_text(e.1, e.2)));
    let mut members: Vec<(String, String)> = Vec::new();
    let mut i: usize = 0;
    while i < entries.len()
        invariant
            i <= entries@.len(),
            ev == stack_exports_view(entries@),
            mv == ev.map_values(|e: (Seq<char>, Seq<char>, bool)| (e.0, export_value_text(e.1, e.2))),
            pairs_view(members@) == mv.subrange(0, i as int),
        decreases entries@.len() - i,
    {
        let e = &entries[i];
        assert(ev[i as int] == (e.name@, e.value@, e.is_json));
        let text = if e.is_json {
            match reencode_json(e.value.as_str()) {
                Ok(p) => p,
                Err(_) => quote_json(e.value.as_str()),
            }
        } else {
            quote_json(e.value.as_str())
        };
        let ghost before = members@;
        members.push((e.name.clone(), text));
        assert(pairs_view(members@) =~= pairs_view(before).push(mv[i as int]));
        assert(mv.subrange(0, i + 1) =~= mv.subrange(0, i as int).push(mv[i as int]));
        i = i + 1;
    }
    assert(mv.subrange(0, entries@.len() as int) =~= mv);
    object_text_exec(&members)
}

/// The stack exports: `stack_name`, `stack_env`, each exported variable,
/// then `elapsed_time`; or the variables that the context lacks.
pub open spec fn stack_exports_of(
    stack_name: Seq<char>,
    stack_env: Seq<char>,
    vars: Seq<Seq<char>>,
    ctx: Map<Seq<char>, Seq<char>>,
    elapsed_time: Seq<char>,
) -> Result<Seq<(Seq<char>, Seq<char>, bool)>, Seq<Seq<char>>> {
    let (e, m) = stack_vars(vars, ctx);
    if m.len() > 0 {
        Err(m)
    } else {
        Ok(seq![("stack_name"@, stack_name, false), ("stack_env"@, stack_env, false)] + e
            + seq![("elapsed_time"@, elapsed_time, false)])
    }
}

fn plain_export(name: &str, value: &str) -> (e: StackExport)
    ensures
        stack_export_view(e) == (name@, value@, false),
{
    StackExport { name: name.to_owned(), value: value.to_owned(), is_json: false }
}

/// The entries of the stack exports file, or the variables named in the
/// manifest's `exports` that the global context lacks.
pub fn stack_exports(
    stack_name: &str,
    stack_env: &str,
    manifest_exports: &[String],
    global_context: &VarMap,
    elapsed_time: &str,
) -> (r: Result<Vec<StackExport>, Vec<String>>)
    ensures
        match r {
            Ok(es) => stack_exports_of(stack_name@, stack_env@, manifest_exports@.map_values(|s: String| s@),
                global_context@, elapsed_time@) == Ok::<Seq<(Seq<char>, Seq<char>, bool)>, Seq<Seq<char>>>(stack_exports_view(es@)),
            Err(m) => stack_exports_of(stack_name@, stack_env@, manifest_exports@.map_values(|s: String| s@),
                global_context@, elapsed_time@) == Err::<Seq<(Seq<char>, Seq<char>, bool)>, Seq<Seq<char>>>(m@.map_values(|s: String| s@)),
        },
{
    let ghost vv = manifest_exports@.map_values(|s: String| s@);
    let mut entries: Vec<StackExport> = Vec::new();
    let mut missing: Vec<String> = Vec::new();
    let mut i: usize = 0;
    assert(vv.subrange(0, 0) =~= Seq::<Seq<char>>::empty());
    while i < manifest_exports.len()
        invariant
            i <= manifest_exports@.len(),
            vv == manifest_exports@.map_values(|s: String| s@),
            stack_vars(vv.subrange(0, i as int), global_context@)
                == (stack_exports_view(entries@), missing@.map_values(|s: String| s@)),
        decreases manifest_exports@.len() - i,
    {
        assert(vv.subrange(0, i + 1).drop_last() =~= vv.subrange(0, i as int));
        let v = &manifest_exports[i];
        assert(vv.subrange(0, i + 1).last() == v@);
        if str_eq(v.as_str(), "stack_name") || str_eq(v.as_str(), "stack_env") {
        } else {
            match global_context.get(v.as_str()) {
                Some(value) => {
                    let cs = chars_of(value.as_str());
                    let is_json = cs.len() > 0 && (cs[0] == '[' || cs[0] == '{') && json_is_valid(value.as_str());
                    let e = StackExport { name: v.clone(), value: value.clone(), is_json };
                    let ghost before = entries@;
                    entries.push(e);
                    assert(stack_exports_view(entries@) =~= stack_exports_view(before).push((v@, value@, is_json)));
                },
                None => {
                    let ghost before = missing@;
                    missing.push(v.clone());
                    assert(missing@.map_values(|s: String| s@) =~= before.map_values(|s: String| s@).push(v@));
                },
            }
        }
        i = i + 1;
    }
    assert(vv.subrange(0, manifest_exports@.len() as int) =~= vv);
    if missing.len() > 0 {
        return Err(missing);
    }
    let mut out: Vec<StackExport> = Vec::new();
    out.push(plain_export("stack_name", stack_name));
    out.push(plain_export("stack_env", stack_env));
    let ghost head = stack_exports_view(out@);
    let mut rest = entries;
    proof {
        assert(head =~= seq![("stack_name"@, stack_name@, false), ("stack_env"@, stack_env@, false)]);
    }
    let ghost ev = stack_exports_view(rest@);
    out.append(&mut rest);
    assert(stack_exports_view(out@) =~= head + ev);
    out.push(plain_export("elapsed_time", elapsed_time));
    assert(stack_exports_view(out@) =~= head + ev + seq![("elapsed_time"@, elapsed_time@, false)]);
    Ok(out)
}

// ---------------------------------------------------------------------------
// External scripts
// ---------------------------------------------------------------------------

/// A JSON object whose values are all strings, as a map; `None` where the
/// text is not one.
pub uninterp spec fn json_string_object(text: Seq<char>) -> Option<Map<Seq<char>, Seq<char>>>;

/// `serde_json::from_str::<HashMap<String, String>>(text)`, its entries
/// handed out in the map's order (keys distinct).
#[verifier::external_body]
fn parse_json_string_object(text: &str) -> (r: Option<Vec<(String, String)>>)
    ensures
        match r {
            Some(pairs) => json_string_object(text@)
                == Some(map_of(pairs@.map_values(|p: (String, String)| (p.0@, p.1@)))),
            None => json_string_object(text@) is None,
        },
{
    serde_json::from_str::<std::collections::HashMap<String, String>>(text).ok().map(|m| m.into_iter().collect())
}

/// The first of `names` that `m` lacks.
pub open spec fn first_missing(names: Seq<Seq<char>>, m: Map<Seq<char>, Seq<char>>) -> Option<Seq<char>>
    decreases names.len(),
{
    if names.len() == 0 {
        None
    } else if !m.contains_key(names[0]) {
        Some(names[0])
    } else {
        first_missing(names.drop_first(), m)
    }
}

/// What the output of an external script gives: nothing where no export is
/// expected, else the JSON object of string variables it prints, which must
/// hold every expected export.
pub open spec fn script_outcome(stdout: Seq<char>, expected: Seq<Seq<char>>) -> Result<Option<Map<Seq<char>, Seq<char>>>, Seq<char>> {
    if expected.len() == 0 {
        Ok(None)
    } else {
        match json_string_object(stdout) {
            None => Err("External scripts must return valid JSON: "@ + stdout),
            Some(m) => match first_missing(expected, m) {
                Some(e) => Err("Exported variable '"@ + e + "' not found in script output"@),
                None => Ok(Some(m)),
            },
        }
    }
}

/// Reads the variables that an external script printed on `stdout`.
pub fn script_exports(stdout: &str, expected: &[String]) -> (r: Result<Option<VarMap>, String>)
    ensures
        match r {
            Ok(Some(m)) => script_outcome(stdout@, expected@.map_values(|s: String| s@))
                == Ok::<Option<Map<Seq<char>, Seq<char>>>, Seq<char>>(Some(m@)),
            Ok(None) => script_outcome(stdout@, expected@.map_values(|s: String| s@))
                == Ok::<Option<Map<Seq<char>, Seq<char>>>, Seq<char>>(None),
            Err(e) => script_outcome(stdout@, expected@.map_values(|s: String| s@))
                == Err::<Option<Map<Seq<char>, Seq<char>>>, Seq<char>>(e@),
        },
{
    let ghost ev = expected@.map_values(|s: String| s@);
    if expected.len() == 0 {
        return Ok(None);
    }
    let pairs = match parse_json_string_object(stdout) {
        Some(p) => p,
        None => {
            let mut t = chars_of("External scripts must return valid JSON: ");
            push_str(&mut t, stdout);
            return Err(string_of(t.as_slice()));
        },
    };
    let ghost pv = pairs@.map_values(|p: (String, String)| (p.0@, p.1@));
    let mut m = VarMap::new();
    let mut i: usize = 0;
    assert(pv.subrange(0, 0) =~= Seq::<(Seq<char>, Seq<char>)>::empty());
    while i < pairs.len()
        invariant
            i <= pairs@.len(),
            pv == pairs@.map_values(|p: (String, String)| (p.0@, p.1@)),
            m@ == map_of(pv.subrange(0, i as int)),
        decreases pairs@.len() - i,
    {
        assert(pv.subrange(0, i + 1).drop_last() =~= pv.subrange(0, i as int));
        assert(pv.subrange(0, i + 1).last() == (pairs@[i as int].0@, pairs@[i as int].1@));
        m.insert(pairs[i].0.clone(), pairs[i].1.clone());
        i = i + 1;
    }
    assert(pv.subrange(0, pairs@.len() as int) =~= pv);
    assert(ev.subrange(0, ev.len() as int) =~= ev);
    let mut j: usize = 0;
    while j < expected.len()
        invariant
            j <= expected@.len(),
            ev == expected@.map_values(|s: String| s@),
            first_missing(ev, m@) == first_missing(ev.subrange(j as int, ev.len() as int), m@),
            json_string_object(stdout@) == Some(m@),
            ev.len() > 0,
        decreases expected@.len() - j,
    {
        let ghost rest = ev.subrange(j as int, ev.len() as int);
        assert(rest[0] == expected@[j as int]@);
        if !m.contains_key(expected[j].as_str()) {
            let mut t = chars_of("Exported variable '");
            push_str(&mut t, expected[j].as_str());
            push_str(&mut t, "' not found in script output");
            return Err(string_of(t.as_slice()));
        }
        assert(rest.drop_first() =~= ev.subrange(j + 1, ev.len() as int));
        j = j + 1;
    }
    assert(ev.subrange(ev.len() as int, ev.len() as int) =~= Seq::<Seq<char>>::empty());
    Ok(Some(m))
}

/// The names of the plain (string) entries of a resource's exports.
pub open spec fn export_names(items: Seq<ExportItemView>) -> Seq<Seq<char>>
    decreases items.len(),
{
    if items.len() == 0 {
        Seq::empty()
    } else {
        let prev = export_names(items.drop_last());
        match items.last() {
            ExportItemView::Name(s) => prev.push(s),
            _ => prev,
        }
    }
}

/// The variables a script resource expects its script to print.
pub fn script_export_names(exports: &[ExportItem]) -> (r: Vec<String>)
    ensures
        r@.map_values(|s: String| s@) == export_names(items_view(exports@)),
{
    let ghost iv = items_view(exports@);
    let mut r: Vec<String> = Vec::new();
    let mut i: usize = 0;
    assert(iv.subrange(0, 0) =~= Seq::<ExportItemView>::empty());
    while i < exports.len()
        invariant
            i <= exports@.len(),
            iv == items_view(exports@),
            r@.map_values(|s: String| s@) == export_names(iv.subrange(0, i as int)),
        decreases exports@.len() - i,
    {
        assert(iv.subrange(0, i + 1).drop_last() =~= iv.subrange(0, i as int));
        assert(iv.subrange(0, i + 1).last() == exports@[i as int]@);
        match &exports[i] {
            ExportItem::Name(s) => {
                let ghost before = r@;
                r.push(s.clone());
                assert(r@.map_values(|s: String| s@) =~= before.map_values(|s: String| s@).push(s@));
            },
            _ => {},
        }
        i = i + 1;
    }
    assert(iv.subrange(0, exports@.len() as int) =~= iv);
    r
}

/// A script as a dry run shows it: each empty string literal `""` shown as
/// `"<evaluated>"`, scanning from the left.
pub open spec fn dry_run_script_text(s: Seq<char>) -> Seq<char>
    decreases s.len(),
{
    if s.len() == 0 {
        Seq::empty()
    } else if s.len() >= 2 && s[0] == '"' && s[1] == '"' {
        "\"<evaluated>\""@ + dry_run_script_text(s.subrange(2, s.len() as int))
    } else {
        seq![s[0]] + dry_run_script_text(s.drop_first())
    }
}

/// The script of a script resource as a dry run shows it.
pub fn dry_run_script(script: &str) -> (r: String)
    ensures
        r@ == dry_run_script_text(script@),
{
    let cs = chars_of(script);
    let n = cs.len();
    let mut out: Vec<char> = Vec::new();
    let mut i: usize = 0;
    assert(script@.subrange(0, script@.len() as int) =~= script@);
    while i < n
        invariant
            i <= n,
            n == script@.len(),
            cs@ == script@,
            out@ + dry_run_script_text(script@.subrange(i as int, n as int)) == dry_run_script_text(script@),
        decreases n - i,
    {
        let ghost rest = script@.subrange(i as int, n as int);
        if i + 1 < n && cs[i] == '"' && cs[i + 1] == '"' {
            assert(rest.subrange(2, rest.len() as int) =~= script@.subrange(i + 2, n as int));
            let ghost before = out@;
            push_str(&mut out, "\"<evaluated>\"");
            assert(out@ + dry_run_script_text(script@.subrange(i + 2, n as int))
                =~= before + dry_run_script_text(rest));
            i = i + 2;
        } else {
            assert(rest.drop_first() =~= script@.subrange(i + 1, n as int));
            let ghost before = out@;
            out.push(cs[i]);
            assert(out@ + dry_run_script_text(script@.subrange(i + 1, n as int))
                =~= before + dry_run_script_text(rest));
            i = i + 1;
        }
    }
    assert(script@.subrange(n as int, n as int) =~= Seq::<char>::empty());
    assert(out@ =~= out@ + Seq::<char>::empty());
    string_of(out.as_slice())
}

} // verus!
