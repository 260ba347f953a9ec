//! Just-in-time rendering of query templates: Jinja2 constructs that Tera
//! lacks are rewritten first, inline dictionaries are turned into context
//! variables, and a failed rendering is reported with the variables that the
//! template references and the context lacks.
use vstd::prelude::*;
use crate::engine::{TemplateEngine, TemplateError, template_error_text, is_classified, rendered_as, render_fails_on, is_escaped_name, default_escape_suffixes};
use crate::exports::lookup_or_empty;
use crate::patterns::{
    regex_replace_all, regex_replace_all_result, regex_captures, regex_first_match,
    regex_group1_all, regex_all_group1, json_object_string, json_object_text, opt_string_view,
};
use crate::templating::{dict_entries, split_dict_entries};
use crate::text::{
    chars_of, string_of, push_all, push_str, trim, trim_str, trim_chars, trim_matches,
    trim_matches_chars, split_once, split_once_chars, decimal, decimal_exec,
};
use crate::varmap::VarMap;

verus! {

/// A Jinja2 `uuid()` call inside an expression.
pub open spec fn uuid_call_pattern() -> Seq<char> {
    r"\{\{\s*uuid\(\)\s*\}\}"@
}

/// A Jinja2 `replace` call with positional arguments.
pub open spec fn replace_call_pattern() -> Seq<char> {
    r#"replace\(\s*['"]([^'"]*)['"]\s*,\s*['"]([^'"]*)['"]\s*\)"#@
}

/// An expression that applies a filter to an inline dictionary.
pub open spec fn inline_dict_pattern() -> Seq<char> {
    r"\{\{\s*\{([^}]*(?:\{[^}]*\}[^}]*)*)\}\s*\|\s*(\w+)\s*\}\}"@
}

/// The start of an expression that names a variable.
pub open spec fn variable_reference_pattern() -> Seq<char> {
    r"\{\{\s*(\w+)"@
}

pub open spec fn or_unchanged(r: Option<Seq<char>>, t: Seq<char>) -> Seq<char> {
    match r {
        Some(s) => s,
        None => t,
    }
}

/// A template with `{{ uuid() }}` made `{{ uuid }}` and Jinja2's
/// `replace('x', 'y')` made Tera's `replace(from="x", to="y")`.
pub open spec fn jinja2_compat(t: Seq<char>) -> Seq<char> {
    let a = or_unchanged(regex_replace_all_result(uuid_call_pattern(), t, "{{ uuid }}"@), t);
    or_unchanged(
        regex_replace_all_result(replace_call_pattern(), a, r#"replace(from="$1", to="$2")"#@),
        a,
    )
}

/// Rewrites the Jinja2 constructs that Tera does not accept.
pub fn preprocess_jinja2_compat(template: &str) -> (r: String)
    ensures
        r@ == jinja2_compat(template@),
{
    let a = match regex_replace_all(r"\{\{\s*uuid\(\)\s*\}\}", template, "{{ uuid }}") {
        Some(s) => s,
        None => template.to_owned(),
    };
    match regex_replace_all(
        r#"replace\(\s*['"]([^'"]*)['"]\s*,\s*['"]([^'"]*)['"]\s*\)"#,
        a.as_str(),
        r#"replace(from="$1", to="$2")"#,
    ) {
        Some(s) => s,
        None => a,
    }
}

// ---------------------------------------------------------------------------
// Inline dictionaries
// ---------------------------------------------------------------------------

/// The number of opening braces in `s`.
pub open spec fn brace_count(s: Seq<char>) -> nat
    decreases s.len(),
{
    if s.len() == 0 {
        0
    } else {
        brace_count(s.drop_last()) + if s.last() == '{' { 1nat } else { 0nat }
    }
}

pub proof fn lemma_brace_count_le(s: Seq<char>)
    ensures
        brace_count(s) <= s.len(),
    decreases s.len(),
{
    if s.len() > 0 {
        lemma_brace_count_le(s.drop_last());
    }
}

fn brace_count_exec(s: &[char]) -> (n: usize)
    ensures
        n == brace_count(s@),
{
    let mut n: usize = 0;
    let mut i: usize = 0;
    assert(s@.subrange(0, 0) =~= Seq::<char>::empty());
    while i < s.len()
        invariant
            i <= s@.len(),
            n <= i,
            n == brace_count(s@.subrange(0, i as int)),
        decreases s@.len() - i,
    {
        assert(s@.subrange(0, i + 1).drop_last() =~= s@.subrange(0, i as int));
        if s[i] == '{' {
            n = n + 1;
        }
        i = i + 1;
    }
    assert(s@.subrange(0, s@.len() as int) =~= s@);
    n
}

/// The key of a dictionary entry: trimmed, without surrounding quotes.
pub open spec fn dict_key(k: Seq<char>) -> Seq<char> {
    trim_matches(trim_matches(trim(k), '"'), '\'')
}

/// The (key, value) pairs of dictionary entries `key: variable`, each value
/// read from `ctx` (empty where the variable is not there).  Blank entries
/// and entries without a colon are left out.
pub open spec fn inline_pairs(entries: Seq<Seq<char>>, ctx: Map<Seq<char>, Seq<char>>) -> Seq<(Seq<char>, Seq<char>)>
    decreases entries.len(),
{
    if entries.len() == 0 {
        Seq::empty()
    } else {
        let prev = inline_pairs(entries.drop_last(), ctx);
        let e = trim(entries.last());
        if e.len() == 0 {
            prev
        } else {
            match split_once(e, seq![':']) {
                Some((k, v)) => prev.push((dict_key(k), lookup_or_empty(ctx, trim(v)))),
                None => prev,
            }
        }
    }
}

/// The context variable that holds the `n`-th inline dictionary.
pub open spec fn inline_var_name(n: nat) -> Seq<char> {
    "__inline_dict_"@ + decimal(n)
}

/// An expression applying `filter` to the variable `var`.
pub open spec fn filter_call(var: Seq<char>, filter: Seq<char>) -> Seq<char> {
    "{{ "@ + var + " | "@ + filter + " }}"@
}

/// Replaces, one at a time from the first, each inline dictionary with a
/// filter, `{{ { "Key": var, ... } | filter }}`, by `{{ __inline_dict_N |
/// filter }}`, and sets that variable to the JSON object built from the
/// context.  A replacement always removes opening braces (a match holds at
/// least three, its replacement two); where one would not, the text is left
/// as it is, so that the rewriting visibly ends.
pub open spec fn inline_pass(text: Seq<char>, ctx: Map<Seq<char>, Seq<char>>, n: nat) -> (Seq<char>, Map<Seq<char>, Seq<char>>)
    decreases brace_count(text),
{
    match regex_first_match(inline_dict_pattern(), text) {
        Some((before, groups, after)) => {
            if groups.len() >= 3 && groups[1] is Some && groups[2] is Some {
                let pairs = inline_pairs(dict_entries(trim(groups[1]->0)), ctx);
                let name = inline_var_name(n);
                let next = before + filter_call(name, groups[2]->0) + after;
                if brace_count(next) < brace_count(text) {
                    inline_pass(next, ctx.insert(name, json_object_text(pairs)), n + 1)
                } else {
                    (text, ctx)
                }
            } else {
                (text, ctx)
            }
        },
        None => (text, ctx),
    }
}

/// The (key, value) pairs of the dictionary `entries`, read from `ctx`.
fn inline_pairs_exec(entries: &Vec<String>, ctx: &VarMap) -> (r: Vec<(String, String)>)
    ensures
        r@.map_values(|p: (String, String)| (p.0@, p.1@))
            == inline_pairs(entries@.map_values(|x: String| x@), ctx@),
{
    let ghost ev = entries@.map_values(|x: String| x@);
    let mut sep: Vec<char> = Vec::new();
    sep.push(':');
    assert(sep@ =~= seq![':']);
    let mut r: Vec<(String, String)> = Vec::new();
    let mut i: usize = 0;
    assert(ev.subrange(0, 0) =~= Seq::<Seq<char>>::empty());
    while i < entries.len()
        invariant
            i <= entries@.len(),
            ev == entries@.map_values(|x: String| x@),
            sep@ == seq![':'],
            r@.map_values(|p: (String, String)| (p.0@, p.1@)) == inline_pairs(ev.subrange(0, i as int), ctx@),
        decreases entries@.len() - i,
    {
        assert(ev.subrange(0, i + 1).drop_last() =~= ev.subrange(0, i as int));
        assert(ev.subrange(0, i + 1).last() == entries@[i as int]@);
        let e = trim_str(entries[i].as_str());
        if e.len() > 0 {
            match split_once_chars(e.as_slice(), sep.as_slice()) {
                Some((k, v)) => {
                    let k1 = trim_chars(k.as_slice());
                    let k2 = trim_matches_chars(k1.as_slice(), '"');
                    let k3 = trim_matches_chars(k2.as_slice(), '\'');
                    let var = string_of(trim_chars(v.as_slice()).as_slice());
                    let val = match ctx.get(var.as_str()) {
                        Some(x) => x.clone(),
                        None => String::new(),
                    };
                    let key = string_of(k3.as_slice());
                    let ghost before = r@;
                    let ghost pair = (key@, val@);
                    r.push((key, val));
                    assert(r@.map_values(|p: (String, String)| (p.0@, p.1@))
                        =~= before.map_values(|p: (String, String)| (p.0@, p.1@)).push(pair));
                },
                None => {},
            }
        }
        i = i + 1;
    }
    assert(ev.subrange(0, entries@.len() as int) =~= ev);
    r
}

/// Turns each inline dictionary with a filter into a context variable
/// holding its JSON object, as `inline_pass` says.
pub fn preprocess_inline_dicts(template: &str, context: &mut VarMap) -> (r: String)
    ensures
        (r@, final(context)@) == inline_pass(template@, old(context)@, 0),
{
    let ghost ctx0 = context@;
    let total = chars_of(template).len();
    proof {
        lemma_brace_count_le(template@);
    }
    let mut cur: String = template.to_owned();
    let mut counter: usize = 0;
    loop
        invariant
            inline_pass(cur@, context@, counter as nat) == inline_pass(template@, ctx0, 0),
            counter + brace_count(cur@) <= total,
        ensures
            (cur@, context@) == inline_pass(template@, ctx0, 0),
        decreases brace_count(cur@),
    {
        let found = regex_captures(r"\{\{\s*\{([^}]*(?:\{[^}]*\}[^}]*)*)\}\s*\|\s*(\w+)\s*\}\}", cur.as_str());
        if found.is_none() {
            break;
        }
        let m = found.unwrap();
        if m.groups.len() < 3 {
            break;
        }
        if m.groups[1].is_none() || m.groups[2].is_none() {
            break;
        }
        let body: String = match &m.groups[1] {
            Some(b) => b.clone(),
            None => String::new(),
        };
        let filter: String = match &m.groups[2] {
            Some(f) => f.clone(),
            None => String::new(),
        };
        let body_text = string_of(trim_str(body.as_str()).as_slice());
        let entries = split_dict_entries(body_text.as_str());
        let pairs = inline_pairs_exec(&entries, context);
        let mut name = chars_of("__inline_dict_");
        let digits = decimal_exec(counter as u64);
        push_all(&mut name, digits.as_slice());
        let mut next = chars_of(m.before.as_str());
        push_str(&mut next, "{{ ");
        push_all(&mut next, name.as_slice());
        push_str(&mut next, " | ");
        push_str(&mut next, filter.as_str());
        push_str(&mut next, " }}");
        push_str(&mut next, m.after.as_str());
        proof {
            let g = m.groups@.map_values(|o: Option<String>| crate::patterns::opt_string_view(o));
            assert(regex_first_match(inline_dict_pattern(), cur@) == Some((m.before@, g, m.after@)));
            assert(g[1] == Some(body@));
            assert(g[2] == Some(filter@));
            assert(name@ == inline_var_name(counter as nat));
            assert(next@ =~= m.before@ + filter_call(name@, filter@) + m.after@);
            assert(pairs@.map_values(|p: (String, String)| (p.0@, p.1@))
                == inline_pairs(dict_entries(trim(body@)), context@));
        }
        let cur_chars = chars_of(cur.as_str());
        let old_count = brace_count_exec(cur_chars.as_slice());
        let new_count = brace_count_exec(next.as_slice());
        if new_count >= old_count {
            break;
        }
        let json = json_object_string(&pairs);
        context.insert(string_of(name.as_slice()), json);
        cur = string_of(next.as_slice());
        counter = counter + 1;
    }
    cur
}

// ---------------------------------------------------------------------------
// Rendering and its failures
// ---------------------------------------------------------------------------

/// The variables that `template` references and `ctx` lacks, in order of
/// reference.
pub open spec fn missing_vars(refs: Seq<Option<Seq<char>>>, ctx: Map<Seq<char>, Seq<char>>) -> Seq<Seq<char>>
    decreases refs.len(),
{
    if refs.len() == 0 {
        Seq::empty()
    } else {
        let prev = missing_vars(refs.drop_last(), ctx);
        match refs.last() {
            Some(v) => if ctx.contains_key(v) { prev } else { prev.push(v) },
            None => prev,
        }
    }
}

/// The variables that `template` references (`{{ name ...`) and `ctx`
/// lacks, for the diagnostics of a failed rendering.
pub fn missing_variables(template: &str, ctx: &VarMap) -> (r: Vec<String>)
    ensures
        r@.map_values(|s: String| s@) == missing_vars(regex_all_group1(variable_reference_pattern(), template@), ctx@),
{
    let refs = regex_group1_all(r"\{\{\s*(\w+)", template);
    let ghost rv = refs@.map_values(|g: Option<String>| opt_string_view(g));
    let mut r: Vec<String> = Vec::new();
    let mut i: usize = 0;
    assert(rv.subrange(0, 0) =~= Seq::<Option<Seq<char>>>::empty());
    while i < refs.len()
        invariant
            i <= refs@.len(),
            rv == refs@.map_values(|g: Option<String>| opt_string_view(g)),
            r@.map_values(|s: String| s@) == missing_vars(rv.subrange(0, i as int), ctx@),
        decreases refs@.len() - i,
    {
        assert(rv.subrange(0, i + 1).drop_last() =~= rv.subrange(0, i as int));
        assert(rv.subrange(0, i + 1).last() == opt_string_view(refs@[i as int]));
        match &refs[i] {
            Some(v) => {
                if !ctx.contains_key(v.as_str()) {
                    let ghost before = r@;
                    let x = v.clone();
                    r.push(x);
                    assert(r@.map_values(|s: String| s@) =~= before.map_values(|s: String| s@).push(v@));
                }
            },
            None => {},
        }
        i = i + 1;
    }
    assert(rv.subrange(0, refs@.len() as int) =~= rv);
    r
}

/// Why a template could not be rendered: the engine's error, shown as the
/// user sees it, and the referenced variables that the context lacks.
pub struct RenderFailure {
    pub error: String,
    pub missing: Vec<String>,
}

/// The failure reported for `error` on the processed template `processed`
/// rendered with `ctx`.
pub fn render_failure(error: &TemplateError, processed: &str, ctx: &VarMap) -> (f: RenderFailure)
    ensures
        f.error@ == template_error_text(error@),
        f.missing@.map_values(|s: String| s@) == missing_vars(regex_all_group1(variable_reference_pattern(), processed@), ctx@),
{
    RenderFailure { error: error.to_string(), missing: missing_variables(processed, ctx) }
}

/// What a template and its context become before they reach the engine:
/// the Jinja2 rewriting, then the inline dictionaries.
pub open spec fn prepared(template: Seq<char>, ctx: Map<Seq<char>, Seq<char>>) -> (Seq<char>, Map<Seq<char>, Seq<char>>) {
    inline_pass(jinja2_compat(template), ctx, 0)
}

/// The template and context handed to the engine for `template` in `context`.
pub fn prepare_template(template: &str, context: &VarMap) -> (r: (String, VarMap))
    ensures
        (r.0@, r.1@) == prepared(template@, context@),
{
    let mut ctx = context.duplicate();
    let compat = preprocess_jinja2_compat(template);
    let processed = preprocess_inline_dicts(compat.as_str(), &mut ctx);
    (processed, ctx)
}

/// The name under which the query of `anchor` for `resource` is rendered.
pub fn query_template_name(resource: &str, anchor: &str) -> (r: String)
    ensures
        r@ == resource@ + "__"@ + anchor@,
{
    let mut t = chars_of(resource);
    push_str(&mut t, "__");
    push_str(&mut t, anchor);
    string_of(t.as_slice())
}

/// The name under which an inline SQL template of `resource` is rendered.
pub fn inline_template_name(resource: &str) -> (r: String)
    ensures
        r@ == resource@ + "__inline"@,
{
    let mut t = chars_of(resource);
    push_str(&mut t, "__inline");
    string_of(t.as_slice())
}

/// Whether `f` reports a failed rendering of `template` in `ctx`.
pub open spec fn reports_failure(f: RenderFailure, template: Seq<char>, ctx: Map<Seq<char>, Seq<char>>) -> bool {
    let p = prepared(template, ctx);
    &&& exists|e: crate::engine::TemplateErrorView|
        (is_classified(e) || e is SyntaxError) && #[trigger] template_error_text(e) == f.error@
    &&& f.missing@.map_values(|s: String| s@) == missing_vars(regex_all_group1(variable_reference_pattern(), p.0), p.1)
}

/// What a successful rendering of `template` in `ctx` under the name `name`
/// gives: the prepared template rendered with the prepared context, as
/// `rendered_as` says (`uuid` is set afresh for each rendering).
pub open spec fn query_rendered_as(out: Seq<char>, name: Seq<char>, template: Seq<char>, ctx: Map<Seq<char>, Seq<char>>) -> bool {
    rendered_as(out, prepared(template, ctx).0, prepared(template, ctx).1, Set::empty().insert("uuid"@),
        is_escaped_name(default_escape_suffixes(), name))
}

/// What a failed rendering of `template` in `ctx` shows of the prepared
/// template, as `render_fails_on` says.
pub open spec fn query_fails_on(template: Seq<char>, ctx: Map<Seq<char>, Seq<char>>) -> bool {
    render_fails_on(prepared(template, ctx).0, prepared(template, ctx).1, Set::empty().insert("uuid"@))
}

fn render_prepared(engine: &TemplateEngine, name: &str, template: &str, context: &VarMap) -> (r: Result<String, RenderFailure>)
    ensures
        match r {
            Ok(s) => query_rendered_as(s@, name@, template@, context@),
            Err(f) => reports_failure(f, template@, context@) && query_fails_on(template@, context@),
        },
{
    let (processed, ctx) = prepare_template(template, context);
    match engine.render_with_filters(name, processed.as_str(), &ctx) {
        Ok(s) => Ok(s),
        Err(e) => {
            let f = render_failure(&e, processed.as_str(), &ctx);
            assert(template_error_text(e@) == f.error@);
            Err(f)
        },
    }
}

/// Renders the query of `anchor` for `res_name` with `context` (the
/// resource's query context): the template is prepared as `prepared`
/// says and rendered under the name `res_name__anchor`.  A failure carries
/// the engine's error and the referenced variables the context lacks.
pub fn render_query(
    engine: &TemplateEngine,
    res_name: &str,
    anchor: &str,
    template: &str,
    context: &VarMap,
) -> (r: Result<String, RenderFailure>)
    ensures
        match r {
            Ok(s) => query_rendered_as(s@, res_name@ + "__"@ + anchor@, template@, context@),
            Err(f) => reports_failure(f, template@, context@) && query_fails_on(template@, context@),
        },
{
    let name = query_template_name(res_name, anchor);
    render_prepared(engine, name.as_str(), template, context)
}

/// Renders an inline SQL template of `resource_name` with `full_context`,
/// under the name `resource_name__inline`, as `render_query` does.
pub fn render_inline_template(
    engine: &TemplateEngine,
    resource_name: &str,
    template_string: &str,
    full_context: &VarMap,
) -> (r: Result<String, RenderFailure>)
    ensures
        match r {
            Ok(s) => query_rendered_as(s@, resource_name@ + "__inline"@, template_string@, full_context@),
            Err(f) => reports_failure(f, template_string@, full_context@) && query_fails_on(template_string@, full_context@),
        },
{
    let name = inline_template_name(resource_name);
    render_prepared(engine, name.as_str(), template_string, full_context)
}

} // verus!
