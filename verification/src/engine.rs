//! Template rendering with the Tera engine (Jinja2-compatible).
//!
//! The engine is handed a `Tera` instance with the project's custom filters
//! registered; each rendering with filters adds the template to a copy of
//! it that holds no other template and escapes as a fresh engine does,
//! fills a context with the variables, and classifies what fails.  For a
//! template of plain text and `{{ name }}` placeholders the contracts state
//! the output: each placeholder replaced by its variable's value.
use vstd::prelude::*;
use crate::text::{chars_of, contains, contains_str, join, push_str, string_of};
use crate::varmap::{map_of, VarMap};

verus! {

#[verifier::external_type_specification]
#[verifier::external_body]
pub struct ExTera(tera::Tera);

#[verifier::external_type_specification]
#[verifier::external_body]
pub struct ExTeraContext(tera::Context);

#[verifier::external_type_specification]
#[verifier::external_body]
pub struct ExTeraError(tera::Error);

/// Whether `s` holds the opening of a Tera tag: `{{`, `{%` or `{#`.  Text
/// without one is a single text node of Tera's grammar and renders as itself.
pub open spec fn has_tag_opening(s: Seq<char>) -> bool {
    contains(s, "{{"@) || contains(s, "{%"@) || contains(s, "{#"@)
}

// ---------------------------------------------------------------------------
// Templates of text and `{{ name }}` placeholders
// ---------------------------------------------------------------------------

/// A part of a template: text, or a placeholder `{{ name }}`.
pub enum TemplatePart {
    Text(Seq<char>),
    Var(Seq<char>),
}

/// The text of a part.
pub open spec fn part_text(p: TemplatePart) -> Seq<char> {
    match p {
        TemplatePart::Text(s) => s,
        TemplatePart::Var(n) => "{{ "@ + n + " }}"@,
    }
}

/// The text of a template made of `ps`.
pub open spec fn parts_text(ps: Seq<TemplatePart>) -> Seq<char>
    decreases ps.len(),
{
    if ps.len() == 0 {
        Seq::empty()
    } else {
        parts_text(ps.drop_last()) + part_text(ps.last())
    }
}

/// An ASCII letter.
pub open spec fn is_ascii_letter(c: char) -> bool {
    (65 <= (c as int) && (c as int) <= 90) || (97 <= (c as int) && (c as int) <= 122)
}

/// A character of a placeholder name: an ASCII letter or digit, or `_`.
pub open spec fn is_name_char(c: char) -> bool {
    is_ascii_letter(c) || (48 <= (c as int) && (c as int) <= 57) || c == '_'
}

/// A name that Tera reads in `{{ name }}` as the lookup of the variable
/// `name`: a letter, then letters, digits and `_`; not a boolean literal
/// (nor starting like one) and not an operator word.
pub open spec fn is_placeholder_name(n: Seq<char>) -> bool {
    &&& n.len() > 0
    &&& is_ascii_letter(n[0])
    &&& forall|i: int| 0 <= i < n.len() ==> is_name_char(#[trigger] n[i])
    &&& !crate::text::starts_with(n, "true"@) && !crate::text::starts_with(n, "false"@)
    &&& !crate::text::starts_with(n, "True"@) && !crate::text::starts_with(n, "False"@)
    &&& n != "not"@ && n != "and"@ && n != "or"@ && n != "in"@ && n != "is"@
}

/// Text that Tera reads as one text node before a placeholder: not empty,
/// without a tag opening, and not ending in `{`.
pub open spec fn is_plain_text(s: Seq<char>) -> bool {
    s.len() > 0 && !has_tag_opening(s) && s.last() != '{'
}

/// Parts that make a template of plain text and placeholders: no two texts
/// in a row.
pub open spec fn is_plain_template(ps: Seq<TemplatePart>) -> bool {
    forall|i: int| 0 <= i < ps.len() ==> match #[trigger] ps[i] {
        TemplatePart::Text(s) => is_plain_text(s) && (i + 1 < ps.len() ==> ps[i + 1] is Var),
        TemplatePart::Var(n) => is_placeholder_name(n),
    }
}

/// Every placeholder of `ps` names a variable of `m`.
pub open spec fn names_bound(ps: Seq<TemplatePart>, m: Map<Seq<char>, Seq<char>>) -> bool {
    forall|i: int| 0 <= i < ps.len() ==> (#[trigger] ps[i] matches TemplatePart::Var(n) ==> m.contains_key(n))
}

/// No placeholder of `ps` names one of `reserved`.
pub open spec fn avoids(ps: Seq<TemplatePart>, reserved: Set<Seq<char>>) -> bool {
    forall|i: int| 0 <= i < ps.len() ==> (#[trigger] ps[i] matches TemplatePart::Var(n) ==> !reserved.contains(n))
}

/// The template `ps` with each placeholder replaced by its variable's
/// value in `m`.
pub open spec fn substituted(ps: Seq<TemplatePart>, m: Map<Seq<char>, Seq<char>>) -> Seq<char>
    decreases ps.len(),
{
    if ps.len() == 0 {
        Seq::empty()
    } else {
        substituted(ps.drop_last(), m) + match ps.last() {
            TemplatePart::Text(s) => s,
            TemplatePart::Var(n) => m[n],
        }
    }
}

/// What a successful rendering of `template` with the variables `m` gives:
/// text without a tag opening as it is; a template of text and
/// placeholders (none of them `reserved`) has every name bound, and, where
/// the output is not escaped, each placeholder replaced by its value.
pub open spec fn rendered_as(
    out: Seq<char>,
    template: Seq<char>,
    m: Map<Seq<char>, Seq<char>>,
    reserved: Set<Seq<char>>,
    escaped: bool,
) -> bool {
    &&& !has_tag_opening(template) ==> out == template
    &&& forall|ps: Seq<TemplatePart>| is_plain_template(ps) && #[trigger] parts_text(ps) == template
        && avoids(ps, reserved) ==> names_bound(ps, m) && (!escaped ==> out == substituted(ps, m))
}

/// What a failed rendering of `template` with the variables `m` shows: the
/// template has a tag opening, and a template of text and placeholders
/// (none of them `reserved`) names a variable that `m` lacks.
pub open spec fn render_fails_on(template: Seq<char>, m: Map<Seq<char>, Seq<char>>, reserved: Set<Seq<char>>) -> bool {
    &&& has_tag_opening(template)
    &&& forall|ps: Seq<TemplatePart>| is_plain_template(ps) && #[trigger] parts_text(ps) == template
        && avoids(ps, reserved) ==> !names_bound(ps, m)
}

/// Binding one more variable that a template does not name changes
/// neither whether its names are bound nor what it renders to.
pub proof fn lemma_unnamed_variable(ps: Seq<TemplatePart>, m: Map<Seq<char>, Seq<char>>, k: Seq<char>, v: Seq<char>)
    requires
        avoids(ps, Set::empty().insert(k)),
    ensures
        names_bound(ps, m.insert(k, v)) == names_bound(ps, m),
        substituted(ps, m.insert(k, v)) == substituted(ps, m),
    decreases ps.len(),
{
    if ps.len() > 0 {
        let init = ps.drop_last();
        assert forall|i: int| 0 <= i < init.len() implies
            (#[trigger] init[i] matches TemplatePart::Var(n) ==> !Set::empty().insert(k).contains(n)) by {
            assert(init[i] == ps[i]);
        }
        lemma_unnamed_variable(init, m, k, v);
        assert(ps[ps.len() - 1] == ps.last());
    }
    if names_bound(ps, m) {
        assert forall|i: int| 0 <= i < ps.len() implies
            (#[trigger] ps[i] matches TemplatePart::Var(n) ==> m.insert(k, v).contains_key(n)) by {}
    }
    if names_bound(ps, m.insert(k, v)) {
        assert forall|i: int| 0 <= i < ps.len() implies
            (#[trigger] ps[i] matches TemplatePart::Var(n) ==> m.contains_key(n)) by {
            match ps[i] {
                TemplatePart::Var(n) => assert(!Set::empty().insert(k).contains(n)),
                TemplatePart::Text(_) => {},
            }
        }
    }
}

// ---------------------------------------------------------------------------
// Tera
// ---------------------------------------------------------------------------

/// The templates that a Tera engine holds, by name: the text each was
/// parsed from, and the path whose suffix decides whether its output is
/// escaped (the file it was read from; its name where it was given as
/// text).
pub uninterp spec fn tera_templates(t: tera::Tera) -> Map<Seq<char>, (Seq<char>, Seq<char>)>;

/// The name suffixes of the templates whose output a Tera engine escapes
/// (its `autoescape_suffixes`).
pub uninterp spec fn tera_escape_suffixes(t: tera::Tera) -> Seq<Seq<char>>;

/// Whether a Tera engine holds no templates.
pub open spec fn holds_no_templates(t: tera::Tera) -> bool {
    tera_templates(t) == Map::<Seq<char>, (Seq<char>, Seq<char>)>::empty()
}

/// The suffixes that a fresh Tera engine escapes the output of.
pub open spec fn default_escape_suffixes() -> Seq<Seq<char>> {
    seq![".html"@, ".htm"@, ".xml"@]
}

/// Whether a template with the path (or name) `name` has its output
/// escaped under `suffixes`.
pub open spec fn is_escaped_name(suffixes: Seq<Seq<char>>, name: Seq<char>) -> bool {
    exists|i: int| 0 <= i < suffixes.len() && crate::text::ends_with(name, #[trigger] suffixes[i])
}

/// The variables of a Tera context, each with the text that Tera renders
/// for its value.
pub uninterp spec fn context_strings(c: tera::Context) -> Map<Seq<char>, Seq<char>>;

/// `tera::Context::new`: a context with no variables.
#[verifier::external_body]
fn context_new() -> (r: tera::Context)
    ensures
        context_strings(r).dom() == Set::<Seq<char>>::empty(),
{
    tera::Context::new()
}

/// `tera::Context::insert`: sets the variable `key` to the string `value`
/// (which renders as itself), replacing what it held.
#[verifier::external_body]
fn context_insert(c: &mut tera::Context, key: &str, value: &str)
    ensures
        context_strings(*final(c)) == context_strings(*old(c)).insert(key@, value@),
{
    c.insert(key, value);
}

/// `Tera::one_off`: renders `template` once with `context`, autoescape off,
/// in a fresh engine.  Claimed: text without a tag opening renders as
/// itself; a template of text and `{{ name }}` placeholders renders with
/// each placeholder replaced by its variable's value, and fails exactly
/// where a name is not a variable of the context.  Of other templates
/// nothing is stated (they may call the time, random numbers or the
/// environment, or use filters and expressions).
#[verifier::external_body]
fn tera_one_off(template: &str, context: &tera::Context) -> (r: Result<String, tera::Error>)
    ensures
        match r {
            Ok(s) => rendered_as(s@, template@, context_strings(*context), Set::empty(), false),
            Err(_) => render_fails_on(template@, context_strings(*context), Set::empty()),
        },
{
    tera::Tera::one_off(template, context, false)
}

/// `Tera::clone`: a copy of an engine with its templates and filters.
/// Claimed: the copy holds the same templates.
#[verifier::external_body]
fn tera_clone(t: &tera::Tera) -> (r: tera::Tera)
    ensures
        tera_templates(r) == tera_templates(*t),
{
    t.clone()
}

/// `HashMap::clear` on the `templates` of a Tera engine: the engine keeps
/// its filters and holds no template, as a fresh one does.
#[verifier::external_body]
fn tera_clear_templates(t: &mut tera::Tera)
    ensures
        holds_no_templates(*final(t)),
{
    t.templates.clear();
}

/// `Tera::autoescape_on` with Tera's default suffixes (`.html`, `.htm`,
/// `.xml`, those of a fresh engine).  Claimed: the engine escapes the
/// output of templates with those suffixes and keeps its templates.
#[verifier::external_body]
fn tera_autoescape_defaults(t: &mut tera::Tera)
    ensures
        tera_escape_suffixes(*final(t)) == default_escape_suffixes(),
        tera_templates(*final(t)) == tera_templates(*old(t)),
{
    t.autoescape_on(vec![".html", ".htm", ".xml"]);
}

/// `Tera::add_raw_template`: parses `content` and adds it under `name`.
/// Claimed: on success the engine holds its former templates and `content`
/// under `name`; it keeps its escape suffixes; an engine with no templates
/// accepts text without a tag opening, and a template of text and
/// `{{ name }}` placeholders.  What a failure leaves behind is not stated
/// (the template may already have been inserted when a later check fails).
#[verifier::external_body]
fn tera_add_raw_template(t: &mut tera::Tera, name: &str, content: &str) -> (r: Result<(), tera::Error>)
    ensures
        r is Ok ==> tera_templates(*final(t)) == tera_templates(*old(t)).insert(name@, (content@, name@)),
        tera_escape_suffixes(*final(t)) == tera_escape_suffixes(*old(t)),
        holds_no_templates(*old(t)) && !has_tag_opening(content@)
            ==> r is Ok,
        holds_no_templates(*old(t)) ==> forall|ps: Seq<TemplatePart>| is_plain_template(ps)
            && #[trigger] parts_text(ps) == content@ ==> r is Ok,
{
    t.add_raw_template(name, content)
}

/// `Tera::render`: renders the template `name` with `context`.  Claimed: a
/// held template renders as `rendered_as` says (its output escaped where
/// its path has one of the engine's escape suffixes) and fails only as
/// `render_fails_on` says; a template it does not hold fails.  Of other
/// templates nothing is stated: the result depends on the registered
/// filters and on Tera's built-in functions.
#[verifier::external_body]
fn tera_render(t: &tera::Tera, name: &str, context: &tera::Context) -> (r: Result<String, tera::Error>)
    ensures
        match r {
            Ok(s) => tera_templates(*t).contains_key(name@) && rendered_as(s@, tera_templates(*t)[name@].0,
                context_strings(*context), Set::empty(), is_escaped_name(tera_escape_suffixes(*t), tera_templates(*t)[name@].1)),
            Err(_) => !tera_templates(*t).contains_key(name@)
                || render_fails_on(tera_templates(*t)[name@].0, context_strings(*context), Set::empty()),
        },
{
    t.render(name, context)
}

/// The messages of a Tera error and of each error in its `source()` chain,
/// outermost first (`Display` of each).  There is at least the first.
#[verifier::external_body]
fn error_messages(e: &tera::Error) -> (r: Vec<String>)
    ensures
        r@.len() >= 1,
{
    let mut parts = vec![e.to_string()];
    let mut current = std::error::Error::source(e);
    while let Some(cause) = current {
        parts.push(cause.to_string());
        current = cause.source();
    }
    parts
}

/// `uuid::Uuid::new_v4().to_string()`: a random UUID in hyphenated form.
#[verifier::external_body]
pub(crate) fn new_uuid() -> (r: String) {
    uuid::Uuid::new_v4().to_string()
}

/// Error types that can occur during template rendering.
#[derive(Debug)]
pub enum TemplateError {
    /// Variable not found in context
    VariableNotFound(String),
    /// Syntax error in template
    SyntaxError(String),
    /// Invalid template structure
    InvalidTemplate(String),
    /// Rendering error from Tera
    RenderError(String),
}

pub enum TemplateErrorView {
    VariableNotFound(Seq<char>),
    SyntaxError(Seq<char>),
    InvalidTemplate(Seq<char>),
    RenderError(Seq<char>),
}

impl View for TemplateError {
    type V = TemplateErrorView;

    open spec fn view(&self) -> TemplateErrorView {
        match self {
            TemplateError::VariableNotFound(s) => TemplateErrorView::VariableNotFound(s@),
            TemplateError::SyntaxError(s) => TemplateErrorView::SyntaxError(s@),
            TemplateError::InvalidTemplate(s) => TemplateErrorView::InvalidTemplate(s@),
            TemplateError::RenderError(s) => TemplateErrorView::RenderError(s@),
        }
    }
}

/// How a template error is shown.
pub open spec fn template_error_text(e: TemplateErrorView) -> Seq<char> {
    match e {
        TemplateErrorView::VariableNotFound(v) => "Variable not found: "@ + v,
        TemplateErrorView::SyntaxError(m) => "Template syntax error: "@ + m,
        TemplateErrorView::InvalidTemplate(m) => "Invalid template: "@ + m,
        TemplateErrorView::RenderError(m) => "Render error: "@ + m,
    }
}

impl TemplateError {
    /// The error as it is shown to the user.
    pub fn to_string(&self) -> (s: String)
        ensures
            s@ == template_error_text(self@),
    {
        let (prefix, body) = match self {
            TemplateError::VariableNotFound(v) => ("Variable not found: ", v),
            TemplateError::SyntaxError(m) => ("Template syntax error: ", m),
            TemplateError::InvalidTemplate(m) => ("Invalid template: ", m),
            TemplateError::RenderError(m) => ("Render error: ", m),
        };
        let mut t = chars_of(prefix);
        push_str(&mut t, body.as_str());
        string_of(t.as_slice())
    }
}

/// Type alias for template rendering results
pub type TemplateResult<T> = Result<T, TemplateError>;

/// The error that a failed rendering is reported as: a missing variable
/// where the message says so, a rendering error otherwise.
pub open spec fn classify_render_error(msg: Seq<char>) -> TemplateErrorView {
    if contains(msg, "not found in context"@) {
        TemplateErrorView::VariableNotFound(msg)
    } else {
        TemplateErrorView::RenderError(msg)
    }
}

fn classify_render_error_exec(msg: String) -> (e: TemplateError)
    ensures
        e@ == classify_render_error(msg@),
{
    if contains_str(msg.as_str(), "not found in context") {
        TemplateError::VariableNotFound(msg)
    } else {
        TemplateError::RenderError(msg)
    }
}

/// A failure of a rendering classified as the library reports it.
pub open spec fn is_classified(e: TemplateErrorView) -> bool {
    match e {
        TemplateErrorView::VariableNotFound(m) => contains(m, "not found in context"@),
        TemplateErrorView::RenderError(m) => !contains(m, "not found in context"@),
        _ => false,
    }
}

/// The result of a rendering, given what the engine returned: the text, or
/// the chain of error messages, which is classified as a whole.
pub fn rendering_result(outcome: Result<String, Vec<String>>) -> (r: TemplateResult<String>)
    ensures
        match outcome {
            Ok(s) => r matches Ok(t) && t@ == s@,
            Err(parts) => r matches Err(e) && e@ == classify_render_error(join(parts@.map_values(|p: String| p@), ": "@)),
        },
{
    match outcome {
        Ok(s) => Ok(s),
        Err(parts) => Err(classify_render_error_exec(full_error_chain(&parts))),
    }
}

/// The messages of an error chain, joined by `": "`.
pub fn full_error_chain(parts: &Vec<String>) -> (r: String)
    ensures
        r@ == join(parts@.map_values(|p: String| p@), ": "@),
{
    let ghost pv = parts@.map_values(|p: String| p@);
    let mut t: Vec<char> = Vec::new();
    let mut i: usize = 0;
    assert(pv.subrange(0, 0) =~= Seq::<Seq<char>>::empty());
    while i < parts.len()
        invariant
            i <= parts@.len(),
            pv == parts@.map_values(|p: String| p@),
            t@ == join(pv.subrange(0, i as int), ": "@),
        decreases parts@.len() - i,
    {
        let ghost pre = pv.subrange(0, i as int);
        let ghost next = pv.subrange(0, i + 1);
        assert(next.drop_last() =~= pre);
        assert(next.last() == parts@[i as int]@);
        if i > 0 {
            push_str(&mut t, ": ");
        }
        push_str(&mut t, parts[i].as_str());
        proof {
            if i == 0 {
                assert(join(pre, ": "@) =~= Seq::<char>::empty());
                assert(t@ =~= next[0]);
            } else {
                assert(t@ =~= join(pre, ": "@) + ": "@ + next.last());
            }
        }
        i = i + 1;
    }
    assert(pv.subrange(0, parts@.len() as int) =~= pv);
    string_of(t.as_slice())
}

/// A rendering context holding the variables of `context`.
fn tera_context_of(context: &VarMap) -> (c: tera::Context)
    ensures
        context_strings(c) == context@,
{
    let mut c = context_new();
    let n = context.len();
    let mut i: usize = 0;
    let ghost ps = context.pairs();
    assert(context_strings(c) =~= map_of(ps.subrange(0, 0)));
    while i < n
        invariant
            i <= n,
            n == ps.len(),
            ps == context.pairs(),
            context_strings(c) == map_of(ps.subrange(0, i as int)),
        decreases n - i,
    {
        let (k, v) = context.entry(i);
        context_insert(&mut c, k.as_str(), v.as_str());
        proof {
            let next = ps.subrange(0, i + 1);
            assert(next.drop_last() =~= ps.subrange(0, i as int));
            assert(next.last() == ps[i as int]);
        }
        i = i + 1;
    }
    assert(ps.subrange(0, n as int) =~= ps);
    c
}

/// Renders templates using Tera (Jinja2-compatible).
pub struct TemplateEngine {
    tera: tera::Tera,
}

impl TemplateEngine {
    /// The Tera engine that renderings with filters start from.
    pub closed spec fn base(&self) -> tera::Tera {
        self.tera
    }

    /// An engine whose renderings start from `tera`, which holds the custom
    /// filters.
    pub fn new(tera: tera::Tera) -> (e: Self)
        ensures
            e.base() == tera,
    {
        TemplateEngine { tera }
    }

    /// Renders a template string with the variables of `context`.
    pub fn render(&self, template: &str, context: &VarMap) -> (r: TemplateResult<String>)
        ensures
            match r {
                Ok(s) => rendered_as(s@, template@, context@, Set::empty(), false),
                Err(e) => is_classified(e@) && render_fails_on(template@, context@, Set::empty()),
            },
    {
        self.render_template(template, context)
    }

    /// Renders a template string with the variables of `context`, once,
    /// without custom filters.  A failure is a missing variable where the
    /// outermost error message says so, else a rendering error.
    pub fn render_template(&self, template: &str, context: &VarMap) -> (r: TemplateResult<String>)
        ensures
            match r {
                Ok(s) => rendered_as(s@, template@, context@, Set::empty(), false),
                Err(e) => is_classified(e@) && render_fails_on(template@, context@, Set::empty()),
            },
    {
        let c = tera_context_of(context);
        self.render_with_tera_context(template, &c)
    }

    /// Renders a template string once with a Tera context, without custom
    /// filters.  A failure is a missing variable where the outermost error
    /// message says so, else a rendering error.
    pub fn render_with_tera_context(&self, template: &str, context: &tera::Context) -> (r: TemplateResult<String>)
        ensures
            match r {
                Ok(s) => rendered_as(s@, template@, context_strings(*context), Set::empty(), false),
                Err(e) => is_classified(e@) && render_fails_on(template@, context_strings(*context), Set::empty()),
            },
    {
        match tera_one_off(template, context) {
            Ok(s) => Ok(s),
            Err(e) => {
                let parts = error_messages(&e);
                let mut first: Vec<String> = Vec::new();
                first.push(parts[0].clone());
                rendering_result(Err(first))
            },
        }
    }

    /// Renders a template with the variables of `context`, the custom
    /// filters, and a fresh `uuid` variable, in a copy of the engine that
    /// holds no other template and escapes the output of `.html`, `.htm` and
    /// `.xml` templates, as a fresh engine does.  A template that does not
    /// parse is a syntax error; a failed rendering is classified by the
    /// whole chain of its error messages.
    pub fn render_with_filters(&self, template_name: &str, template: &str, context: &VarMap) -> (r: TemplateResult<String>)
        ensures
            match r {
                Ok(s) => rendered_as(s@, template@, context@, Set::empty().insert("uuid"@),
                    is_escaped_name(default_escape_suffixes(), template_name@)),
                Err(e) => (is_classified(e@) || e@ is SyntaxError)
                    && render_fails_on(template@, context@, Set::empty().insert("uuid"@)),
            },
    {
        let mut tera = tera_clone(&self.tera);
        tera_clear_templates(&mut tera);
        tera_autoescape_defaults(&mut tera);
        let ghost t0 = tera;
        let ghost reserved = Set::<Seq<char>>::empty().insert("uuid"@);
        let added = tera_add_raw_template(&mut tera, template_name, template);
        if let Err(e) = added {
            proof {
                assert forall|ps: Seq<TemplatePart>| is_plain_template(ps) && #[trigger] parts_text(ps) == template@
                    && avoids(ps, reserved) implies !names_bound(ps, context@) by {
                    assert(holds_no_templates(t0));
                }
            }
            let parts = error_messages(&e);
            return Err(TemplateError::SyntaxError(full_error_chain(&parts)));
        }
        assert(tera_templates(tera) =~= Map::<Seq<char>, (Seq<char>, Seq<char>)>::empty().insert(template_name@, (template@, template_name@)));
        let mut c = tera_context_of(context);
        let uuid = new_uuid();
        context_insert(&mut c, "uuid", uuid.as_str());
        let ghost m = context@.insert("uuid"@, uuid@);
        assert(context_strings(c) == m);
        match tera_render(&tera, template_name, &c) {
            Ok(s) => {
                proof {
                    assert forall|ps: Seq<TemplatePart>| is_plain_template(ps) && #[trigger] parts_text(ps) == template@
                        && avoids(ps, reserved) implies names_bound(ps, context@)
                        && (!is_escaped_name(default_escape_suffixes(), template_name@) ==> s@ == substituted(ps, context@)) by {
                        assert(avoids(ps, Set::<Seq<char>>::empty()));
                        lemma_unnamed_variable(ps, context@, "uuid"@, uuid@);
                    }
                }
                Ok(s)
            },
            Err(e) => {
                proof {
                    assert forall|ps: Seq<TemplatePart>| is_plain_template(ps) && #[trigger] parts_text(ps) == template@
                        && avoids(ps, reserved) implies !names_bound(ps, context@) by {
                        assert(avoids(ps, Set::<Seq<char>>::empty()));
                        lemma_unnamed_variable(ps, context@, "uuid"@, uuid@);
                    }
                }
                let parts = error_messages(&e);
                rendering_result(Err(parts))
            },
        }
    }
}

} // verus!
