//! Query files: anchors, their options, and the queries they introduce.
//!
//! A query file holds several queries, each introduced by an anchor line
//! such as `/*+ statecheck, retries=5, retry_delay=10 */`.  Queries are
//! parsed eagerly here; rendering happens later, when a query is needed.
use vstd::prelude::*;
use crate::text::{
    chars_of, contains, contains_chars, find, find_exec, find_from, is_ws, join, lemma_find_from,
    lowercase, parse_unsigned, parse_unsigned_exec, push_all, slice_chars, split_char,
    split_char_exec, split_once, split_once_chars, starts_with, starts_with_chars, string_of,
    to_lowercase, trim, trim_chars, trim_start, views,
};
use crate::varmap::AssocMap;

verus! {

/// What an anchor's options read as: numeric options, then all others.
pub struct AnchorOptionsView {
    pub uint_options: Map<Seq<char>, u32>,
    pub str_options: Map<Seq<char>, Seq<char>>,
}

/// The options after one more comma-separated part of an anchor.
pub open spec fn anchor_option_step(st: AnchorOptionsView, part: Seq<char>) -> AnchorOptionsView {
    match split_once(part, "="@) {
        Some((k, v)) => {
            let key = trim(k);
            let value = trim(v);
            match parse_unsigned(value, 0xffff_ffff) {
                Some(n) => AnchorOptionsView {
                    uint_options: st.uint_options.insert(key, n as u32),
                    str_options: st.str_options,
                },
                None => AnchorOptionsView {
                    uint_options: st.uint_options,
                    str_options: st.str_options.insert(key, value),
                },
            }
        },
        None => st,
    }
}

/// The options that the parts `parts` of an anchor set, in order.
pub open spec fn anchor_options(parts: Seq<Seq<char>>) -> AnchorOptionsView
    decreases parts.len(),
{
    if parts.len() == 0 {
        AnchorOptionsView { uint_options: Map::empty(), str_options: Map::empty() }
    } else {
        anchor_option_step(anchor_options(parts.drop_last()), parts.last())
    }
}

/// The key of an anchor: its first comma-separated part, trimmed and lowercased.
pub open spec fn anchor_key(anchor: Seq<char>) -> Seq<char> {
    lowercase(trim(split_char(anchor, ',')[0]))
}

/// Parse an anchor into its key, its numeric options and its other options.
///
/// `retries=5` goes into the numeric options; `short_circuit_field=a.b`
/// into the others. Parts without `=` are ignored.
pub fn parse_anchor(anchor: &str) -> (r: (String, AssocMap<u32>, AssocMap<String>))
    ensures
        r.0@ == anchor_key(anchor@),
        r.1@ == anchor_options(split_char(anchor@, ',').drop_first()).uint_options,
        r.2@ == anchor_options(split_char(anchor@, ',').drop_first()).str_options,
{
    let a = chars_of(anchor);
    let parts = split_char_exec(a.as_slice(), ',');
    let ghost ps = views(parts@);
    proof {
        assert(split_char(anchor@, ',').len() >= 1) by {
            lemma_split_char_nonempty(anchor@, ',');
        }
    }
    let first = trim_chars(parts[0].as_slice());
    let first_s = string_of(first.as_slice());
    let key = to_lowercase(first_s.as_str());
    let mut uint_options: AssocMap<u32> = AssocMap::new();
    let mut str_options: AssocMap<String> = AssocMap::new();
    let eq = chars_of("=");
    let mut i: usize = 1;
    assert(ps.drop_first().subrange(0, 0) =~= Seq::<Seq<char>>::empty());
    while i < parts.len()
        invariant
            1 <= i <= parts@.len(),
            ps == views(parts@),
            eq@ == "="@,
            ({
                let st = anchor_options(ps.drop_first().subrange(0, i - 1));
                uint_options@ == st.uint_options && str_options@ == st.str_options
            }),
        decreases parts@.len() - i,
    {
        let ghost pre = ps.drop_first().subrange(0, i - 1);
        assert(ps.drop_first().subrange(0, i as int).drop_last() =~= pre);
        assert(ps.drop_first().subrange(0, i as int).last() == parts@[i as int]@);
        if let Some((k, v)) = split_once_chars(parts[i].as_slice(), eq.as_slice()) {
            let kt = trim_chars(k.as_slice());
            let vt = trim_chars(v.as_slice());
            match parse_unsigned_exec(vt.as_slice(), 0xffff_ffff) {
                Some(n) => {
                    uint_options.insert(string_of(kt.as_slice()), n as u32);
                },
                None => {
                    str_options.insert(string_of(kt.as_slice()), string_of(vt.as_slice()));
                },
            }
        }
        i = i + 1;
    }
    assert(ps.drop_first().subrange(0, parts@.len() - 1) =~= ps.drop_first());
    (key, uint_options, str_options)
}

pub proof fn lemma_split_char_nonempty(s: Seq<char>, c: char)
    ensures
        split_char(s, c).len() >= 1,
    decreases s.len(),
{
    if s.len() > 0 {
        lemma_split_char_nonempty(s.drop_last(), c);
    }
}

// ---------------------------------------------------------------------------
// Inline dictionary entries
// ---------------------------------------------------------------------------

/// The scanner state while splitting the body of an inline dictionary.
pub struct DictScan {
    pub entries: Seq<Seq<char>>,
    pub current: Seq<char>,
    pub depth: int,
    pub in_quote: bool,
    pub quote: char,
}

/// One character of the dictionary body: quotes open and close literal
/// text, braces nest, and a comma outside both ends an entry.
pub open spec fn dict_scan_step(st: DictScan, ch: char) -> DictScan {
    if (ch == '"' || ch == '\'') && !st.in_quote {
        DictScan { in_quote: true, quote: ch, current: st.current.push(ch), ..st }
    } else if st.in_quote && ch == st.quote {
        DictScan { in_quote: false, current: st.current.push(ch), ..st }
    } else if ch == '{' && !st.in_quote {
        DictScan { depth: st.depth + 1, current: st.current.push(ch), ..st }
    } else if ch == '}' && !st.in_quote {
        DictScan { depth: st.depth - 1, current: st.current.push(ch), ..st }
    } else if ch == ',' && !st.in_quote && st.depth == 0 {
        DictScan { entries: st.entries.push(trim(st.current)), current: Seq::empty(), ..st }
    } else {
        DictScan { current: st.current.push(ch), ..st }
    }
}

pub open spec fn dict_scan(s: Seq<char>) -> DictScan
    decreases s.len(),
{
    if s.len() == 0 {
        DictScan { entries: Seq::empty(), current: Seq::empty(), depth: 0, in_quote: false, quote: ' ' }
    } else {
        dict_scan_step(dict_scan(s.drop_last()), s.last())
    }
}

/// The entries of a dictionary body: the comma-separated pieces at brace
/// depth zero and outside quotes, trimmed; a blank last piece is dropped.
pub open spec fn dict_entries(s: Seq<char>) -> Seq<Seq<char>> {
    let st = dict_scan(s);
    if trim(st.current).len() > 0 {
        st.entries.push(trim(st.current))
    } else {
        st.entries
    }
}

/// Split dictionary entries by commas, respecting nested braces and quoted
/// strings.
pub fn split_dict_entries(s: &str) -> (r: Vec<String>)
    ensures
        r@.map_values(|x: String| x@) == dict_entries(s@),
{
    let cs = chars_of(s);
    let mut entries: Vec<String> = Vec::new();
    let mut current: Vec<char> = Vec::new();
    let mut depth: i128 = 0;
    let mut in_quote = false;
    let mut quote_char = ' ';
    let mut i: usize = 0;
    while i < cs.len()
        invariant
            i <= cs@.len(),
            cs@ == s@,
            -(i as int) <= depth <= i,
            ({
                let st = dict_scan(s@.subrange(0, i as int));
                &&& entries@.map_values(|x: String| x@) == st.entries
                &&& current@ == st.current
                &&& depth == st.depth
                &&& in_quote == st.in_quote
                &&& quote_char == st.quote
            }),
        decreases cs@.len() - i,
    {
        let ch = cs[i];
        assert(s@.subrange(0, i + 1).drop_last() =~= s@.subrange(0, i as int));
        assert(s@.subrange(0, i + 1).last() == ch);
        if (ch == '"' || ch == '\'') && !in_quote {
            in_quote = true;
            quote_char = ch;
            current.push(ch);
        } else if in_quote && ch == quote_char {
            in_quote = false;
            current.push(ch);
        } else if ch == '{' && !in_quote {
            depth = depth + 1;
            current.push(ch);
        } else if ch == '}' && !in_quote {
            depth = depth - 1;
            current.push(ch);
        } else if ch == ',' && !in_quote && depth == 0 {
            let t = trim_chars(current.as_slice());
            let ghost before = entries@;
            entries.push(string_of(t.as_slice()));
            assert(entries@.map_values(|x: String| x@) =~= before.map_values(|x: String| x@).push(t@));
            current = Vec::new();
        } else {
            current.push(ch);
        }
        i = i + 1;
    }
    assert(s@.subrange(0, cs@.len() as int) =~= s@);
    let t = trim_chars(current.as_slice());
    if t.len() > 0 {
        let ghost before = entries@;
        entries.push(string_of(t.as_slice()));
        assert(entries@.map_values(|x: String| x@) =~= before.map_values(|x: String| x@).push(t@));
    }
    entries
}

// ---------------------------------------------------------------------------
// Lines and query files
// ---------------------------------------------------------------------------

/// A line without the carriage return that ended it.
pub open spec fn strip_cr(l: Seq<char>) -> Seq<char> {
    if l.len() > 0 && l.last() == '\r' {
        l.drop_last()
    } else {
        l
    }
}

/// `str::lines`: the lines of `s`, split at `\n` or `\r\n`; a final line
/// ending does not start an empty line.
pub open spec fn lines(s: Seq<char>) -> Seq<Seq<char>> {
    let p = split_char(s, '\n');
    let init = p.drop_last().map_values(|l: Seq<char>| strip_cr(l));
    if p.last().len() == 0 {
        init
    } else {
        init.push(p.last())
    }
}

pub fn lines_exec(s: &[char]) -> (r: Vec<Vec<char>>)
    ensures
        views(r@) == lines(s@),
{
    let p = split_char_exec(s, '\n');
    proof {
        lemma_split_char_nonempty(s@, '\n');
    }
    let mut r: Vec<Vec<char>> = Vec::new();
    let n = p.len();
    let mut i: usize = 0;
    while i + 1 < n
        invariant
            n == p@.len(),
            n >= 1,
            i + 1 <= n,
            views(r@) =~= views(p@).subrange(0, i as int).map_values(|l: Seq<char>| strip_cr(l)),
        decreases n - i,
    {
        let l = &p[i];
        let ghost before = r@;
        let item = if l.len() > 0 && l[l.len() - 1] == '\r' {
            slice_chars(l.as_slice(), 0, l.len() - 1)
        } else {
            slice_chars(l.as_slice(), 0, l.len())
        };
        let ghost ig = item;
        r.push(item);
        assert(r@ =~= before.push(ig));
        assert(ig@ =~= strip_cr(views(p@)[i as int]));
        assert(views(r@) =~= views(before).push(strip_cr(views(p@)[i as int])));
        assert(views(p@).subrange(0, i + 1) =~= views(p@).subrange(0, i as int).push(views(p@)[i as int]));
        i = i + 1;
    }
    assert(views(p@).subrange(0, i as int) =~= views(p@).drop_last());
    if p[n - 1].len() > 0 {
        let ghost before = r@;
        let item = slice_chars(p[n - 1].as_slice(), 0, p[n - 1].len());
        let ghost ig = item;
        r.push(item);
        assert(r@ =~= before.push(ig));
        assert(ig@ =~= views(p@).last());
        assert(views(r@) =~= views(before).push(views(p@).last()));
    }
    r
}

/// A query of a query file with the options of its anchor, as plain values.
pub struct LoadedQueryView {
    pub text: Seq<char>,
    pub uint_options: Map<Seq<char>, u32>,
    pub str_options: Map<Seq<char>, Seq<char>>,
}

/// A query of a query file with the options of its anchor.
pub struct LoadedQuery {
    pub text: String,
    pub uint_options: AssocMap<u32>,
    pub str_options: AssocMap<String>,
}

impl View for LoadedQuery {
    type V = LoadedQueryView;

    open spec fn view(&self) -> LoadedQueryView {
        LoadedQueryView { text: self.text@, uint_options: self.uint_options@, str_options: self.str_options@ }
    }
}

/// The reader's state while going through the lines of a query file.
pub struct LoadState {
    pub queries: Map<Seq<char>, LoadedQueryView>,
    pub current: Option<Seq<char>>,
    pub buffer: Seq<Seq<char>>,
}

/// A line that opens a new query: `/*+ ... */` at the start of the line.
pub open spec fn is_anchor_line(line: Seq<char>) -> bool {
    starts_with(trim_start(line), "/*+"@) && contains(line, "*/"@)
}

/// The text between `/*+` and `*/` on an anchor line, trimmed.
pub open spec fn anchor_text(line: Seq<char>) -> Seq<char> {
    match (find(line, "/*+"@), find(line, "*/"@)) {
        (Some(a), Some(b)) => if a + 3 <= b { trim(line.subrange(a + 3, b)) } else { Seq::empty() },
        _ => Seq::empty(),
    }
}

/// The queries with the buffered lines stored under the current anchor,
/// where there is an anchor and the buffer holds a line.
pub open spec fn store_query(st: LoadState) -> Map<Seq<char>, LoadedQueryView> {
    match st.current {
        Some(a) => if st.buffer.len() > 0 {
            let opts = anchor_options(split_char(a, ',').drop_first());
            st.queries.insert(
                anchor_key(a),
                LoadedQueryView {
                    text: trim(join(st.buffer, "\n"@)),
                    uint_options: opts.uint_options,
                    str_options: opts.str_options,
                },
            )
        } else {
            st.queries
        },
        None => st.queries,
    }
}

pub open spec fn load_step(st: LoadState, line: Seq<char>) -> LoadState {
    if is_anchor_line(line) {
        LoadState {
            queries: store_query(st),
            current: Some(anchor_text(line)),
            buffer: if st.current is Some { Seq::empty() } else { st.buffer },
        }
    } else {
        LoadState { buffer: st.buffer.push(line), ..st }
    }
}

pub open spec fn load_lines(ls: Seq<Seq<char>>) -> LoadState
    decreases ls.len(),
{
    if ls.len() == 0 {
        LoadState { queries: Map::empty(), current: None, buffer: Seq::empty() }
    } else {
        load_step(load_lines(ls.drop_last()), ls.last())
    }
}

/// The queries of a query file, by anchor key.
pub open spec fn loaded_queries(content: Seq<char>) -> Map<Seq<char>, LoadedQueryView> {
    store_query(load_lines(lines(content)))
}

fn join_lines(buffer: &Vec<Vec<char>>) -> (r: Vec<char>)
    ensures
        r@ == join(views(buffer@), "\n"@),
{
    let mut r: Vec<char> = Vec::new();
    let mut i: usize = 0;
    assert(views(buffer@).subrange(0, 0) =~= Seq::<Seq<char>>::empty());
    while i < buffer.len()
        invariant
            i <= buffer@.len(),
            r@ == join(views(buffer@).subrange(0, i as int), "\n"@),
        decreases buffer@.len() - i,
    {
        let ghost pre = views(buffer@).subrange(0, i as int);
        let ghost next = views(buffer@).subrange(0, i + 1);
        assert(next.drop_last() =~= pre);
        assert(next.last() == buffer@[i as int]@);
        if i > 0 {
            r.push('\n');
            proof { reveal_strlit("\n"); }
            assert(r@ =~= join(pre, "\n"@) + "\n"@);
        }
        push_all(&mut r, buffer[i].as_slice());
        proof {
            if i == 0 {
                assert(pre.len() == 0);
                assert(join(pre, "\n"@) =~= Seq::<char>::empty());
                assert(r@ =~= next[0]);
            }
        }
        i = i + 1;
    }
    assert(views(buffer@).subrange(0, buffer@.len() as int) =~= views(buffer@));
    r
}

fn store_query_exec(
    queries: &mut AssocMap<LoadedQuery>,
    current: &Option<Vec<char>>,
    buffer: &Vec<Vec<char>>,
)
    ensures
        final(queries)@ == store_query(LoadState {
            queries: old(queries)@,
            current: match current { Some(a) => Some(a@), None => None },
            buffer: views(buffer@),
        }),
{
    if let Some(a) = current {
        if buffer.len() > 0 {
            let astr = string_of(a.as_slice());
            let (key, uint_options, str_options) = parse_anchor(astr.as_str());
            let joined = join_lines(buffer);
            let text = trim_chars(joined.as_slice());
            let q = LoadedQuery { text: string_of(text.as_slice()), uint_options, str_options };
            queries.insert(key, q);
        }
    }
}

fn anchor_text_exec(line: &[char]) -> (r: Vec<char>)
    ensures
        r@ == anchor_text(line@),
{
    let open = chars_of("/*+");
    let close = chars_of("*/");
    proof {
        reveal_strlit("/*+");
    }
    match (find_exec(line, open.as_slice()), find_exec(line, close.as_slice())) {
        (Some(a), Some(b)) => {
            if a <= b && b - a >= 3 {
                proof {
                    lemma_find_from(line@, close@, 0);
                }
                assert(b <= line@.len()) by {
                    assert(find_from(line@, close@, 0) == Some(b as int));
                }
                let inner = slice_chars(line, a + 3, b);
                trim_chars(inner.as_slice())
            } else {
                Vec::new()
            }
        },
        _ => Vec::new(),
    }
}

/// Split the text of a query file into its queries, by anchor key.
///
/// Lines before the first anchor are kept with the first query; an anchor
/// followed by no line is dropped; where a key occurs twice the later query
/// is kept.
pub fn load_sql_queries(content: &str) -> (r: AssocMap<LoadedQuery>)
    ensures
        r@ == loaded_queries(content@),
{
    let cs = chars_of(content);
    let ls = lines_exec(cs.as_slice());
    let ghost lv = views(ls@);
    let mut queries: AssocMap<LoadedQuery> = AssocMap::new();
    let mut current: Option<Vec<char>> = None;
    let mut buffer: Vec<Vec<char>> = Vec::new();
    let open = chars_of("/*+");
    let close = chars_of("*/");
    let mut i: usize = 0;
    assert(lv.subrange(0, 0) =~= Seq::<Seq<char>>::empty());
    assert(views(buffer@) =~= Seq::<Seq<char>>::empty());
    while i < ls.len()
        invariant
            i <= ls@.len(),
            lv == views(ls@),
            open@ == "/*+"@,
            close@ == "*/"@,
            ({
                let st = load_lines(lv.subrange(0, i as int));
                &&& queries@ == st.queries
                &&& (match current { Some(a) => Some(a@), None => None }) == st.current
                &&& views(buffer@) == st.buffer
            }),
        decreases ls@.len() - i,
    {
        let line = &ls[i];
        assert(lv.subrange(0, i + 1).drop_last() =~= lv.subrange(0, i as int));
        assert(lv.subrange(0, i + 1).last() == line@);
        let ts = trim_start_chars(line.as_slice());
        if starts_with_chars(ts.as_slice(), open.as_slice()) && contains_chars(line.as_slice(), close.as_slice()) {
            store_query_exec(&mut queries, &current, &buffer);
            if current.is_some() {
                buffer = Vec::new();
                assert(views(buffer@) =~= Seq::<Seq<char>>::empty());
            }
            current = Some(anchor_text_exec(line.as_slice()));
        } else {
            let ghost before = buffer@;
            let item = slice_chars(line.as_slice(), 0, line.len());
            let ghost ig = item;
            buffer.push(item);
            assert(buffer@ =~= before.push(ig));
            assert(ig@ =~= line@);
            assert(views(buffer@) =~= views(before).push(line@));
        }
        i = i + 1;
    }
    assert(lv.subrange(0, ls@.len() as int) =~= lv);
    store_query_exec(&mut queries, &current, &buffer);
    queries
}

// ---------------------------------------------------------------------------
// Parsed queries
// ---------------------------------------------------------------------------

/// Options for a query anchor.
#[derive(Debug, Clone)]
pub struct QueryOptions {
    pub retries: u32,
    pub retry_delay: u32,
    pub postdelete_retries: u32,
    pub postdelete_retry_delay: u32,
    /// Dot-path into the `RETURNING *` result to check before polling
    /// (e.g. `"ProgressEvent.OperationStatus"`).  Only used on `callback`
    /// anchors.
    pub short_circuit_field: Option<String>,
    /// Value of `short_circuit_field` that means polling can be skipped.
    pub short_circuit_value: Option<String>,
}

impl Default for QueryOptions {
    /// No retries, no delays, no short-circuit.
    fn default() -> (o: Self)
        ensures
            o.retries == 0,
            o.retry_delay == 0,
            o.postdelete_retries == 0,
            o.postdelete_retry_delay == 0,
            o.short_circuit_field is None,
            o.short_circuit_value is None,
    {
        QueryOptions {
            retries: 0,
            retry_delay: 0,
            postdelete_retries: 0,
            postdelete_retry_delay: 0,
            short_circuit_field: None,
            short_circuit_value: None,
        }
    }
}

pub struct QueryOptionsView {
    pub retries: u32,
    pub retry_delay: u32,
    pub postdelete_retries: u32,
    pub postdelete_retry_delay: u32,
    pub short_circuit_field: Option<Seq<char>>,
    pub short_circuit_value: Option<Seq<char>>,
}

pub open spec fn opt_view(o: Option<String>) -> Option<Seq<char>> {
    match o {
        Some(s) => Some(s@),
        None => None,
    }
}

impl View for QueryOptions {
    type V = QueryOptionsView;

    open spec fn view(&self) -> QueryOptionsView {
        QueryOptionsView {
            retries: self.retries,
            retry_delay: self.retry_delay,
            postdelete_retries: self.postdelete_retries,
            postdelete_retry_delay: self.postdelete_retry_delay,
            short_circuit_field: opt_view(self.short_circuit_field),
            short_circuit_value: opt_view(self.short_circuit_value),
        }
    }
}

/// Parsed query with its raw template and options; rendering is deferred
/// until the query is needed.
#[derive(Debug, Clone)]
pub struct ParsedQuery {
    pub template: String,
    pub options: QueryOptions,
}

pub struct ParsedQueryView {
    pub template: Seq<char>,
    pub options: QueryOptionsView,
}

impl View for ParsedQuery {
    type V = ParsedQueryView;

    open spec fn view(&self) -> ParsedQueryView {
        ParsedQueryView { template: self.template@, options: self.options@ }
    }
}

/// The value of numeric option `k`, or `d` where it is not set.
pub open spec fn uint_or(m: Map<Seq<char>, u32>, k: Seq<char>, d: u32) -> u32 {
    if m.contains_key(k) { m[k] } else { d }
}

/// The value of option `k`, where it is set.
pub open spec fn str_opt(m: Map<Seq<char>, Seq<char>>, k: Seq<char>) -> Option<Seq<char>> {
    if m.contains_key(k) { Some(m[k]) } else { None }
}

/// A `callback` anchor, plain or for one operation (`callback:create`).
pub open spec fn is_callback_anchor(n: Seq<char>) -> bool {
    n == "callback"@ || starts_with(n, "callback:"@)
}

/// A loaded query under the anchor name `n` with its options read,
/// defaults filled in: one retry and no delay (three polls five seconds
/// apart for a callback), ten post-delete retries five seconds apart.
pub open spec fn parsed_of(n: Seq<char>, q: LoadedQueryView) -> ParsedQueryView {
    ParsedQueryView {
        template: q.text,
        options: QueryOptionsView {
            retries: uint_or(q.uint_options, "retries"@, if is_callback_anchor(n) { 3 } else { 1 }),
            retry_delay: uint_or(q.uint_options, "retry_delay"@, if is_callback_anchor(n) { 5 } else { 0 }),
            postdelete_retries: uint_or(q.uint_options, "postdelete_retries"@, 10),
            postdelete_retry_delay: uint_or(q.uint_options, "postdelete_retry_delay"@, 5),
            short_circuit_field: str_opt(q.str_options, "short_circuit_field"@),
            short_circuit_value: str_opt(q.str_options, "short_circuit_value"@),
        },
    }
}

/// The current name of an anchor: `preflight` is `exists` and `postdeploy`
/// is `statecheck`.
pub open spec fn normalize_anchor(a: Seq<char>) -> Seq<char> {
    if a == "preflight"@ {
        "exists"@
    } else if a == "postdeploy"@ {
        "statecheck"@
    } else {
        a
    }
}

/// The anchor of `m` whose query stands under the name `n`: the current
/// name where it is present, else its older alias.
pub open spec fn source_anchor<Q>(m: Map<Seq<char>, Q>, n: Seq<char>) -> Option<Seq<char>> {
    if n == "exists"@ {
        if m.contains_key("exists"@) { Some("exists"@) }
        else if m.contains_key("preflight"@) { Some("preflight"@) }
        else { None }
    } else if n == "statecheck"@ {
        if m.contains_key("statecheck"@) { Some("statecheck"@) }
        else if m.contains_key("postdeploy"@) { Some("postdeploy"@) }
        else { None }
    } else if n == "preflight"@ || n == "postdeploy"@ {
        None
    } else if m.contains_key(n) {
        Some(n)
    } else {
        None
    }
}

/// The queries of a file by normalized anchor name.
pub open spec fn parsed_queries(m: Map<Seq<char>, LoadedQueryView>) -> Map<Seq<char>, ParsedQueryView> {
    Map::new(|n: Seq<char>| source_anchor(m, n) is Some, |n: Seq<char>| parsed_of(n, m[source_anchor(m, n)->0]))
}

/// An anchor whose query is kept: an alias gives way to its current name.
pub open spec fn kept_anchor<Q>(m: Map<Seq<char>, Q>, a: Seq<char>) -> bool {
    !(a == "preflight"@ && m.contains_key("exists"@)) && !(a == "postdeploy"@ && m.contains_key("statecheck"@))
}

pub proof fn lemma_source_anchor<Q>(m: Map<Seq<char>, Q>)
    ensures
        forall|a: Seq<char>| m.contains_key(a) && kept_anchor(m, a) ==>
            #[trigger] source_anchor(m, normalize_anchor(a)) == Some(a),
        forall|n: Seq<char>| #[trigger] source_anchor(m, n) is Some ==> {
            let a = source_anchor(m, n)->0;
            m.contains_key(a) && kept_anchor(m, a) && normalize_anchor(a) == n
        },
{
    reveal_strlit("exists");
    reveal_strlit("preflight");
    reveal_strlit("statecheck");
    reveal_strlit("postdeploy");
    assert("exists"@.len() == 6);
    assert("preflight"@.len() == 9);
    assert("statecheck"@.len() == 10 && "statecheck"@[0] == 's');
    assert("postdeploy"@.len() == 10 && "postdeploy"@[0] == 'p');
}

/// The old anchor names never name a query: `preflight` is read as
/// `exists` and `postdeploy` as `statecheck`, and a query under the
/// current name wins over one under the old name.
pub proof fn law_old_anchor_names_are_normalized(m: Map<Seq<char>, LoadedQueryView>)
    ensures
        !parsed_queries(m).contains_key("preflight"@),
        !parsed_queries(m).contains_key("postdeploy"@),
        m.contains_key("exists"@) ==> parsed_queries(m)["exists"@] == parsed_of("exists"@, m["exists"@]),
        m.contains_key("preflight"@) && !m.contains_key("exists"@) ==>
            parsed_queries(m)["exists"@] == parsed_of("exists"@, m["preflight"@]),
        m.contains_key("statecheck"@) ==> parsed_queries(m)["statecheck"@] == parsed_of("statecheck"@, m["statecheck"@]),
        m.contains_key("postdeploy"@) && !m.contains_key("statecheck"@) ==>
            parsed_queries(m)["statecheck"@] == parsed_of("statecheck"@, m["postdeploy"@]),
{
    reveal_strlit("exists");
    reveal_strlit("preflight");
    reveal_strlit("statecheck");
    reveal_strlit("postdeploy");
    assert("exists"@.len() == 6);
    assert("preflight"@.len() == 9);
    assert("statecheck"@.len() == 10 && "statecheck"@[0] == 's');
    assert("postdeploy"@.len() == 10 && "postdeploy"@[0] == 'p');
}

fn uint_option(m: &AssocMap<u32>, k: &str, d: u32) -> (r: u32)
    ensures
        r == uint_or(m@, k@, d),
{
    match m.get(k) {
        Some(v) => *v,
        None => d,
    }
}

fn str_option(m: &AssocMap<String>, k: &str) -> (r: Option<String>)
    ensures
        opt_view(r) == str_opt(m@, k@),
{
    match m.get(k) {
        Some(v) => Some(v.clone()),
        None => None,
    }
}

fn is_callback_anchor_exec(n: &str) -> (b: bool)
    ensures
        b == is_callback_anchor(n@),
{
    let c = chars_of(n);
    crate::text::str_eq(n, "callback") || crate::text::starts_with_str(c.as_slice(), "callback:")
}

fn parsed_query(n: &str, q: &LoadedQuery) -> (r: ParsedQuery)
    ensures
        r@ == parsed_of(n@, q@),
{
    let callback = is_callback_anchor_exec(n);
    ParsedQuery {
        template: q.text.clone(),
        options: QueryOptions {
            retries: uint_option(&q.uint_options, "retries", if callback { 3 } else { 1 }),
            retry_delay: uint_option(&q.uint_options, "retry_delay", if callback { 5 } else { 0 }),
            postdelete_retries: uint_option(&q.uint_options, "postdelete_retries", 10),
            postdelete_retry_delay: uint_option(&q.uint_options, "postdelete_retry_delay", 5),
            short_circuit_field: str_option(&q.str_options, "short_circuit_field"),
            short_circuit_value: str_option(&q.str_options, "short_circuit_value"),
        },
    }
}

fn normalize_anchor_exec(a: &String) -> (r: String)
    ensures
        r@ == normalize_anchor(a@),
{
    if crate::text::str_eq(a.as_str(), "preflight") {
        "exists".to_owned()
    } else if crate::text::str_eq(a.as_str(), "postdeploy") {
        "statecheck".to_owned()
    } else {
        a.clone()
    }
}

/// The queries of loaded query blocks, under their normalized anchor names,
/// with their options read.
pub fn build_queries(loaded: &AssocMap<LoadedQuery>) -> (r: AssocMap<ParsedQuery>)
    ensures
        r@ == parsed_queries(loaded@),
{
    let n = loaded.len();
    let has_exists = loaded.contains_key("exists");
    let has_statecheck = loaded.contains_key("statecheck");
    let ghost m = loaded@;
    let ghost ps = loaded.pairs();
    proof {
        lemma_source_anchor(m);
    }
    let mut result: AssocMap<ParsedQuery> = AssocMap::new();
    let mut i: usize = 0;
    assert forall|j: int| 0 <= j < ps.len() implies {
        &&& #[trigger] m.contains_key(ps[j].0)
        &&& m[ps[j].0] == ps[j].1
    } by {
        assert(loaded@.contains_key(loaded.pairs()[j].0));
    }
    while i < n
        invariant
            i <= n,
            n == ps.len(),
            m == loaded@,
            ps == loaded.pairs(),
            has_exists == m.contains_key("exists"@),
            has_statecheck == m.contains_key("statecheck"@),
            forall|j: int| 0 <= j < ps.len() ==> {
                &&& #[trigger] m.contains_key(ps[j].0)
                &&& m[ps[j].0] == ps[j].1
            },
            forall|a: Seq<char>| m.contains_key(a) && kept_anchor(m, a) ==>
                #[trigger] source_anchor(m, normalize_anchor(a)) == Some(a),
            forall|q: Seq<char>| #[trigger] result@.contains_key(q) <==> exists|j: int|
                0 <= j < i && kept_anchor(m, #[trigger] ps[j].0) && normalize_anchor(ps[j].0) == q,
            forall|q: Seq<char>| #[trigger] result@.contains_key(q) ==> source_anchor(m, q) is Some
                && result@[q] == parsed_of(q, m[source_anchor(m, q)->0]),
        decreases n - i,
    {
        let (a, q) = loaded.entry(i);
        let ghost av = a@;
        assert(av == ps[i as int].0);
        let skip = (crate::text::str_eq(a.as_str(), "preflight") && has_exists)
            || (crate::text::str_eq(a.as_str(), "postdeploy") && has_statecheck);
        if !skip {
            let key = normalize_anchor_exec(a);
            let pq = parsed_query(key.as_str(), q);
            assert(m.contains_key(av) && kept_anchor(m, av));
            assert(source_anchor(m, normalize_anchor(av)) == Some(av));
            result.insert(key, pq);
            assert forall|q2: Seq<char>| #[trigger] result@.contains_key(q2) <==> exists|j: int|
                0 <= j < i + 1 && kept_anchor(m, #[trigger] ps[j].0) && normalize_anchor(ps[j].0) == q2 by {
                if q2 == normalize_anchor(av) {
                    assert(kept_anchor(m, ps[i as int].0));
                }
            }
        } else {
            assert forall|q2: Seq<char>| #[trigger] result@.contains_key(q2) <==> exists|j: int|
                0 <= j < i + 1 && kept_anchor(m, #[trigger] ps[j].0) && normalize_anchor(ps[j].0) == q2 by {
                if exists|j: int| 0 <= j < i + 1 && kept_anchor(m, #[trigger] ps[j].0) && normalize_anchor(ps[j].0) == q2 {
                    let j = choose|j: int| 0 <= j < i + 1 && kept_anchor(m, #[trigger] ps[j].0) && normalize_anchor(ps[j].0) == q2;
                    assert(j != i);
                }
            }
        }
        i = i + 1;
    }
    proof {
        lemma_source_anchor(m);
        assert forall|q: Seq<char>| #[trigger] result@.contains_key(q) <==> source_anchor(m, q) is Some by {
            if source_anchor(m, q) is Some {
                let a = source_anchor(m, q)->0;
                assert(m.contains_key(a));
                let j = choose|j: int| 0 <= j < ps.len() && #[trigger] ps[j].0 == a;
                assert(kept_anchor(m, ps[j].0));
            }
        }
        assert(result@ =~= parsed_queries(m));
    }
    result
}

/// The queries of a query file, under their normalized anchor names, with
/// their options read. Rendering is deferred until a query is needed.
pub fn get_queries(content: &str) -> (r: AssocMap<ParsedQuery>)
    ensures
        r@ == parsed_queries(loaded_queries(content@)),
{
    let loaded = load_sql_queries(content);
    build_queries(&loaded)
}

/// `str::trim_start` on characters.
pub fn trim_start_chars(s: &[char]) -> (r: Vec<char>)
    ensures
        r@ == trim_start(s@),
{
    let mut a: usize = 0;
    while a < s.len() && crate::text::is_ws_char(s[a])
        invariant
            a <= s.len(),
            forall|j: int| 0 <= j < a ==> is_ws(#[trigger] s@[j]),
        decreases s.len() - a,
    {
        a = a + 1;
    }
    proof {
        crate::text::lemma_trim_start(s@, a as int);
    }
    slice_chars(s, a, s.len())
}

} // verus!
