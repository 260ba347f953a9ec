//! The JSON filters of the templates: `from_json`, `merge_lists`,
//! `merge_objects`, `generate_patch_document` and `to_aws_tag_filters`.
//!
//! A JSON value is carried as its compact text, as serde_json writes it.
//! serde_json reads and writes the values; what the filters decide (which
//! value a string stands for, which items and members are kept, how a
//! patch operation or a tag filter is laid out) is verified here on the
//! texts of the items and members that serde_json reports.
use vstd::prelude::*;
use crate::filters::{first_occurrences, merge_list_positions, lemma_first_occurrences_positions};
use crate::text::{chars_of, join, push_str, string_of, str_eq};

verus! {

// ---------------------------------------------------------------------------
// What serde_json reads and writes
// ---------------------------------------------------------------------------

/// `text` read as any JSON value and written back in compact form, or the
/// message of the parse error.
pub uninterp spec fn json_reencoded(text: Seq<char>) -> Result<Seq<char>, Seq<char>>;

/// The members of the JSON object that `text` holds, in the order of their
/// keys, each value in compact form; `None` where `text` is not an object.
pub uninterp spec fn json_members_of(text: Seq<char>) -> Option<Seq<(Seq<char>, Seq<char>)>>;

/// The items of the JSON array that `text` holds, each in compact form;
/// `None` where `text` is not an array.
pub uninterp spec fn json_items_of(text: Seq<char>) -> Option<Seq<Seq<char>>>;

/// The content of the JSON string that `text` holds; `None` where `text`
/// is not a JSON string.
pub uninterp spec fn json_string_of(text: Seq<char>) -> Option<Seq<char>>;

/// A lower-case hexadecimal digit.
pub open spec fn hex_digit(v: int) -> char {
    if v < 10 { ('0' as int + v) as char } else { ('a' as int + (v - 10)) as char }
}

/// A character inside a JSON string literal, as serde_json writes it: the
/// quote, the backslash and the control characters escaped (the five with
/// a short form by it, the others as `\u00XX`), every other character as
/// it is.
pub open spec fn json_escaped_char(c: char) -> Seq<char> {
    if c == '"' {
        seq!['\\', '"']
    } else if c == '\\' {
        seq!['\\', '\\']
    } else if c == '\x08' {
        seq!['\\', 'b']
    } else if c == '\x0c' {
        seq!['\\', 'f']
    } else if c == '\n' {
        seq!['\\', 'n']
    } else if c == '\r' {
        seq!['\\', 'r']
    } else if c == '\t' {
        seq!['\\', 't']
    } else if (c as int) < 0x20 {
        seq!['\\', 'u', '0', '0', hex_digit(c as int / 16), hex_digit(c as int % 16)]
    } else {
        seq![c]
    }
}

/// The characters of `s` escaped for a JSON string literal.
pub open spec fn json_escaped(s: Seq<char>) -> Seq<char>
    decreases s.len(),
{
    if s.len() == 0 {
        Seq::empty()
    } else {
        json_escaped(s.drop_last()) + json_escaped_char(s.last())
    }
}

/// The JSON string literal of `s`: in double quotes, escaped.
pub open spec fn json_quoted(s: Seq<char>) -> Seq<char> {
    seq!['"'] + json_escaped(s) + seq!['"']
}

/// A result of texts, as plain values.
pub open spec fn text_result(r: Result<String, String>) -> Result<Seq<char>, Seq<char>> {
    match r {
        Ok(t) => Ok(t@),
        Err(e) => Err(e@),
    }
}

pub open spec fn members_view(m: Option<Vec<(String, String)>>) -> Option<Seq<(Seq<char>, Seq<char>)>> {
    match m {
        Some(v) => Some(v@.map_values(|p: (String, String)| (p.0@, p.1@))),
        None => None,
    }
}

pub open spec fn items_view(m: Option<Vec<String>>) -> Option<Seq<Seq<char>>> {
    match m {
        Some(v) => Some(v@.map_values(|p: String| p@)),
        None => None,
    }
}

/// `serde_json::from_str::<serde_json::Value>` followed by `to_string`:
/// the value written back in compact form, or the parse error's message.
/// Claimed: the result is `json_reencoded` of the text.
#[verifier::external_body]
pub(crate) fn reencode_json(text: &str) -> (r: Result<String, String>)
    ensures
        text_result(r) == json_reencoded(text@),
{
    match serde_json::from_str::<serde_json::Value>(text) {
        Ok(v) => Ok(v.to_string()),
        Err(e) => Err(e.to_string()),
    }
}

/// `serde_json::from_str::<serde_json::Value>`, then the members of the
/// object in the map's (key) order, each value by `to_string`.  Claimed:
/// the result is `json_members_of` of the text.
#[verifier::external_body]
fn object_members(text: &str) -> (r: Option<Vec<(String, String)>>)
    ensures
        members_view(r) == json_members_of(text@),
{
    match serde_json::from_str::<serde_json::Value>(text) {
        Ok(serde_json::Value::Object(m)) => Some(m.iter().map(|(k, v)| (k.clone(), v.to_string())).collect()),
        Ok(_) => None,
        Err(_) => None,
    }
}

/// `serde_json::from_str::<serde_json::Value>`, then the items of the
/// array, each by `to_string`.  Claimed: the result is `json_items_of` of
/// the text.
#[verifier::external_body]
fn array_items(text: &str) -> (r: Option<Vec<String>>)
    ensures
        items_view(r) == json_items_of(text@),
{
    match serde_json::from_str::<serde_json::Value>(text) {
        Ok(serde_json::Value::Array(a)) => Some(a.iter().map(|v| v.to_string()).collect()),
        Ok(_) => None,
        Err(_) => None,
    }
}

/// `serde_json::from_str::<String>`: the content of a JSON string.
/// Claimed: the result is `json_string_of` of the text.
#[verifier::external_body]
fn string_content(text: &str) -> (r: Option<String>)
    ensures
        match r {
            Some(s) => json_string_of(text@) == Some(s@),
            None => json_string_of(text@) is None,
        },
{
    serde_json::from_str::<String>(text).ok()
}

/// `serde_json::Value::String(s).to_string()`: the JSON literal of `s`.
/// Claimed: the result is `json_quoted` of `s`, the escaping of serde_json's
/// compact writer (`ESCAPE` table and `write_char_escape` in its `ser.rs`).
#[verifier::external_body]
pub(crate) fn quote_json(s: &str) -> (r: String)
    ensures
        r@ == json_quoted(s@),
{
    serde_json::Value::String(s.to_owned()).to_string()
}

// ---------------------------------------------------------------------------
// Texts of arrays and objects
// ---------------------------------------------------------------------------

/// The array whose items have the texts `items`.
pub open spec fn array_text(items: Seq<Seq<char>>) -> Seq<char> {
    "["@ + join(items, ","@) + "]"@
}

/// `parts` joined with `sep` between consecutive pieces.
pub fn join_texts(parts: &Vec<String>, sep: &str) -> (r: String)
    ensures
        r@ == join(parts@.map_values(|p: String| p@), sep@),
{
    let ghost pv = parts@.map_values(|p: String| p@);
    let mut t: Vec<char> = Vec::new();
    let mut i: usize = 0;
    assert(pv.subrange(0, 0) =~= Seq::<Seq<char>>::empty());
    while i < parts.len()
        invariant
            i <= parts@.len(),
            pv == parts@.map_values(|p: String| p@),
            t@ == join(pv.subrange(0, i as int), sep@),
        decreases parts@.len() - i,
    {
        let ghost pre = pv.subrange(0, i as int);
        let ghost next = pv.subrange(0, i + 1);
        assert(next.drop_last() =~= pre);
        assert(next.last() == parts@[i as int]@);
        if i > 0 {
            push_str(&mut t, sep);
        }
        push_str(&mut t, parts[i].as_str());
        proof {
            if i == 0 {
                assert(join(pre, sep@) =~= Seq::<char>::empty());
                assert(t@ =~= next[0]);
            } else {
                assert(t@ =~= join(pre, sep@) + sep@ + next.last());
            }
        }
        i = i + 1;
    }
    assert(pv.subrange(0, parts@.len() as int) =~= pv);
    string_of(t.as_slice())
}

/// `prefix`, the pieces of `parts` joined with `sep`, then `suffix`.
fn framed(prefix: &str, parts: &Vec<String>, sep: &str, suffix: &str) -> (r: String)
    ensures
        r@ == prefix@ + join(parts@.map_values(|p: String| p@), sep@) + suffix@,
{
    let body = join_texts(parts, sep);
    let mut t = chars_of(prefix);
    push_str(&mut t, body.as_str());
    push_str(&mut t, suffix);
    string_of(t.as_slice())
}

// ---------------------------------------------------------------------------
// Strings that hold JSON
// ---------------------------------------------------------------------------

/// The value a filter works on: where `t` is a JSON string whose content
/// is itself JSON, that JSON (compact); else `t` as it is.
pub open spec fn decoded(t: Seq<char>) -> Seq<char> {
    match json_string_of(t) {
        Some(c) => match json_reencoded(c) {
            Ok(p) => p,
            Err(_) => t,
        },
        None => t,
    }
}

/// The value that the JSON text `t` stands for once a string holding JSON
/// is read as that JSON.
pub fn decode_json_string(t: &str) -> (r: String)
    ensures
        r@ == decoded(t@),
{
    match string_content(t) {
        Some(c) => match reencode_json(c.as_str()) {
            Ok(p) => p,
            Err(_) => t.to_owned(),
        },
        None => t.to_owned(),
    }
}

/// What `from_json` gives for the value with JSON text `t`: the JSON that
/// the string holds, or the error.
pub open spec fn from_json_result(t: Seq<char>) -> Result<Seq<char>, Seq<char>> {
    match json_string_of(t) {
        None => Err("from_json: expected a string"@),
        Some(c) => match json_reencoded(c) {
            Ok(p) => Ok(p),
            Err(e) => Err("from_json: "@ + e),
        },
    }
}

/// `from_json`: the JSON (compact text) that a string value holds.
pub fn from_json(value: &str) -> (r: Result<String, String>)
    ensures
        text_result(r) == from_json_result(value@),
{
    match string_content(value) {
        None => Err("from_json: expected a string".to_owned()),
        Some(c) => match reencode_json(c.as_str()) {
            Ok(p) => Ok(p),
            Err(e) => {
                let mut t = chars_of("from_json: ");
                push_str(&mut t, e.as_str());
                Err(string_of(t.as_slice()))
            },
        },
    }
}

// ---------------------------------------------------------------------------
// merge_lists
// ---------------------------------------------------------------------------

/// The items that `merge_lists` keeps: the first of each text, in order.
pub open spec fn kept_items(xs: Seq<Seq<char>>) -> Seq<Seq<char>> {
    first_occurrences(xs).map_values(|p: int| xs[p])
}

/// What `merge_lists` gives for the values with JSON texts `a` and `b`:
/// the items of both arrays, each distinct item once, in order.
pub open spec fn merge_lists_result(a: Seq<char>, b: Seq<char>) -> Result<Seq<char>, Seq<char>> {
    match json_items_of(decoded(a)) {
        None => Err("merge_lists: expected an array"@),
        Some(x) => match json_items_of(decoded(b)) {
            None => Err("merge_lists: 'other' must be an array"@),
            Some(y) => Ok(array_text(kept_items(x + y))),
        },
    }
}

/// `all` followed by the clones of `more`.
fn append_all(all: &mut Vec<String>, more: &Vec<String>)
    ensures
        final(all)@.map_values(|p: String| p@) == old(all)@.map_values(|p: String| p@) + more@.map_values(|p: String| p@),
{
    let ghost start = old(all)@.map_values(|p: String| p@);
    let ghost mv = more@.map_values(|p: String| p@);
    let mut i: usize = 0;
    while i < more.len()
        invariant
            i <= more@.len(),
            mv == more@.map_values(|p: String| p@),
            all@.map_values(|p: String| p@) == start + mv.subrange(0, i as int),
        decreases more@.len() - i,
    {
        let ghost before = all@;
        all.push(more[i].clone());
        assert(all@.map_values(|p: String| p@) =~= before.map_values(|p: String| p@).push(mv[i as int]));
        assert(mv.subrange(0, i + 1) =~= mv.subrange(0, i as int).push(mv[i as int]));
        i = i + 1;
    }
    assert(mv.subrange(0, more@.len() as int) =~= mv);
}

/// `merge_lists`: the items of two arrays (or of strings that hold JSON
/// arrays), each distinct item once, in the order of first appearance.
pub fn merge_lists(value: &str, other: &str) -> (r: Result<String, String>)
    ensures
        text_result(r) == merge_lists_result(value@, other@),
{
    let first = decode_json_string(value);
    let x = match array_items(first.as_str()) {
        Some(x) => x,
        None => return Err("merge_lists: expected an array".to_owned()),
    };
    let second = decode_json_string(other);
    let y = match array_items(second.as_str()) {
        Some(y) => y,
        None => return Err("merge_lists: 'other' must be an array".to_owned()),
    };
    let mut all: Vec<String> = Vec::new();
    append_all(&mut all, &x);
    append_all(&mut all, &y);
    let ghost av = all@.map_values(|p: String| p@);
    assert(av =~= x@.map_values(|p: String| p@) + y@.map_values(|p: String| p@));
    let positions = merge_list_positions(&all);
    let ghost fo = first_occurrences(av);
    proof {
        lemma_first_occurrences_positions(av);
        assert(positions@.len() == fo.len());
    }
    let mut kept: Vec<String> = Vec::new();
    let mut j: usize = 0;
    while j < positions.len()
        invariant
            j <= positions@.len(),
            av == all@.map_values(|p: String| p@),
            fo == first_occurrences(av),
            positions@.map_values(|i: usize| i as int) == fo,
            forall|a: int| 0 <= a < fo.len() ==> 0 <= #[trigger] fo[a] < av.len(),
            kept@.map_values(|p: String| p@) == fo.subrange(0, j as int).map_values(|p: int| av[p]),
        decreases positions@.len() - j,
    {
        let p = positions[j];
        assert(positions@.map_values(|i: usize| i as int)[j as int] == p as int);
        assert(fo[j as int] == p as int);
        let ghost before = kept@;
        kept.push(all[p].clone());
        assert(kept@.map_values(|q: String| q@) =~= before.map_values(|q: String| q@).push(av[p as int]));
        assert(fo.subrange(0, j + 1).map_values(|q: int| av[q]) =~= fo.subrange(0, j as int).map_values(|q: int| av[q]).push(av[p as int]));
        j = j + 1;
    }
    assert(fo.subrange(0, fo.len() as int) =~= fo);
    Ok(framed("[", &kept, ",", "]"))
}

// ---------------------------------------------------------------------------
// merge_objects
// ---------------------------------------------------------------------------

pub open spec fn pairs_view(v: Seq<(String, String)>) -> Seq<(Seq<char>, Seq<char>)> {
    v.map_values(|p: (String, String)| (p.0@, p.1@))
}

/// Whether one of the members `ms` has the key `k`.
pub open spec fn has_key(ms: Seq<(Seq<char>, Seq<char>)>, k: Seq<char>) -> bool {
    exists|i: int| 0 <= i < ms.len() && #[trigger] ms[i].0 == k
}

/// The members of `a` whose key is not among those of `b`, in order.
pub open spec fn without_keys_of(a: Seq<(Seq<char>, Seq<char>)>, b: Seq<(Seq<char>, Seq<char>)>) -> Seq<(Seq<char>, Seq<char>)>
    decreases a.len(),
{
    if a.len() == 0 {
        Seq::empty()
    } else {
        let r = without_keys_of(a.drop_last(), b);
        if has_key(b, a.last().0) { r } else { r.push(a.last()) }
    }
}

/// The members of two objects merged: those of `b`, and those of `a` whose
/// key `b` does not have (on a shared key the second object wins).
pub open spec fn merged_members(a: Seq<(Seq<char>, Seq<char>)>, b: Seq<(Seq<char>, Seq<char>)>) -> Seq<(Seq<char>, Seq<char>)> {
    without_keys_of(a, b) + b
}

/// A member of an object as JSON text: the quoted key, a colon, the value.
pub open spec fn member_text(m: (Seq<char>, Seq<char>)) -> Seq<char> {
    json_quoted(m.0) + ":"@ + m.1
}

/// The object whose members are `ms`.
pub open spec fn object_text(ms: Seq<(Seq<char>, Seq<char>)>) -> Seq<char> {
    "{"@ + join(ms.map_values(|m: (Seq<char>, Seq<char>)| member_text(m)), ","@) + "}"@
}

/// What `merge_objects` gives for the values with JSON texts `a` and `b`.
pub open spec fn merge_objects_result(a: Seq<char>, b: Seq<char>) -> Result<Seq<char>, Seq<char>> {
    match json_members_of(decoded(a)) {
        None => Err("merge_objects: expected an object"@),
        Some(x) => match json_members_of(decoded(b)) {
            None => Err("merge_objects: 'other' must be an object"@),
            Some(y) => Ok(object_text(merged_members(x, y))),
        },
    }
}

fn has_key_exec(ms: &Vec<(String, String)>, k: &str) -> (b: bool)
    ensures
        b == has_key(pairs_view(ms@), k@),
{
    let ghost mv = pairs_view(ms@);
    let mut i: usize = 0;
    while i < ms.len()
        invariant
            i <= ms@.len(),
            mv == pairs_view(ms@),
            forall|j: int| 0 <= j < i ==> mv[j].0 != k@,
        decreases ms@.len() - i,
    {
        assert(mv[i as int] == (ms@[i as int].0@, ms@[i as int].1@));
        if str_eq(ms[i].0.as_str(), k) {
            assert(mv[i as int].0 == k@);
            return true;
        }
        i = i + 1;
    }
    false
}

fn member_text_exec(k: &str, v: &str) -> (r: String)
    ensures
        r@ == member_text((k@, v@)),
{
    let q = quote_json(k);
    let mut t = chars_of(q.as_str());
    push_str(&mut t, ":");
    push_str(&mut t, v);
    string_of(t.as_slice())
}

/// The object whose members are `ms`, as JSON text.
pub(crate) fn object_text_exec(ms: &Vec<(String, String)>) -> (r: String)
    ensures
        r@ == object_text(pairs_view(ms@)),
{
    let ghost mv = pairs_view(ms@);
    let ghost tv = mv.map_values(|m: (Seq<char>, Seq<char>)| member_text(m));
    let mut texts: Vec<String> = Vec::new();
    let mut i: usize = 0;
    while i < ms.len()
        invariant
            i <= ms@.len(),
            mv == pairs_view(ms@),
            tv == mv.map_values(|m: (Seq<char>, Seq<char>)| member_text(m)),
            texts@.map_values(|p: String| p@) == tv.subrange(0, i as int),
        decreases ms@.len() - i,
    {
        assert(mv[i as int] == (ms@[i as int].0@, ms@[i as int].1@));
        let m = member_text_exec(ms[i].0.as_str(), ms[i].1.as_str());
        let ghost before = texts@;
        texts.push(m);
        assert(texts@.map_values(|p: String| p@) =~= before.map_values(|p: String| p@).push(tv[i as int]));
        assert(tv.subrange(0, i + 1) =~= tv.subrange(0, i as int).push(tv[i as int]));
        i = i + 1;
    }
    assert(tv.subrange(0, ms@.len() as int) =~= tv);
    framed("{", &texts, ",", "}")
}

/// `merge_objects`: the members of two objects (or of strings that hold
/// JSON objects); on a key that both have, the second object's value.
pub fn merge_objects(value: &str, other: &str) -> (r: Result<String, String>)
    ensures
        text_result(r) == merge_objects_result(value@, other@),
{
    let first = decode_json_string(value);
    let x = match object_members(first.as_str()) {
        Some(x) => x,
        None => return Err("merge_objects: expected an object".to_owned()),
    };
    let second = decode_json_string(other);
    let y = match object_members(second.as_str()) {
        Some(y) => y,
        None => return Err("merge_objects: 'other' must be an object".to_owned()),
    };
    let ghost xv = pairs_view(x@);
    let ghost yv = pairs_view(y@);
    let mut merged: Vec<(String, String)> = Vec::new();
    let mut i: usize = 0;
    assert(xv.subrange(0, 0) =~= Seq::<(Seq<char>, Seq<char>)>::empty());
    while i < x.len()
        invariant
            i <= x@.len(),
            xv == pairs_view(x@),
            yv == pairs_view(y@),
            pairs_view(merged@) == without_keys_of(xv.subrange(0, i as int), yv),
        decreases x@.len() - i,
    {
        assert(xv.subrange(0, i + 1).drop_last() =~= xv.subrange(0, i as int));
        assert(xv.subrange(0, i + 1).last() == (x@[i as int].0@, x@[i as int].1@));
        if !has_key_exec(&y, x[i].0.as_str()) {
            let ghost before = merged@;
            merged.push((x[i].0.clone(), x[i].1.clone()));
            assert(pairs_view(merged@) =~= pairs_view(before).push((x@[i as int].0@, x@[i as int].1@)));
        }
        i = i + 1;
    }
    assert(xv.subrange(0, x@.len() as int) =~= xv);
    let mut j: usize = 0;
    let ghost base = pairs_view(merged@);
    while j < y.len()
        invariant
            j <= y@.len(),
            yv == pairs_view(y@),
            pairs_view(merged@) == base + yv.subrange(0, j as int),
        decreases y@.len() - j,
    {
        let ghost before = merged@;
        merged.push((y[j].0.clone(), y[j].1.clone()));
        assert(pairs_view(merged@) =~= pairs_view(before).push(yv[j as int]));
        assert(yv.subrange(0, j + 1) =~= yv.subrange(0, j as int).push(yv[j as int]));
        j = j + 1;
    }
    assert(yv.subrange(0, y@.len() as int) =~= yv);
    Ok(object_text_exec(&merged))
}

// ---------------------------------------------------------------------------
// generate_patch_document
// ---------------------------------------------------------------------------

/// The RFC 6902 `add` operation that sets the member `m`: its path is the
/// key after a slash, its value the member's value, read as JSON where it
/// is a string that holds JSON.
pub open spec fn patch_op_text(m: (Seq<char>, Seq<char>)) -> Seq<char> {
    "{\"op\":\"add\",\"path\":"@ + json_quoted("/"@ + m.0) + ",\"value\":"@ + decoded(m.1) + "}"@
}

/// The patch document that adds each of the members `ms`, in order.
pub open spec fn patch_document_text(ms: Seq<(Seq<char>, Seq<char>)>) -> Seq<char> {
    array_text(ms.map_values(|m: (Seq<char>, Seq<char>)| patch_op_text(m)))
}

/// What `generate_patch_document` gives for the value with JSON text `t`:
/// the patch document of the object, or of the object a string holds.
pub open spec fn patch_document_result(t: Seq<char>) -> Result<Seq<char>, Seq<char>> {
    match json_members_of(t) {
        Some(ms) => Ok(patch_document_text(ms)),
        None => match json_string_of(t) {
            Some(c) => match json_members_of(c) {
                Some(ms) => Ok(patch_document_text(ms)),
                None => Err("generate_patch_document: expected a JSON object or JSON string"@),
            },
            None => Err("generate_patch_document: expected an object or JSON string"@),
        },
    }
}

fn patch_op_exec(k: &str, v: &str) -> (r: String)
    ensures
        r@ == patch_op_text((k@, v@)),
{
    let mut path = chars_of("/");
    push_str(&mut path, k);
    let path = string_of(path.as_slice());
    let q = quote_json(path.as_str());
    let value = decode_json_string(v);
    let mut t = chars_of("{\"op\":\"add\",\"path\":");
    push_str(&mut t, q.as_str());
    push_str(&mut t, ",\"value\":");
    push_str(&mut t, value.as_str());
    push_str(&mut t, "}");
    string_of(t.as_slice())
}

fn patch_document_exec(ms: &Vec<(String, String)>) -> (r: String)
    ensures
        r@ == patch_document_text(pairs_view(ms@)),
{
    let ghost mv = pairs_view(ms@);
    let ghost tv = mv.map_values(|m: (Seq<char>, Seq<char>)| patch_op_text(m));
    let mut ops: Vec<String> = Vec::new();
    let mut i: usize = 0;
    while i < ms.len()
        invariant
            i <= ms@.len(),
            mv == pairs_view(ms@),
            tv == mv.map_values(|m: (Seq<char>, Seq<char>)| patch_op_text(m)),
            ops@.map_values(|p: String| p@) == tv.subrange(0, i as int),
        decreases ms@.len() - i,
    {
        assert(mv[i as int] == (ms@[i as int].0@, ms@[i as int].1@));
        let op = patch_op_exec(ms[i].0.as_str(), ms[i].1.as_str());
        let ghost before = ops@;
        ops.push(op);
        assert(ops@.map_values(|p: String| p@) =~= before.map_values(|p: String| p@).push(tv[i as int]));
        assert(tv.subrange(0, i + 1) =~= tv.subrange(0, i as int).push(tv[i as int]));
        i = i + 1;
    }
    assert(tv.subrange(0, ms@.len() as int) =~= tv);
    framed("[", &ops, ",", "]")
}

/// `generate_patch_document`: an RFC 6902 patch document with one `add`
/// operation for each member of an object (or of the object that a string
/// holds), in the order of the keys.
pub fn generate_patch_document(value: &str) -> (r: Result<String, String>)
    ensures
        text_result(r) == patch_document_result(value@),
{
    if let Some(ms) = object_members(value) {
        return Ok(patch_document_exec(&ms));
    }
    match string_content(value) {
        Some(c) => match object_members(c.as_str()) {
            Some(ms) => Ok(patch_document_exec(&ms)),
            None => Err("generate_patch_document: expected a JSON object or JSON string".to_owned()),
        },
        None => Err("generate_patch_document: expected an object or JSON string".to_owned()),
    }
}

// ---------------------------------------------------------------------------
// to_aws_tag_filters
// ---------------------------------------------------------------------------

/// The value of the first of the members `ms` from position `i` on whose
/// key is `k`.
pub open spec fn member_value_from(ms: Seq<(Seq<char>, Seq<char>)>, k: Seq<char>, i: int) -> Option<Seq<char>>
    decreases ms.len() - i,
{
    if i < 0 || i >= ms.len() {
        None
    } else if ms[i].0 == k {
        Some(ms[i].1)
    } else {
        member_value_from(ms, k, i + 1)
    }
}

/// The tag filter of one tag `{"Key": k, "Value": v}`: `{"Key": k,
/// "Values": [v]}`, or the error for a tag that lacks either.
pub open spec fn tag_filter_of(tag: Seq<char>) -> Result<Seq<char>, Seq<char>> {
    let ms = match json_members_of(tag) {
        Some(ms) => ms,
        None => Seq::empty(),
    };
    match member_value_from(ms, "Key"@, 0) {
        None => Err("to_aws_tag_filters: tag without 'Key'"@),
        Some(k) => match member_value_from(ms, "Value"@, 0) {
            None => Err("to_aws_tag_filters: tag without 'Value'"@),
            Some(v) => Ok("{\"Key\":"@ + k + ",\"Values\":["@ + v + "]}"@),
        },
    }
}

/// The tag filters of the tags from position `i` on, or the error of the
/// first tag that has none.
pub open spec fn tag_filters_from(tags: Seq<Seq<char>>, i: int) -> Result<Seq<Seq<char>>, Seq<char>>
    decreases tags.len() - i,
{
    if i < 0 || i >= tags.len() {
        Ok(Seq::empty())
    } else {
        match tag_filter_of(tags[i]) {
            Err(e) => Err(e),
            Ok(f) => match tag_filters_from(tags, i + 1) {
                Err(e) => Err(e),
                Ok(fs) => Ok(seq![f] + fs),
            },
        }
    }
}

/// What `to_aws_tag_filters` gives for the value with JSON text `t`.
pub open spec fn tag_filters_result(t: Seq<char>) -> Result<Seq<char>, Seq<char>> {
    match json_items_of(decoded(t)) {
        None => Err("to_aws_tag_filters: expected a list of tags"@),
        Some(tags) => match tag_filters_from(tags, 0) {
            Err(e) => Err(e),
            Ok(fs) => Ok(array_text(fs)),
        },
    }
}

fn member_value_exec(ms: &Vec<(String, String)>, k: &str) -> (r: Option<String>)
    ensures
        match r {
            Some(v) => member_value_from(pairs_view(ms@), k@, 0) == Some(v@),
            None => member_value_from(pairs_view(ms@), k@, 0) is None,
        },
{
    let ghost mv = pairs_view(ms@);
    let mut i: usize = 0;
    while i < ms.len()
        invariant
            i <= ms@.len(),
            mv == pairs_view(ms@),
            member_value_from(mv, k@, 0) == member_value_from(mv, k@, i as int),
        decreases ms@.len() - i,
    {
        assert(mv[i as int] == (ms@[i as int].0@, ms@[i as int].1@));
        if str_eq(ms[i].0.as_str(), k) {
            return Some(ms[i].1.clone());
        }
        i = i + 1;
    }
    None
}

fn tag_filter_exec(tag: &str) -> (r: Result<String, String>)
    ensures
        text_result(r) == tag_filter_of(tag@),
{
    let ms = match object_members(tag) {
        Some(ms) => ms,
        None => Vec::new(),
    };
    assert(pairs_view(ms@) == match json_members_of(tag@) { Some(m) => m, None => Seq::<(Seq<char>, Seq<char>)>::empty() });
    let k = match member_value_exec(&ms, "Key") {
        Some(k) => k,
        None => return Err("to_aws_tag_filters: tag without 'Key'".to_owned()),
    };
    let v = match member_value_exec(&ms, "Value") {
        Some(v) => v,
        None => return Err("to_aws_tag_filters: tag without 'Value'".to_owned()),
    };
    let mut t = chars_of("{\"Key\":");
    push_str(&mut t, k.as_str());
    push_str(&mut t, ",\"Values\":[");
    push_str(&mut t, v.as_str());
    push_str(&mut t, "]}");
    Ok(string_of(t.as_slice()))
}

/// `to_aws_tag_filters`: AWS tags `[{"Key": k, "Value": v}, ...]` (or a
/// string that holds them) as tag filters `[{"Key": k, "Values": [v]}, ...]`.
pub fn to_aws_tag_filters(value: &str) -> (r: Result<String, String>)
    ensures
        text_result(r) == tag_filters_result(value@),
{
    let tags_text = decode_json_string(value);
    let tags = match array_items(tags_text.as_str()) {
        Some(t) => t,
        None => return Err("to_aws_tag_filters: expected a list of tags".to_owned()),
    };
    let ghost tv = tags@.map_values(|p: String| p@);
    let mut filters: Vec<String> = Vec::new();
    let mut i: usize = 0;
    while i < tags.len()
        invariant
            i <= tags@.len(),
            tv == tags@.map_values(|p: String| p@),
            json_items_of(decoded(value@)) == Some(tv),
            tag_filters_from(tv, 0) == match tag_filters_from(tv, i as int) {
                Err(e) => Err(e),
                Ok(fs) => Ok(filters@.map_values(|p: String| p@) + fs),
            },
        decreases tags@.len() - i,
    {
        assert(tv[i as int] == tags@[i as int]@);
        match tag_filter_exec(tags[i].as_str()) {
            Err(e) => return Err(e),
            Ok(f) => {
                let ghost before = filters@.map_values(|p: String| p@);
                filters.push(f);
                proof {
                    assert(filters@.map_values(|p: String| p@) =~= before.push(f@));
                    match tag_filters_from(tv, i + 1) {
                        Err(e) => {},
                        Ok(fs) => {
                            assert(before + (seq![f@] + fs) =~= before.push(f@) + fs);
                        },
                    }
                }
            },
        }
        i = i + 1;
    }
    assert(filters@.map_values(|p: String| p@) + Seq::<Seq<char>>::empty() =~= filters@.map_values(|p: String| p@));
    Ok(framed("[", &filters, ",", "]"))
}

} // verus!
