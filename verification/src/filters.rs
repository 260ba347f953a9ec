//! The logic of the custom template filters: SQL escaping, SQL lists, and
//! the de-duplication that `merge_lists` performs.  The filters themselves
//! are registered with the template engine by the application, which
//! converts Tera values to and from these plain values.
use vstd::prelude::*;
use crate::text::{chars_of, string_of, push_str, push_all, replace_char, join, trim_matches, trim_matches_chars, str_eq};

verus! {

/// A JSON array of strings, as `serde_json::from_str::<Vec<String>>`
/// reads it; `None` where the text is not such an array.
pub uninterp spec fn json_string_array(text: Seq<char>) -> Option<Seq<Seq<char>>>;

/// `serde_json::from_str::<Vec<String>>(text)`: the strings of a JSON array
/// of strings, or `None` where the text is not one.
#[verifier::external_body]
fn parse_json_string_array(text: &str) -> (r: Option<Vec<String>>)
    ensures
        match r {
            Some(v) => json_string_array(text@) == Some(v@.map_values(|s: String| s@)),
            None => json_string_array(text@) is None,
        },
{
    serde_json::from_str::<Vec<String>>(text).ok()
}

/// `sql_escape`: every single quote doubled.
pub fn sql_escape(s: &str) -> (r: String)
    ensures
        r@ == replace_char(s@, '\'', seq!['\'', '\'']),
{
    let cs = chars_of(s);
    let mut out: Vec<char> = Vec::new();
    let mut i: usize = 0;
    assert(s@.subrange(0, 0) =~= Seq::<char>::empty());
    while i < cs.len()
        invariant
            i <= cs@.len(),
            cs@ == s@,
            out@ == replace_char(s@.subrange(0, i as int), '\'', seq!['\'', '\'']),
        decreases cs@.len() - i,
    {
        assert(s@.subrange(0, i + 1).drop_last() =~= s@.subrange(0, i as int));
        let c = cs[i];
        if c == '\'' {
            out.push('\'');
            out.push('\'');
            assert(out@ =~= replace_char(s@.subrange(0, i as int), '\'', seq!['\'', '\'']) + seq!['\'', '\'']);
        } else {
            out.push(c);
            assert(out@ =~= replace_char(s@.subrange(0, i as int), '\'', seq!['\'', '\'']) + seq![c]);
        }
        i = i + 1;
    }
    assert(s@.subrange(0, cs@.len() as int) =~= s@);
    string_of(out.as_slice())
}

/// An item in single quotes.
pub open spec fn quoted(item: Seq<char>) -> Seq<char> {
    seq!['\''] + item + seq!['\'']
}

/// The SQL list of `items`: `('a','b')`, or `(NULL)` where there are none.
pub open spec fn sql_list_text(items: Seq<Seq<char>>) -> Seq<char> {
    if items.len() == 0 {
        "(NULL)"@
    } else {
        seq!['('] + join(items.map_values(|i: Seq<char>| quoted(i)), seq![',']) + seq![')']
    }
}

/// `sql_list` of a list of items.
pub fn sql_list(items: &Vec<String>) -> (r: String)
    ensures
        r@ == sql_list_text(items@.map_values(|s: String| s@)),
{
    let ghost iv = items@.map_values(|s: String| s@);
    let ghost qv = iv.map_values(|i: Seq<char>| quoted(i));
    if items.len() == 0 {
        return "(NULL)".to_owned();
    }
    let mut body: Vec<char> = Vec::new();
    let mut i: usize = 0;
    assert(qv.subrange(0, 0) =~= Seq::<Seq<char>>::empty());
    while i < items.len()
        invariant
            i <= items@.len(),
            iv == items@.map_values(|s: String| s@),
            qv == iv.map_values(|i: Seq<char>| quoted(i)),
            body@ == join(qv.subrange(0, i as int), seq![',']),
        decreases items@.len() - i,
    {
        let ghost pre = qv.subrange(0, i as int);
        let ghost next = qv.subrange(0, i + 1);
        assert(next.drop_last() =~= pre);
        assert(next.last() == quoted(items@[i as int]@));
        if i > 0 {
            body.push(',');
        }
        body.push('\'');
        push_str(&mut body, items[i].as_str());
        body.push('\'');
        proof {
            if i == 0 {
                assert(join(pre, seq![',']) =~= Seq::<char>::empty());
                assert(body@ =~= next[0]);
            } else {
                assert(body@ =~= join(pre, seq![',']) + seq![','] + next.last());
            }
        }
        i = i + 1;
    }
    assert(qv.subrange(0, items@.len() as int) =~= qv);
    let mut out: Vec<char> = Vec::new();
    out.push('(');
    push_all(&mut out, body.as_slice());
    out.push(')');
    assert(out@ =~= seq!['('] + body@ + seq![')']);
    string_of(out.as_slice())
}

/// What the `sql_list` filter is given: an array (its items already as
/// text), a string, or another value.
pub enum SqlListInput {
    Items(Vec<String>),
    Text(String),
    Other,
}

/// The text of an array item for `sql_list`: a string item as it is, any
/// other item's JSON text without surrounding double quotes.
pub fn sql_list_item(is_string: bool, text: &str) -> (r: String)
    ensures
        r@ == if is_string { text@ } else { trim_matches(text@, '"') },
{
    if is_string {
        text.to_owned()
    } else {
        let cs = chars_of(text);
        string_of(trim_matches_chars(cs.as_slice(), '"').as_slice())
    }
}

/// The items a string stands for: a JSON array of strings, else the
/// string itself.
pub open spec fn text_items(text: Seq<char>) -> Seq<Seq<char>> {
    match json_string_array(text) {
        Some(items) => items,
        None => seq![text],
    }
}

pub open spec fn sql_list_filter_text(input: SqlListInput) -> Seq<char> {
    match input {
        SqlListInput::Items(v) => sql_list_text(v@.map_values(|s: String| s@)),
        SqlListInput::Text(t) => sql_list_text(text_items(t@)),
        SqlListInput::Other => "(NULL)"@,
    }
}

/// The `sql_list` filter: an array becomes the list of its items, a string
/// the list of the JSON array it holds (or of itself), anything else
/// `(NULL)`.
pub fn sql_list_filter(input: SqlListInput) -> (r: String)
    ensures
        r@ == sql_list_filter_text(input),
{
    match input {
        SqlListInput::Items(v) => sql_list(&v),
        SqlListInput::Text(t) => {
            match parse_json_string_array(t.as_str()) {
                Some(items) => sql_list(&items),
                None => {
                    let mut one: Vec<String> = Vec::new();
                    let ghost tv = t@;
                    one.push(t);
                    assert(one@.map_values(|s: String| s@) =~= seq![tv]);
                    sql_list(&one)
                },
            }
        },
        SqlListInput::Other => "(NULL)".to_owned(),
    }
}

// ---------------------------------------------------------------------------
// merge_lists
// ---------------------------------------------------------------------------

/// The positions of the first occurrence of each key, in order.
pub open spec fn first_occurrences(keys: Seq<Seq<char>>) -> Seq<int>
    decreases keys.len(),
{
    if keys.len() == 0 {
        Seq::empty()
    } else {
        let prev = first_occurrences(keys.drop_last());
        if keys.drop_last().contains(keys.last()) {
            prev
        } else {
            prev.push(keys.len() - 1)
        }
    }
}

fn seen_before(keys: &Vec<String>, i: usize) -> (b: bool)
    requires
        i < keys@.len(),
    ensures
        b == keys@.map_values(|s: String| s@).subrange(0, i as int).contains(keys@[i as int]@),
{
    let ghost kv = keys@.map_values(|s: String| s@);
    let mut j: usize = 0;
    while j < i
        invariant
            j <= i,
            i < keys@.len(),
            kv == keys@.map_values(|s: String| s@),
            forall|k: int| 0 <= k < j ==> kv[k] != kv[i as int],
        decreases i - j,
    {
        if str_eq(keys[j].as_str(), keys[i].as_str()) {
            assert(kv.subrange(0, i as int)[j as int] == kv[i as int]);
            return true;
        }
        j = j + 1;
    }
    assert forall|k: int| 0 <= k < i implies kv.subrange(0, i as int)[k] != kv[i as int] by {}
    false
}

/// The positions of the items that `merge_lists` keeps: the first item of
/// each serialized form, in order.
pub fn merge_list_positions(keys: &Vec<String>) -> (r: Vec<usize>)
    ensures
        r@.map_values(|i: usize| i as int) == first_occurrences(keys@.map_values(|s: String| s@)),
{
    let ghost kv = keys@.map_values(|s: String| s@);
    let mut r: Vec<usize> = Vec::new();
    let mut i: usize = 0;
    assert(kv.subrange(0, 0) =~= Seq::<Seq<char>>::empty());
    while i < keys.len()
        invariant
            i <= keys@.len(),
            kv == keys@.map_values(|s: String| s@),
            r@.map_values(|i: usize| i as int) == first_occurrences(kv.subrange(0, i as int)),
        decreases keys@.len() - i,
    {
        let ghost pre = kv.subrange(0, i as int);
        assert(kv.subrange(0, i + 1).drop_last() =~= pre);
        assert(kv.subrange(0, i + 1).last() == kv[i as int]);
        if !seen_before(keys, i) {
            let ghost before = r@;
            r.push(i);
            assert(r@.map_values(|i: usize| i as int) =~= before.map_values(|i: usize| i as int).push(i as int));
        }
        i = i + 1;
    }
    assert(kv.subrange(0, keys@.len() as int) =~= kv);
    r
}

pub proof fn lemma_first_occurrences_positions(keys: Seq<Seq<char>>)
    ensures
        forall|a: int| 0 <= a < first_occurrences(keys).len() ==>
            0 <= #[trigger] first_occurrences(keys)[a] < keys.len()
            && !keys.subrange(0, first_occurrences(keys)[a]).contains(keys[first_occurrences(keys)[a]]),
        forall|a: int, b: int| 0 <= a < b < first_occurrences(keys).len() ==>
            #[trigger] first_occurrences(keys)[a] < #[trigger] first_occurrences(keys)[b],
    decreases keys.len(),
{
    if keys.len() > 0 {
        let d = keys.drop_last();
        lemma_first_occurrences_positions(d);
        let p = first_occurrences(d);
        let f = first_occurrences(keys);
        assert forall|a: int| 0 <= a < p.len() implies
            !keys.subrange(0, #[trigger] p[a]).contains(keys[p[a]]) by {
            assert(keys.subrange(0, p[a]) =~= d.subrange(0, p[a]));
            assert(keys[p[a]] == d[p[a]]);
        }
        if !d.contains(keys.last()) {
            assert(keys.subrange(0, keys.len() - 1) =~= d);
            assert(f =~= p.push(keys.len() - 1));
        } else {
            assert(f =~= p);
        }
    }
}

pub proof fn lemma_first_occurrence_of(keys: Seq<Seq<char>>, j: int) -> (a: int)
    requires
        0 <= j < keys.len(),
    ensures
        0 <= a < first_occurrences(keys).len(),
        keys[first_occurrences(keys)[a]] == keys[j],
    decreases keys.len(),
{
    let d = keys.drop_last();
    let p = first_occurrences(d);
    let f = first_occurrences(keys);
    lemma_first_occurrences_positions(d);
    if !d.contains(keys.last()) {
        assert(f =~= p.push(keys.len() - 1));
    } else {
        assert(f =~= p);
    }
    if j < keys.len() - 1 {
        let a = lemma_first_occurrence_of(d, j);
        assert(0 <= p[a] < d.len());
        assert(f[a] == p[a]);
        assert(keys[p[a]] == d[p[a]]);
        assert(d[j] == keys[j]);
        a
    } else if d.contains(keys.last()) {
        let k = choose|k: int| 0 <= k < d.len() && d[k] == keys.last();
        let a = lemma_first_occurrence_of(d, k);
        assert(0 <= p[a] < d.len());
        assert(f[a] == p[a]);
        assert(keys[p[a]] == d[p[a]]);
        a
    } else {
        p.len() as int
    }
}

pub proof fn lemma_first_occurrences_cover(keys: Seq<Seq<char>>)
    ensures
        forall|j: int| #![trigger keys[j]] 0 <= j < keys.len() ==> exists|a: int|
            0 <= a < first_occurrences(keys).len() && keys[#[trigger] first_occurrences(keys)[a]] == keys[j],
{
    assert forall|j: int| #![trigger keys[j]] 0 <= j < keys.len() implies exists|a: int|
        0 <= a < first_occurrences(keys).len() && keys[#[trigger] first_occurrences(keys)[a]] == keys[j] by {
        let a = lemma_first_occurrence_of(keys, j);
    }
}

/// The law of `merge_lists`: it keeps, in order of first appearance, one
/// item of each serialized form, and no two kept items serialize alike.
pub proof fn law_merge_lists_keeps_each_item_once(keys: Seq<Seq<char>>)
    ensures
        forall|a: int, b: int| 0 <= a < b < first_occurrences(keys).len() ==>
            first_occurrences(keys)[a] < first_occurrences(keys)[b]
            && keys[first_occurrences(keys)[a]] != keys[first_occurrences(keys)[b]],
        forall|j: int| #![trigger keys[j]] 0 <= j < keys.len() ==> exists|a: int|
            0 <= a < first_occurrences(keys).len() && keys[#[trigger] first_occurrences(keys)[a]] == keys[j],
{
    lemma_first_occurrences_positions(keys);
    lemma_first_occurrences_cover(keys);
    let f = first_occurrences(keys);
    assert forall|a: int, b: int| 0 <= a < b < f.len() implies f[a] < f[b] && keys[f[a]] != keys[f[b]] by {
        assert(0 <= f[a] < keys.len());
        assert(0 <= f[b] < keys.len());
        assert(!keys.subrange(0, f[b]).contains(keys[f[b]]));
        assert(keys.subrange(0, f[b])[f[a]] == keys[f[a]]);
    }
}

} // verus!
