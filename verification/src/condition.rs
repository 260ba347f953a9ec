//! Evaluation of the `if` conditions that a manifest attaches to resources.
//!
//! A condition is first rendered as a template; what remains is one of a
//! few simple forms: a boolean literal, an equality or inequality of two
//! (optionally quoted) values, or a membership test against a bracketed list.
use vstd::prelude::*;
use crate::text::{
    chars_eq, chars_eq_str, chars_of, ends_with, ends_with_chars, slice_chars, split_char,
    split_char_exec, split_once, split_once_chars, starts_with, starts_with_chars, trim, trim_chars,
    trim_matches, trim_matches_chars, views, is_ws, trim_start, trim_end, find, find_from, occurs_at,
    lemma_find_from,
};

verus! {

/// An operand with its white space and then its quotes removed.
pub open spec fn clean_operand(s: Seq<char>) -> Seq<char> {
    trim_matches(trim_matches(trim(s), '\''), '"')
}

/// The cleaned items of a bracketed list `[a, 'b', "c"]`.
pub open spec fn list_items(h: Seq<char>) -> Seq<Seq<char>> {
    split_char(h.subrange(1, h.len() - 1), ',').map_values(|x: Seq<char>| clean_operand(x))
}

/// `h` starts with `[` and ends with `]`.
pub open spec fn is_bracketed(h: Seq<char>) -> bool {
    starts_with(h, "["@) && ends_with(h, "]"@)
}

/// The outcome of a membership test `needle <sep> [items]`, where the text
/// after the first `sep` is a bracketed list.
pub open spec fn membership(t: Seq<char>, sep: Seq<char>) -> Option<bool> {
    match split_once(t, sep) {
        Some((l, r)) => {
            let h = trim(r);
            if is_bracketed(h) {
                Some(list_items(h).contains(clean_operand(l)))
            } else {
                None
            }
        },
        None => None,
    }
}

/// The value of a condition, or `None` where it has none of the known forms.
pub open spec fn condition_value(c: Seq<char>) -> Option<bool> {
    let t = trim(c);
    if t == "true"@ || t == "True"@ {
        Some(true)
    } else if t == "false"@ || t == "False"@ {
        Some(false)
    } else {
        match split_once(t, "=="@) {
            Some((l, r)) => Some(clean_operand(l) == clean_operand(r)),
            None => match split_once(t, "!="@) {
                Some((l, r)) => Some(clean_operand(l) != clean_operand(r)),
                None => match membership(t, " not in "@) {
                    Some(b) => Some(!b),
                    None => match membership(t, " in "@) {
                        Some(b) => Some(b),
                        None => None,
                    },
                },
            },
        }
    }
}

fn clean_operand_exec(s: &[char]) -> (r: Vec<char>)
    ensures
        r@ == clean_operand(s@),
{
    let t = trim_chars(s);
    let u = trim_matches_chars(t.as_slice(), '\'');
    trim_matches_chars(u.as_slice(), '"')
}

fn membership_exec(t: &[char], sep: &str) -> (r: Option<bool>)
    ensures
        r == membership(t@, sep@),
{
    let sepc = chars_of(sep);
    match split_once_chars(t, sepc.as_slice()) {
        Some((l, r)) => {
            let h = trim_chars(r.as_slice());
            let open = chars_of("[");
            let close = chars_of("]");
            if starts_with_chars(h.as_slice(), open.as_slice()) && ends_with_chars(h.as_slice(), close.as_slice()) {
                proof {
                    reveal_strlit("[");
                    reveal_strlit("]");
                    assert("["@.len() == 1 && "["@[0] == '[');
                    assert("]"@.len() == 1 && "]"@[0] == ']');
                    if h@.len() < 2 {
                        assert(h@.len() == 1);
                        assert(h@.subrange(0, 1)[0] == h@[0]);
                        assert(h@.subrange(h@.len() - 1, h@.len() as int)[0] == h@[0]);
                        assert(h@[0] == '[');
                        assert(h@[0] == ']');
                    }
                }
                let needle = clean_operand_exec(l.as_slice());
                let inner = slice_chars(h.as_slice(), 1, h.len() - 1);
                let pieces = split_char_exec(inner.as_slice(), ',');
                let ghost items = list_items(h@);
                assert(items.len() == pieces@.len());
                let mut found = false;
                let mut i: usize = 0;
                while i < pieces.len()
                    invariant
                        i <= pieces@.len(),
                        items == list_items(h@),
                        items.len() == pieces@.len(),
                        views(pieces@) == split_char(inner@, ','),
                        inner@ == h@.subrange(1, h@.len() - 1),
                        found == exists|j: int| 0 <= j < i && #[trigger] items[j] == needle@,
                    decreases pieces@.len() - i,
                {
                    let item = clean_operand_exec(pieces[i].as_slice());
                    assert(views(pieces@)[i as int] == pieces@[i as int]@);
                    assert(item@ == items[i as int]);
                    if chars_eq(item.as_slice(), needle.as_slice()) {
                        found = true;
                    }
                    i = i + 1;
                }
                proof {
                    if found {
                        let j = choose|j: int| 0 <= j < i && #[trigger] items[j] == needle@;
                        assert(items.contains(needle@));
                    }
                    if items.contains(needle@) {
                        let j = choose|j: int| 0 <= j < items.len() && items[j] == needle@;
                        assert(items[j] == needle@);
                    }
                }
                Some(found)
            } else {
                None
            }
        },
        None => None,
    }
}

/// Evaluate a simple condition expression: `true`/`True`, `false`/`False`,
/// `'a' == 'b'`, `'a' != 'b'`, `'a' not in [...]` or `'a' in ['a', 'b']`
/// (the longer `not in` form is tried first).
///
/// Returns `None` where the text has none of these forms.
pub fn evaluate_simple_condition(condition: &str) -> (r: Option<bool>)
    ensures
        r == condition_value(condition@),
{
    let c = chars_of(condition);
    let t = trim_chars(c.as_slice());
    if chars_eq_str(t.as_slice(), "true") || chars_eq_str(t.as_slice(), "True") {
        return Some(true);
    }
    if chars_eq_str(t.as_slice(), "false") || chars_eq_str(t.as_slice(), "False") {
        return Some(false);
    }
    let eq = chars_of("==");
    if let Some((l, r)) = split_once_chars(t.as_slice(), eq.as_slice()) {
        let a = clean_operand_exec(l.as_slice());
        let b = clean_operand_exec(r.as_slice());
        return Some(chars_eq(a.as_slice(), b.as_slice()));
    }
    let ne = chars_of("!=");
    if let Some((l, r)) = split_once_chars(t.as_slice(), ne.as_slice()) {
        let a = clean_operand_exec(l.as_slice());
        let b = clean_operand_exec(r.as_slice());
        return Some(!chars_eq(a.as_slice(), b.as_slice()));
    }
    if let Some(b) = membership_exec(t.as_slice(), " not in ") {
        return Some(!b);
    }
    if let Some(b) = membership_exec(t.as_slice(), " in ") {
        return Some(b);
    }
    None
}

/// Whether a resource with the (rendered) condition `rendered` is
/// processed: always where it has none; else as the condition says, and an
/// error where the condition cannot be read.
pub open spec fn resource_condition(name: Seq<char>, rendered: Option<Seq<char>>) -> Result<bool, Seq<char>> {
    match rendered {
        None => Ok(true),
        Some(c) => match condition_value(c) {
            Some(b) => Ok(b),
            None => Err("Error evaluating condition for resource ["@ + name + "]: "@ + c),
        },
    }
}

/// Decides whether the resource `name` is processed, given its rendered
/// condition.
pub fn evaluate_resource_condition(name: &str, rendered: Option<&str>) -> (r: Result<bool, String>)
    ensures
        match r {
            Ok(b) => resource_condition(name@, match rendered { Some(c) => Some(c@), None => None }) == Ok::<bool, Seq<char>>(b),
            Err(m) => resource_condition(name@, match rendered { Some(c) => Some(c@), None => None }) == Err::<bool, Seq<char>>(m@),
        },
{
    match rendered {
        None => Ok(true),
        Some(c) => match evaluate_simple_condition(c) {
            Some(b) => Ok(b),
            None => {
                let mut t = chars_of("Error evaluating condition for resource [");
                crate::text::push_str(&mut t, name);
                crate::text::push_str(&mut t, "]: ");
                crate::text::push_str(&mut t, c);
                Err(crate::text::string_of(t.as_slice()))
            },
        },
    }
}

// ---------------------------------------------------------------------------
// Inequality and equality
// ---------------------------------------------------------------------------

pub proof fn lemma_trim_start_suffix(s: Seq<char>)
    ensures
        trim_start(s).len() <= s.len(),
        trim_start(s) =~= s.subrange(s.len() - trim_start(s).len(), s.len() as int),
    decreases s.len(),
{
    if s.len() > 0 && is_ws(s[0]) {
        lemma_trim_start_suffix(s.drop_first());
    }
}

pub proof fn lemma_trim_end_prefix(s: Seq<char>)
    ensures
        trim_end(s).len() <= s.len(),
        trim_end(s) =~= s.subrange(0, trim_end(s).len() as int),
    decreases s.len(),
{
    if s.len() > 0 && is_ws(s.last()) {
        lemma_trim_end_prefix(s.drop_last());
    }
}

pub proof fn lemma_trim_start_append(a: Seq<char>, b: Seq<char>)
    requires
        b.len() > 0,
        !is_ws(b[0]),
    ensures
        trim_start(a + b) == trim_start(a) + b,
    decreases a.len(),
{
    if a.len() == 0 {
        assert(a + b =~= b);
    } else if is_ws(a[0]) {
        assert((a + b).drop_first() =~= a.drop_first() + b);
        lemma_trim_start_append(a.drop_first(), b);
    }
}

pub proof fn lemma_trim_end_prepend(a: Seq<char>, b: Seq<char>)
    requires
        a.len() > 0,
        !is_ws(a.last()),
    ensures
        trim_end(a + b) == a + trim_end(b),
    decreases b.len(),
{
    if b.len() == 0 {
        assert(a + b =~= a);
        assert(a + trim_end(b) =~= a);
    } else if is_ws(b.last()) {
        assert((a + b).drop_last() =~= a + b.drop_last());
        lemma_trim_end_prepend(a, b.drop_last());
    }
}

/// Every character of `s` is a space.
pub open spec fn all_spaces(s: Seq<char>) -> bool {
    forall|i: int| 0 <= i < s.len() ==> s[i] == ' '
}

/// A non-empty run of ASCII letters and digits.
pub open spec fn is_word(x: Seq<char>) -> bool {
    x.len() > 0 && forall|i: int| 0 <= i < x.len() ==> {
        let c = #[trigger] x[i] as int;
        (48 <= c && c <= 57) || (65 <= c && c <= 90) || (97 <= c && c <= 122)
    }
}

/// A list item `x` in single quotes, with the spaces `pre` before it and
/// `post` after it.
pub open spec fn padded_item(pre: Seq<char>, x: Seq<char>, post: Seq<char>) -> Seq<char> {
    pre + seq!['\''] + x + seq!['\''] + post
}

proof fn lemma_trim_spaces(s: Seq<char>)
    requires
        all_spaces(s),
    ensures
        trim_start(s) =~= Seq::<char>::empty(),
        trim_end(s) =~= Seq::<char>::empty(),
    decreases s.len(),
{
    if s.len() > 0 {
        assert(is_ws(s[0]) && is_ws(s.last()));
        lemma_trim_spaces(s.drop_first());
        lemma_trim_spaces(s.drop_last());
    }
}

proof fn lemma_clean_padded(pre: Seq<char>, x: Seq<char>, post: Seq<char>)
    requires
        all_spaces(pre),
        all_spaces(post),
        is_word(x),
    ensures
        clean_operand(padded_item(pre, x, post)) == x,
{
    let core = seq!['\''] + x + seq!['\''];
    assert(padded_item(pre, x, post) =~= pre + (core + post));
    assert(!is_ws(core[0]));
    lemma_trim_start_append(pre, core + post);
    lemma_trim_spaces(pre);
    assert(trim_start(pre) + (core + post) =~= core + post);
    assert(!is_ws(core.last()));
    lemma_trim_end_prepend(core, post);
    lemma_trim_spaces(post);
    assert(core + trim_end(post) =~= core);
    assert(trim(padded_item(pre, x, post)) == core);
    let c0 = x[0] as int;
    let cl = x[x.len() - 1] as int;
    assert(core.drop_first() =~= x + seq!['\'']);
    assert((x + seq!['\''])[0] == x[0]);
    assert(x[0] != '\'');
    assert(crate::text::strip_lead(core, '\'') == crate::text::strip_lead(core.drop_first(), '\''));
    assert(crate::text::strip_lead(x + seq!['\''], '\'') == x + seq!['\'']);
    assert(crate::text::strip_lead(core, '\'') == x + seq!['\'']);
    assert((x + seq!['\'']).drop_last() =~= x);
    assert(x.last() != '\'');
    assert((x + seq!['\'']).last() == '\'');
    assert(crate::text::strip_trail(x + seq!['\''], '\'') == crate::text::strip_trail(x, '\''));
    assert(crate::text::strip_trail(x, '\'') == x);
    assert(x[0] != '"' && x.last() != '"');
    assert(crate::text::strip_lead(x, '"') == x);
    assert(crate::text::strip_trail(x, '"') == x);
}

proof fn lemma_split_without(p: Seq<char>, c: char)
    requires
        lacks(p, c),
    ensures
        split_char(p, c) == seq![p],
    decreases p.len(),
{
    if p.len() == 0 {
        assert(p =~= Seq::<char>::empty());
        assert(seq![p] =~= seq![Seq::<char>::empty()]);
    } else {
        lemma_split_without(p.drop_last(), c);
        assert(p.last() != c);
        assert(p.drop_last().push(p.last()) =~= p);
        assert(seq![p.drop_last()].update(0, p.drop_last().push(p.last())) =~= seq![p]);
    }
}

proof fn lemma_split_after(a: Seq<char>, b: Seq<char>, c: char)
    requires
        lacks(b, c),
    ensures
        split_char(a + seq![c] + b, c) == split_char(a, c).push(b),
    decreases b.len(),
{
    let s = a + seq![c] + b;
    if b.len() == 0 {
        assert(s.drop_last() =~= a);
        assert(s.last() == c);
        assert(b =~= Seq::<char>::empty());
        assert(split_char(a, c).push(b) =~= split_char(a, c).push(Seq::<char>::empty()));
    } else {
        lemma_split_after(a, b.drop_last(), c);
        assert(s.drop_last() =~= a + seq![c] + b.drop_last());
        assert(s.last() == b.last());
        let rest = split_char(a, c).push(b.drop_last());
        assert(rest.last() == b.drop_last());
        assert(b.drop_last().push(b.last()) =~= b);
        assert(rest.update(rest.len() - 1, rest.last().push(b.last())) =~= split_char(a, c).push(b));
    }
}

proof fn lemma_split_join(ps: Seq<Seq<char>>, c: char)
    requires
        ps.len() > 0,
        forall|i: int| 0 <= i < ps.len() ==> lacks(#[trigger] ps[i], c),
    ensures
        split_char(crate::text::join(ps, seq![c]), c) == ps,
    decreases ps.len(),
{
    if ps.len() == 1 {
        lemma_split_without(ps[0], c);
        assert(seq![ps[0]] =~= ps);
    } else {
        let init = ps.drop_last();
        assert forall|i: int| 0 <= i < init.len() implies lacks(#[trigger] init[i], c) by {
            assert(init[i] == ps[i]);
        }
        lemma_split_join(init, c);
        assert(lacks(ps[ps.len() - 1], c));
        lemma_split_after(crate::text::join(init, seq![c]), ps.last(), c);
        assert(init.push(ps.last()) =~= ps);
    }
}

/// Membership ignores the spaces around list items: the items of a list
/// `[ 'a' , 'b',  'c' ]` are the quoted words, whatever spaces stand
/// before and after each.
pub proof fn law_list_items_ignore_spaces(xs: Seq<Seq<char>>, pres: Seq<Seq<char>>, posts: Seq<Seq<char>>)
    requires
        xs.len() > 0,
        pres.len() == xs.len(),
        posts.len() == xs.len(),
        forall|i: int| 0 <= i < xs.len() ==> is_word(#[trigger] xs[i]) && all_spaces(pres[i]) && all_spaces(posts[i]),
    ensures
        list_items(seq!['['] + crate::text::join(
            Seq::new(xs.len(), |i: int| padded_item(pres[i], xs[i], posts[i])), seq![',']) + seq![']']) == xs,
{
    let ps = Seq::new(xs.len(), |i: int| padded_item(pres[i], xs[i], posts[i]));
    let body = crate::text::join(ps, seq![',']);
    let h = seq!['['] + body + seq![']'];
    assert forall|i: int| 0 <= i < ps.len() implies lacks(#[trigger] ps[i], ',') by {
        let p = ps[i];
        assert(p == padded_item(pres[i], xs[i], posts[i]));
        assert forall|k: int| 0 <= k < p.len() implies p[k] != ',' by {
            let pre = pres[i];
            let x = xs[i];
            if k < pre.len() {
                assert(p[k] == pre[k]);
            } else if k == pre.len() {
            } else if k < pre.len() + 1 + x.len() {
                assert(p[k] == x[k - pre.len() - 1]);
            } else if k == pre.len() + 1 + x.len() {
            } else {
                assert(p[k] == posts[i][k - pre.len() - 2 - x.len()]);
            }
        }
    }
    lemma_split_join(ps, ',');
    assert(h.subrange(1, h.len() - 1) =~= body);
    assert forall|i: int| 0 <= i < xs.len() implies #[trigger] list_items(h)[i] == xs[i] by {
        lemma_clean_padded(pres[i], xs[i], posts[i]);
    }
    assert(list_items(h) =~= xs);
}

/// `s` holds no `c`.
pub open spec fn lacks(s: Seq<char>, c: char) -> bool {
    forall|i: int| 0 <= i < s.len() ==> s[i] != c
}

/// A comparison `l <op> r` trims to the trimmed operands around `op`.
pub proof fn lemma_comparison_trim(l: Seq<char>, r: Seq<char>, op: Seq<char>)
    requires
        op.len() == 2,
        !is_ws(op[0]),
        !is_ws(op[1]),
    ensures
        trim(l + op + r) == trim_start(l) + op + trim_end(r),
{
    assert(l + op + r =~= l + (op + r));
    lemma_trim_start_append(l, op + r);
    assert(trim_start(l) + (op + r) =~= (trim_start(l) + op) + r);
    lemma_trim_end_prepend(trim_start(l) + op, r);
}

pub proof fn lemma_find_skips(t: Seq<char>, p: Seq<char>, k: int, n: int)
    requires
        0 <= k <= n,
        occurs_at(t, p, n),
        forall|j: int| k <= j < n ==> !#[trigger] occurs_at(t, p, j),
    ensures
        find_from(t, p, k) == Some(n),
    decreases n - k,
{
    if k < n {
        lemma_find_skips(t, p, k + 1, n);
    }
}

/// Where `a` and `b` hold no `=` and no `!`, `a op b` is split at `op`
/// and nowhere else.
pub proof fn lemma_operator_found(a: Seq<char>, b: Seq<char>, op: Seq<char>, t: Seq<char>)
    requires
        op.len() == 2,
        op[0] == '=' || op[0] == '!',
        lacks(a, '='), lacks(a, '!'),
        t == a + op + b,
    ensures
        split_once(t, op) == Some((a, b)),
{
    let n = a.len() as int;
    assert(t.subrange(n, n + 2) =~= op);
    assert forall|j: int| 0 <= j < n implies !#[trigger] occurs_at(t, op, j) by {
        assert(t[j] == a[j]);
        if occurs_at(t, op, j) {
            assert(t.subrange(j, j + 2)[0] == t[j]);
        }
    }
    lemma_find_skips(t, op, 0, n);
    assert(t.subrange(0, n) =~= a);
    assert(t.subrange(n + 2, t.len() as int) =~= b);
}

/// `==` does not occur in `a != b` where `a` and `b` hold no `=`.
pub proof fn lemma_no_double_equals(a: Seq<char>, b: Seq<char>, t: Seq<char>)
    requires
        lacks(a, '='), lacks(b, '='),
        t == a + "!="@ + b,
    ensures
        find(t, "=="@) is None,
{
    reveal_strlit("!=");
    reveal_strlit("==");
    lemma_find_from(t, "=="@, 0);
    assert forall|k: int| 0 <= k implies !#[trigger] occurs_at(t, "=="@, k) by {
        if occurs_at(t, "=="@, k) {
            assert(t.subrange(k, k + 2)[0] == '=');
            assert(t.subrange(k, k + 2)[1] == '=');
            assert(t[k] == '=');
            assert(t[k + 1] == '=');
            if k < a.len() {
                assert(t[k] == a[k]);
            } else if k == a.len() {
                assert(t[k] == '!');
            } else {
                assert(t[k + 1] == b[k + 1 - a.len() - 2]);
            }
        }
    }
}

/// A text with `c` at `i` is none of the boolean literals.
pub proof fn lemma_not_literal(t: Seq<char>, i: int, c: char)
    requires
        0 <= i < t.len(),
        t[i] == c,
        c == '=' || c == '!',
    ensures
        t != "true"@, t != "True"@, t != "false"@, t != "False"@,
{
    reveal_strlit("true");
    reveal_strlit("True");
    reveal_strlit("false");
    reveal_strlit("False");
    if t == "true"@ || t == "True"@ || t == "false"@ || t == "False"@ {
        assert(t[i] != c);
    }
}

/// `l != r` holds exactly where `l == r` does not, for operands that hold
/// no `=` and no `!`.
pub proof fn law_inequality_negates_equality(l: Seq<char>, r: Seq<char>)
    requires
        lacks(l, '='), lacks(l, '!'), lacks(r, '='), lacks(r, '!'),
    ensures
        condition_value(l + "=="@ + r) is Some,
        condition_value(l + "!="@ + r) == Some(!(condition_value(l + "=="@ + r)->0)),
{
    reveal_strlit("==");
    reveal_strlit("!=");
    let a = trim_start(l);
    let b = trim_end(r);
    lemma_trim_start_suffix(l);
    lemma_trim_end_prefix(r);
    assert forall|i: int| 0 <= i < a.len() implies a[i] != '=' && a[i] != '!' by {
        assert(a[i] == l[l.len() - a.len() + i]);
    }
    assert forall|i: int| 0 <= i < b.len() implies b[i] != '=' && b[i] != '!' by {
        assert(b[i] == r[i]);
    }
    lemma_comparison_trim(l, r, "=="@);
    lemma_comparison_trim(l, r, "!="@);
    let t1 = a + "=="@ + b;
    let t2 = a + "!="@ + b;
    assert(t1[a.len() as int] == '=');
    assert(t2[a.len() as int] == '!');
    lemma_not_literal(t1, a.len() as int, '=');
    lemma_not_literal(t2, a.len() as int, '!');
    lemma_operator_found(a, b, "=="@, t1);
    lemma_operator_found(a, b, "!="@, t2);
    lemma_no_double_equals(a, b, t2);
}

} // verus!
