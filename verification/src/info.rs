//! What the `info` command shows that is computed: the rows in which the
//! contributors are listed.
use vstd::prelude::*;
use crate::templating::{lines, lines_exec};
use crate::text::{chars_of, string_of, push_str, push_all, trim, trim_chars, join, views};

verus! {

/// The lines of `ls` that are not blank.
pub open spec fn non_blank(ls: Seq<Seq<char>>) -> Seq<Seq<char>>
    decreases ls.len(),
{
    if ls.len() == 0 {
        Seq::empty()
    } else {
        let prev = non_blank(ls.drop_last());
        if trim(ls.last()).len() > 0 { prev.push(ls.last()) } else { prev }
    }
}

/// Names four to a row, joined by `", "`.
pub open spec fn rows_of(names: Seq<Seq<char>>) -> Seq<Seq<char>>
    decreases names.len(),
{
    if names.len() == 0 {
        Seq::empty()
    } else if names.len() <= 4 {
        seq![join(names, ", "@)]
    } else {
        seq![join(names.take(4), ", "@)] + rows_of(names.skip(4))
    }
}

fn join_chars(parts: &[Vec<char>], from: usize, to: usize) -> (r: Vec<char>)
    requires
        from <= to <= parts@.len(),
    ensures
        r@ == join(views(parts@).subrange(from as int, to as int), ", "@),
{
    let ghost pv = views(parts@).subrange(from as int, to as int);
    let mut t: Vec<char> = Vec::new();
    let mut i: usize = from;
    assert(pv.subrange(0, 0) =~= Seq::<Seq<char>>::empty());
    while i < to
        invariant
            from <= i <= to,
            to <= parts@.len(),
            pv == views(parts@).subrange(from as int, to as int),
            t@ == join(pv.subrange(0, i - from), ", "@),
        decreases to - i,
    {
        let ghost pre = pv.subrange(0, i - from);
        let ghost next = pv.subrange(0, i - from + 1);
        assert(next.drop_last() =~= pre);
        assert(next.last() == parts@[i as int]@);
        if i > from {
            push_str(&mut t, ", ");
        }
        push_all(&mut t, parts[i].as_slice());
        proof {
            if i == from {
                assert(join(pre, ", "@) =~= Seq::<char>::empty());
                assert(t@ =~= next[0]);
            } else {
                assert(t@ =~= join(pre, ", "@) + ", "@ + next.last());
            }
        }
        i = i + 1;
    }
    assert(pv.subrange(0, to - from) =~= pv);
    t
}

/// The rows of the contributors listed one per line in `raw`: blank lines
/// left out, four names to a row.
pub fn contributor_rows(raw: &str) -> (r: Vec<String>)
    ensures
        r@.map_values(|s: String| s@) == rows_of(non_blank(lines(raw@))),
{
    let cs = chars_of(raw);
    let ls = lines_exec(cs.as_slice());
    let ghost lv = views(ls@);
    let mut names: Vec<Vec<char>> = Vec::new();
    let mut i: usize = 0;
    assert(lv.subrange(0, 0) =~= Seq::<Seq<char>>::empty());
    while i < ls.len()
        invariant
            i <= ls@.len(),
            lv == views(ls@),
            views(names@) == non_blank(lv.subrange(0, i as int)),
        decreases ls@.len() - i,
    {
        assert(lv.subrange(0, i + 1).drop_last() =~= lv.subrange(0, i as int));
        assert(lv.subrange(0, i + 1).last() == ls@[i as int]@);
        let t = trim_chars(ls[i].as_slice());
        if t.len() > 0 {
            let ghost before = names@;
            let l = crate::text::slice_chars(ls[i].as_slice(), 0, ls[i].len());
            let ghost lg = l;
            names.push(l);
            assert(l@ =~= ls@[i as int]@);
            assert(views(names@) =~= views(before).push(lg@));
        }
        i = i + 1;
    }
    assert(lv.subrange(0, ls@.len() as int) =~= lv);
    let ghost nv = views(names@);
    let n = names.len();
    let mut rows: Vec<String> = Vec::new();
    let mut k: usize = 0;
    assert(nv.skip(0) =~= nv);
    while k < n
        invariant
            k <= n,
            n == names@.len(),
            nv == views(names@),
            rows@.map_values(|s: String| s@) + rows_of(nv.skip(k as int)) == rows_of(nv),
        decreases n - k,
    {
        let ghost rest = nv.skip(k as int);
        let end = if n - k <= 4 { n } else { k + 4 };
        let row = join_chars(names.as_slice(), k, end);
        let ghost before = rows@;
        rows.push(string_of(row.as_slice()));
        proof {
            assert(rows@.map_values(|s: String| s@) =~= before.map_values(|s: String| s@).push(row@));
            if n - k <= 4 {
                assert(nv.subrange(k as int, end as int) =~= rest);
                assert(nv.skip(end as int) =~= Seq::<Seq<char>>::empty());
            } else {
                assert(nv.subrange(k as int, end as int) =~= rest.take(4));
                assert(rest.skip(4) =~= nv.skip(end as int));
            }
            assert(seq![row@] + rows_of(nv.skip(end as int)) =~= rows_of(rest));
        }
        k = end;
    }
    assert(nv.skip(n as int) =~= Seq::<Seq<char>>::empty());
    rows
}

} // verus!
