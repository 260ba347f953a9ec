//! Framed messages for the terminal.
use vstd::prelude::*;
use crate::text::{chars_of, push_all, push_str, split_char, split_char_exec, string_of, views};

verus! {

/// Border color options for framed messages.
#[derive(Debug, Clone, Copy)]
pub enum BorderColor {
    Yellow,
    Blue,
    Green,
    Red,
    Cyan,
}

pub open spec fn color_code(c: BorderColor) -> Seq<char> {
    match c {
        BorderColor::Yellow => "\x1b[93m"@,
        BorderColor::Blue => "\x1b[94m"@,
        BorderColor::Green => "\x1b[92m"@,
        BorderColor::Red => "\x1b[91m"@,
        BorderColor::Cyan => "\x1b[96m"@,
    }
}

impl BorderColor {
    /// The ANSI escape code of the color.
    pub fn ansi_code(&self) -> (s: &'static str)
        ensures
            s@ == color_code(*self),
    {
        match self {
            BorderColor::Yellow => "\x1b[93m",
            BorderColor::Blue => "\x1b[94m",
            BorderColor::Green => "\x1b[92m",
            BorderColor::Red => "\x1b[91m",
            BorderColor::Cyan => "\x1b[96m",
        }
    }
}

/// The number of terminal columns that `s` takes.
pub uninterp spec fn display_width(s: Seq<char>) -> nat;

/// `UnicodeWidthStr::width`: the displayed width of `s` in columns, wide
/// characters such as emoji counting two.  The contract names the result
/// and states nothing of the width tables.
#[verifier::external_body]
fn unicode_width(s: &str) -> (w: usize)
    ensures
        w as nat == display_width(s@),
{
    unicode_width::UnicodeWidthStr::width(s)
}

/// `n` copies of `c`.
pub open spec fn repeat(c: char, n: nat) -> Seq<char> {
    Seq::new(n, |i: int| c)
}

/// The largest width of the lines, or 0.
pub open spec fn max_width(ls: Seq<Seq<char>>) -> nat
    decreases ls.len(),
{
    if ls.len() == 0 {
        0
    } else {
        let m = max_width(ls.drop_last());
        let w = display_width(ls.last());
        if w > m { w } else { m }
    }
}

/// The lines of the frame around `message` in `color`: a top border, each
/// line padded to the widest one, and a bottom border.
pub open spec fn box_lines(message: Seq<char>, color: BorderColor) -> Seq<Seq<char>> {
    let ls = split_char(message, '\n');
    let m = max_width(ls);
    let c = color_code(color);
    let reset = "\x1b[0m"@;
    let top = c + "┌"@ + repeat('─', m + 2) + "┐"@ + reset;
    let bottom = c + "└"@ + repeat('─', m + 2) + "┘"@ + reset;
    let body = ls.map_values(|l: Seq<char>| c + "│ "@ + l + repeat(' ', (m - display_width(l)) as nat) + " │"@ + reset);
    seq![top] + body + seq![bottom]
}

fn push_repeat(v: &mut Vec<char>, c: char, n: usize, extra: usize)
    ensures
        final(v)@ == old(v)@ + repeat(c, (n + extra) as nat),
{
    let mut i: usize = 0;
    while i < n
        invariant
            i <= n,
            v@ =~= old(v)@ + repeat(c, i as nat),
        decreases n - i,
    {
        v.push(c);
        i = i + 1;
    }
    let mut j: usize = 0;
    while j < extra
        invariant
            j <= extra,
            v@ =~= old(v)@ + repeat(c, (n + j) as nat),
        decreases extra - j,
    {
        v.push(c);
        j = j + 1;
    }
}

/// The lines that frame `message` in a box of `color`, where the width of
/// wide characters such as emoji is taken into account.
pub fn print_unicode_box(message: &str, color: BorderColor) -> (r: Vec<String>)
    ensures
        r@.map_values(|s: String| s@) == box_lines(message@, color),
{
    let mc = chars_of(message);
    let pieces = split_char_exec(mc.as_slice(), '\n');
    let ghost ls = views(pieces@);
    let mut widths: Vec<usize> = Vec::new();
    let mut m: usize = 0;
    let mut i: usize = 0;
    assert(ls.subrange(0, 0) =~= Seq::<Seq<char>>::empty());
    while i < pieces.len()
        invariant
            i <= pieces@.len(),
            ls == views(pieces@),
            widths@.len() == i,
            forall|j: int| 0 <= j < i ==> #[trigger] widths@[j] as nat == display_width(ls[j]),
            m as nat == max_width(ls.subrange(0, i as int)),
        decreases pieces@.len() - i,
    {
        let s = string_of(pieces[i].as_slice());
        let w = unicode_width(s.as_str());
        assert(ls.subrange(0, i + 1).drop_last() =~= ls.subrange(0, i as int));
        assert(ls.subrange(0, i + 1).last() == ls[i as int]);
        if w > m {
            m = w;
        }
        widths.push(w);
        i = i + 1;
    }
    assert(ls.subrange(0, pieces@.len() as int) =~= ls);
    let code = color.ansi_code();
    let mut out: Vec<String> = Vec::new();
    let mut top = chars_of(code);
    push_str(&mut top, "┌");
    push_repeat(&mut top, '─', m, 2);
    push_str(&mut top, "┐");
    push_str(&mut top, "\x1b[0m");
    out.push(string_of(top.as_slice()));
    let mut k: usize = 0;
    while k < pieces.len()
        invariant
            k <= pieces@.len(),
            ls == views(pieces@),
            widths@.len() == pieces@.len(),
            forall|j: int| 0 <= j < pieces@.len() ==> #[trigger] widths@[j] as nat == display_width(ls[j]),
            m as nat == max_width(ls),
            code@ == color_code(color),
            out@.map_values(|s: String| s@) =~= seq![box_lines(message@, color)[0]] + ls.subrange(0, k as int).map_values(
                |l: Seq<char>| color_code(color) + "│ "@ + l + repeat(' ', (max_width(ls) - display_width(l)) as nat) + " │"@ + "\x1b[0m"@),
        decreases pieces@.len() - k,
    {
        proof {
            lemma_max_width(ls, k as int);
        }
        let mut line = chars_of(code);
        push_str(&mut line, "│ ");
        push_all(&mut line, pieces[k].as_slice());
        push_repeat(&mut line, ' ', m - widths[k], 0);
        push_str(&mut line, " │");
        push_str(&mut line, "\x1b[0m");
        let ghost b = out@;
        let ls_ = string_of(line.as_slice());
        let ghost lg = ls_;
        out.push(ls_);
        assert(out@ =~= b.push(lg));
        assert(ls.subrange(0, k + 1) =~= ls.subrange(0, k as int).push(ls[k as int]));
        assert(out@.map_values(|s: String| s@) =~= b.map_values(|s: String| s@).push(lg@));
        k = k + 1;
    }
    let mut bottom = chars_of(code);
    push_str(&mut bottom, "└");
    push_repeat(&mut bottom, '─', m, 2);
    push_str(&mut bottom, "┘");
    push_str(&mut bottom, "\x1b[0m");
    let ghost b = out@;
    let bs = string_of(bottom.as_slice());
    let ghost bg = bs;
    out.push(bs);
    assert(out@ =~= b.push(bg));
    assert(ls.subrange(0, pieces@.len() as int) =~= ls);
    assert(out@.map_values(|s: String| s@) =~= box_lines(message@, color));
    out
}

proof fn lemma_max_width(ls: Seq<Seq<char>>, k: int)
    requires
        0 <= k < ls.len(),
    ensures
        display_width(ls[k]) <= max_width(ls),
    decreases ls.len(),
{
    if k < ls.len() - 1 {
        lemma_max_width(ls.drop_last(), k);
        assert(ls.drop_last()[k] == ls[k]);
    }
}

} // verus!
