//! The latest section of a `History.txt`.
//!
//! A history file lists releases newest first; each release begins with a
//! marker line of dashes between semicolons. The latest section is the text
//! from the first marker line up to the next one.

use vstd::prelude::*;
use crate::text::{lines, trim, replace, views, split_lines, trimmed, replaced, to_chars, push_all, chars_eq};

verus! {

/// The marker line that opens each release section.
pub open spec fn marker() -> Seq<char> {
    ";-----------------------------------------------------------------------;"@
}

/// The predicate "equals `x`" on lines.
pub open spec fn equals_line(x: Seq<char>) -> spec_fn(Seq<char>) -> bool {
    |l: Seq<char>| l == x
}

/// The index of the first line that satisfies `p`, or `ls.len()` when none does.
pub open spec fn first_index(ls: Seq<Seq<char>>, p: spec_fn(Seq<char>) -> bool) -> nat
    decreases ls.len(),
{
    if ls.len() == 0 {
        0
    } else if p(ls[0]) {
        0
    } else {
        1 + first_index(ls.drop_first(), p)
    }
}

/// The lines, each followed by `'\n'`.
pub open spec fn join_lines(ls: Seq<Seq<char>>) -> Seq<char>
    decreases ls.len(),
{
    if ls.len() == 0 {
        seq![]
    } else {
        join_lines(ls.drop_last()) + ls.last() + seq!['\n']
    }
}

/// A line in the HTML rendering: a blank line becomes `<br>`, any other has
/// its spaces turned into `&nbsp;` and is followed by `<br>`.
pub open spec fn html_line(l: Seq<char>) -> Seq<char> {
    if trim(l).len() == 0 {
        "<br>"@
    } else {
        replace(l, " "@, "&nbsp;"@) + "<br>"@
    }
}

/// The HTML renderings of the lines, one after the other.
pub open spec fn join_html(ls: Seq<Seq<char>>) -> Seq<char>
    decreases ls.len(),
{
    if ls.len() == 0 {
        seq![]
    } else {
        join_html(ls.drop_last()) + html_line(ls.last())
    }
}

/// Index of the first marker line.
pub open spec fn section_start(ls: Seq<Seq<char>>) -> nat {
    first_index(ls, equals_line(marker()))
}

/// Number of lines after the first marker line before the next marker line
/// (or the end).
pub open spec fn section_tail(ls: Seq<Seq<char>>) -> nat {
    first_index(ls.skip(section_start(ls) + 1int), equals_line(marker()))
}

/// The text has a marker line.
pub open spec fn has_section(ls: Seq<Seq<char>>) -> bool {
    section_start(ls) < ls.len()
}

/// A second marker line closes the latest section.
pub open spec fn section_closed(ls: Seq<Seq<char>>) -> bool {
    has_section(ls) && section_start(ls) + 1 + section_tail(ls) < ls.len()
}

/// The lines of the latest section: the first marker line and the lines after
/// it, up to the next marker line or the end.
pub open spec fn section_lines(ls: Seq<Seq<char>>) -> Seq<Seq<char>> {
    ls.subrange(section_start(ls) as int, section_start(ls) + 1int + section_tail(ls))
}

/// The latest section of a history text as plain text: its lines, each ended
/// by `'\n'`, then the closing marker line (without line end) when there is
/// one; empty when the text has no marker line.
pub open spec fn latest_content(text: Seq<char>) -> Seq<char> {
    let ls = lines(text);
    if !has_section(ls) {
        seq![]
    } else if section_closed(ls) {
        join_lines(section_lines(ls)) + marker()
    } else {
        join_lines(section_lines(ls))
    }
}

/// The latest section of a history text as HTML: each line rendered by
/// `html_line`, then the closing marker line and `<br>` when there is one;
/// empty when the text has no marker line.
pub open spec fn latest_content_html(text: Seq<char>) -> Seq<char> {
    let ls = lines(text);
    if !has_section(ls) {
        seq![]
    } else if section_closed(ls) {
        join_html(section_lines(ls)) + marker() + "<br>"@
    } else {
        join_html(section_lines(ls))
    }
}

/// `first_index` is the position of the first line that satisfies the
/// predicate.
pub proof fn lemma_first_index_is(ls: Seq<Seq<char>>, p: spec_fn(Seq<char>) -> bool, m: int)
    requires
        0 <= m <= ls.len(),
        forall|j: int| 0 <= j < m ==> !p(ls[j]),
        m == ls.len() || p(ls[m]),
    ensures
        first_index(ls, p) == m,
    decreases m,
{
    if m > 0 {
        lemma_first_index_is(ls.drop_first(), p, m - 1);
    }
}

/// `first_index` lies within the lines, no earlier line satisfies the
/// predicate, and the line at it does.
pub proof fn lemma_first_index_bounds(ls: Seq<Seq<char>>, p: spec_fn(Seq<char>) -> bool)
    ensures
        first_index(ls, p) <= ls.len(),
        forall|j: int| 0 <= j < first_index(ls, p) ==> !p(ls[j]),
        first_index(ls, p) < ls.len() ==> p(ls[first_index(ls, p) as int]),
    decreases ls.len(),
{
    if ls.len() > 0 && !p(ls[0]) {
        lemma_first_index_bounds(ls.drop_first(), p);
        assert forall|j: int| 0 <= j < first_index(ls, p) implies !p(ls[j]) by {
            if j > 0 {
                assert(ls[j] == ls.drop_first()[j - 1]);
            }
        }
    }
}

/// The marker line.
pub fn capture_line() -> (v: Vec<char>)
    ensures
        v@ == marker(),
{
    to_chars(";-----------------------------------------------------------------------;")
}

/// The HTML rendering of one line.
pub fn html_line_exec(l: &[char]) -> (r: Vec<char>)
    ensures
        r@ == html_line(l@),
{
    let t = trimmed(l);
    if t.len() == 0 {
        to_chars("<br>")
    } else {
        let sp = to_chars(" ");
        let nb = to_chars("&nbsp;");
        proof {
            reveal_strlit(" ");
        }
        let mut r = replaced(l, sp.as_slice(), nb.as_slice());
        crate::text::push_str(&mut r, "<br>");
        r
    }
}

/// The latest section of `text`, in plain form (`html` false) or in HTML
/// form (`html` true).
pub fn latest_section(text: &[char], html: bool) -> (r: Vec<char>)
    ensures
        !html ==> r@ == latest_content(text@),
        html ==> r@ == latest_content_html(text@),
{
    let ls = split_lines(text);
    let ghost g = views(ls@);
    let m = capture_line();
    let ghost p = equals_line(marker());
    let n = ls.len();
    let mut out: Vec<char> = Vec::new();
    let mut flag: u8 = 0;
    let mut i: usize = 0;
    proof {
        lemma_first_index_bounds(g, p);
    }
    while i < n
        invariant
            n == ls@.len(),
            g == views(ls@),
            g == lines(text@),
            p == equals_line(marker()),
            m@ == marker(),
            i <= n,
            flag <= 1,
            first_index(g, p) <= g.len(),
            forall|j: int| 0 <= j < first_index(g, p) ==> !p(g[j]),
            first_index(g, p) < g.len() ==> p(g[first_index(g, p) as int]),
            flag == 0 ==> first_index(g, p) >= i && out@ == Seq::<char>::empty(),
            flag == 1 ==> {
                &&& first_index(g, p) < i
                &&& forall|j: int| first_index(g, p) < j < i ==> g[j] != marker()
                &&& !html ==> out@ == join_lines(g.subrange(first_index(g, p) as int, i as int))
                &&& html ==> out@ == join_html(g.subrange(first_index(g, p) as int, i as int))
            },
        decreases n - i,
    {
        let line = &ls[i];
        assert(line@ == g[i as int]);
        let is_marker = chars_eq(line.as_slice(), m.as_slice());
        let ghost k = first_index(g, p);
        if is_marker {
            flag = flag + 1;
        }
        if flag == 1 {
            let ghost before = out@;
            proof {
                if is_marker {
                    // the first marker line is this one
                    assert(p(g[i as int]));
                    assert(k == i);
                    assert(g.subrange(k as int, i as int) =~= Seq::<Seq<char>>::empty());
                }
                assert(g.subrange(k as int, i + 1).drop_last() =~= g.subrange(k as int, i as int));
                assert(g.subrange(k as int, i + 1).last() == g[i as int]);
            }
            if html {
                let h = html_line_exec(line.as_slice());
                push_all(&mut out, h.as_slice());
            } else {
                push_all(&mut out, line.as_slice());
                out.push('\n');
            }
            proof {
                if html {
                    assert(before == join_html(g.subrange(k as int, i as int)));
                    assert(out@ =~= join_html(g.subrange(k as int, i + 1)));
                } else {
                    assert(before == join_lines(g.subrange(k as int, i as int)));
                    assert(out@ =~= join_lines(g.subrange(k as int, i + 1)));
                }
            }
        }
        if flag > 1 {
            push_all(&mut out, m.as_slice());
            if html {
                crate::text::push_str(&mut out, "<br>");
            }
            proof {
                let rest = g.skip(k + 1int);
                assert forall|j: int| 0 <= j < i - k - 1 implies !p(rest[j]) by {
                    assert(rest[j] == g[k + 1 + j]);
                }
                assert(rest[i - k - 1] == g[i as int]);
                lemma_first_index_is(rest, p, i - k - 1);
                assert(section_lines(g) =~= g.subrange(k as int, i as int));
            }
            return out;
        }
        i = i + 1;
    }
    proof {
        let k = first_index(g, p);
        if flag == 1 {
            let rest = g.skip(k + 1int);
            assert forall|j: int| 0 <= j < rest.len() implies !p(rest[j]) by {
                assert(rest[j] == g[k + 1 + j]);
            }
            lemma_first_index_is(rest, p, rest.len() as int);
            assert(section_lines(g) =~= g.subrange(k as int, n as int));
        }
    }
    out
}

} // verus!
