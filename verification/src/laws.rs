//! Properties of the library as a whole, proved over the spec functions
//! that the functions' contracts use.

use vstd::prelude::*;
use crate::text::{
    is_ws, trim, trim_start, trim_end, lines, after_last, replace, starts_with, lemma_lines_no_newline,
    lemma_lines_cons, newline_index,
};
use crate::history::{field_of, field_text, colon_found, mail_body_of, server_path_of, mentions};
use crate::pattern::{colon_match, is_ascii_text};
use crate::text::contains;
use crate::numfmt::{decimal, pad_left, lemma_decimal_len, pow10};
use crate::section::{
    marker, equals_line, first_index, join_lines, join_html, html_line, section_start, section_tail,
    has_section, section_closed, section_lines, latest_content, latest_content_html,
    lemma_first_index_is, lemma_first_index_bounds,
};

verus! {

/// The lines joined with line ends start with the first line and its line
/// end.
pub proof fn lemma_join_lines_front(ls: Seq<Seq<char>>)
    requires
        ls.len() > 0,
    ensures
        join_lines(ls) == ls[0] + seq!['\n'] + join_lines(ls.drop_first()),
    decreases ls.len(),
{
    if ls.len() == 1 {
        assert(ls.drop_last() =~= Seq::<Seq<char>>::empty());
        assert(ls.drop_first() =~= Seq::<Seq<char>>::empty());
        assert(join_lines(ls) =~= ls[0] + seq!['\n'] + join_lines(ls.drop_first()));
    } else {
        lemma_join_lines_front(ls.drop_last());
        assert(ls.drop_last().drop_first() =~= ls.drop_first().drop_last());
        assert(ls.drop_first().last() == ls.last());
        assert(ls.drop_last()[0] == ls[0]);
        assert(join_lines(ls) =~= ls[0] + seq!['\n'] + join_lines(ls.drop_first()));
    }
}

/// Splitting lines joined with line ends gives the lines back, when no line
/// holds a line end or a carriage return.
pub proof fn lemma_lines_of_join(ls: Seq<Seq<char>>, rest: Seq<char>)
    requires
        forall|i: int| 0 <= i < ls.len() ==> !(#[trigger] ls[i]).contains('\n') && !ls[i].contains('\r'),
    ensures
        lines(join_lines(ls) + rest) == ls + lines(rest),
    decreases ls.len(),
{
    if ls.len() == 0 {
        assert(join_lines(ls) + rest =~= rest);
        assert(ls + lines(rest) =~= lines(rest));
    } else {
        lemma_join_lines_front(ls);
        let tail = join_lines(ls.drop_first()) + rest;
        assert(join_lines(ls) + rest =~= ls[0] + seq!['\n'] + tail);
        let l = ls[0];
        assert(!l.contains('\n'));
        if l.len() > 0 && l.last() == '\r' {
            assert(l.contains('\r'));
        }
        lemma_lines_cons(l, tail);
        assert forall|i: int| 0 <= i < ls.drop_first().len() implies !(#[trigger] ls.drop_first()[i]).contains('\n')
            && !ls.drop_first()[i].contains('\r') by {
            assert(ls.drop_first()[i] == ls[i + 1]);
        }
        lemma_lines_of_join(ls.drop_first(), rest);
        assert(ls =~= seq![l] + ls.drop_first());
        assert(seq![l] + (ls.drop_first() + lines(rest)) =~= ls + lines(rest));
    }
}

/// The marker line is a line of its own.
proof fn lemma_lines_marker()
    ensures
        lines(marker()) == seq![marker()],
{
    reveal_strlit(";-----------------------------------------------------------------------;");
    let m = marker();
    assert(forall|j: int| 0 <= j < m.len() ==> m[j] != '\n');
    crate::text::lemma_newline_index_bounds(m);
    if newline_index(m) < m.len() {
        assert(m[newline_index(m) as int] == '\n');
    }
}

/// No line of `t` holds a carriage return (a CRLF text qualifies: its line
/// ends are taken off whole).
pub open spec fn no_cr_lines(t: Seq<char>) -> bool {
    forall|i: int| 0 <= i < lines(t).len() ==> !(#[trigger] lines(t)[i]).contains('\r')
}

/// The lines of the latest section, split again, are the section's lines,
/// then the closing marker line when there is one (for texts without
/// carriage returns in its lines).
proof fn lemma_lines_of_latest(t: Seq<char>)
    requires
        no_cr_lines(t),
        has_section(lines(t)),
    ensures
        lines(latest_content(t)) == section_lines(lines(t)) + (if section_closed(lines(t)) {
            seq![marker()]
        } else {
            Seq::<Seq<char>>::empty()
        }),
{
    let ls = lines(t);
    let p = equals_line(marker());
    let k = section_start(ls);
    lemma_first_index_bounds(ls, p);
    lemma_first_index_bounds(ls.skip(k + 1int), p);
    let s = section_lines(ls);
    lemma_lines_no_newline(t);
    assert forall|i: int| 0 <= i < s.len() implies !(#[trigger] s[i]).contains('\n') && !s[i].contains('\r') by {
        assert(s[i] == ls[k + i]);
    }
    let x = if section_closed(ls) { marker() } else { Seq::<char>::empty() };
    lemma_lines_of_join(s, x);
    lemma_lines_marker();
    assert(latest_content(t) == join_lines(s) + x);
    if !section_closed(ls) {
        assert(lines(x) =~= Seq::<Seq<char>>::empty());
    }
}

/// Taking the latest section of the latest section gives it back, in both
/// the plain and the HTML form: the section can stand in for the whole
/// history. It holds for texts whose lines hold no carriage return, CRLF
/// texts among them (a line that ends in a lone one would lose it).
pub proof fn law_latest_content_reparse(t: Seq<char>)
    requires
        no_cr_lines(t),
    ensures
        latest_content(latest_content(t)) == latest_content(t),
        latest_content_html(latest_content(t)) == latest_content_html(t),
{
    let ls = lines(t);
    let p = equals_line(marker());
    if !has_section(ls) {
        assert(latest_content(t) == Seq::<char>::empty());
        assert(lines(Seq::<char>::empty()) == Seq::<Seq<char>>::empty());
        assert(first_index(Seq::<Seq<char>>::empty(), p) == 0);
    } else {
        let k = section_start(ls);
        let m = section_tail(ls);
        let rest = ls.skip(k + 1int);
        lemma_first_index_bounds(ls, p);
        lemma_first_index_bounds(rest, p);
        let s = section_lines(ls);
        lemma_lines_of_latest(t);
        let big = lines(latest_content(t));
        // the section starts the re-split lines
        assert(s[0] == ls[k as int]);
        assert(big[0] == marker());
        lemma_first_index_is(big, p, 0);
        let brest = big.skip(1);
        assert forall|j: int| 0 <= j < m implies !p(brest[j]) by {
            assert(brest[j] == s[j + 1]);
            assert(s[j + 1] == rest[j]);
        }
        if section_closed(ls) {
            assert(brest[m as int] == marker());
            lemma_first_index_is(brest, p, m as int);
            assert(section_lines(big) =~= s);
        } else {
            assert(brest.len() == m);
            lemma_first_index_is(brest, p, m as int);
            assert(section_lines(big) =~= s);
        }
    }
}

/// A text without spaces is left as it is by replacing its spaces.
proof fn lemma_replace_no_space(s: Seq<char>, rep: Seq<char>)
    requires
        !s.contains(' '),
    ensures
        replace(s, " "@, rep) == s,
    decreases s.len(),
{
    reveal_strlit(" ");
    if s.len() >= 1 {
        assert(s.take(1) != " "@) by {
            assert(s.take(1)[0] == s[0]);
        }
        assert(!s.drop_first().contains(' ')) by {
            if s.drop_first().contains(' ') {
                let j = choose|j: int| 0 <= j < s.drop_first().len() && s.drop_first()[j] == ' ';
                assert(s[j + 1] == ' ');
            }
        }
        lemma_replace_no_space(s.drop_first(), rep);
        assert(s =~= seq![s[0]] + s.drop_first());
    }
}

/// The marker line, rendered as HTML, is itself followed by `<br>`.
proof fn lemma_html_marker()
    ensures
        html_line(marker()) == marker() + "<br>"@,
{
    reveal_strlit(";-----------------------------------------------------------------------;");
    let m = marker();
    assert(!is_ws(m[0]));
    assert(!is_ws(m.last()));
    lemma_trim_fixed(m);
    assert(!m.contains(' ')) by {
        if m.contains(' ') {
            let j = choose|j: int| 0 <= j < m.len() && m[j] == ' ';
            assert(m[j] != ' ');
        }
    }
    lemma_replace_no_space(m, "&nbsp;"@);
}

/// The HTML form of the latest section is its plain form rendered line by
/// line: each line of the plain section, through `html_line`, one after the
/// other. It holds for texts whose lines hold no carriage return, CRLF texts
/// among them.
pub proof fn law_html_is_plain_rendered(t: Seq<char>)
    requires
        no_cr_lines(t),
    ensures
        latest_content_html(t) == join_html(lines(latest_content(t))),
{
    let ls = lines(t);
    if !has_section(ls) {
        assert(latest_content(t) == Seq::<char>::empty());
        assert(lines(Seq::<char>::empty()) == Seq::<Seq<char>>::empty());
    } else {
        lemma_lines_of_latest(t);
        let s = section_lines(ls);
        if section_closed(ls) {
            let big = s + seq![marker()];
            assert(big.drop_last() =~= s);
            assert(big.last() == marker());
            lemma_html_marker();
            assert(join_html(big) == join_html(s) + html_line(marker()));
            assert(join_html(big) =~= join_html(s) + marker() + "<br>"@);
        } else {
            assert(s + Seq::<Seq<char>>::empty() =~= s);
        }
    }
}

/// The plain and the HTML forms of the latest section are empty together,
/// exactly when the history has no marker line.
pub proof fn law_latest_content_empty(t: Seq<char>)
    ensures
        latest_content(t).len() == 0 <==> !has_section(lines(t)),
        latest_content_html(t).len() == 0 <==> !has_section(lines(t)),
{
    let ls = lines(t);
    if has_section(ls) {
        let s = section_lines(ls);
        lemma_first_index_bounds(ls, equals_line(marker()));
        lemma_first_index_bounds(ls.skip(section_start(ls) + 1int), equals_line(marker()));
        assert(s.len() > 0);
        assert(join_lines(s).len() > 0);
        reveal_strlit("<br>");
        assert(html_line(s.last()).len() > 0);
        assert(join_html(s).len() > 0);
    }
}

/// The latest section, when there is one, starts with the marker line and
/// its line end.
pub proof fn law_latest_content_starts_with_marker(t: Seq<char>)
    requires
        has_section(lines(t)),
    ensures
        starts_with(latest_content(t), marker() + seq!['\n']),
{
    let ls = lines(t);
    let s = section_lines(ls);
    lemma_first_index_bounds(ls, equals_line(marker()));
    lemma_first_index_bounds(ls.skip(section_start(ls) + 1int), equals_line(marker()));
    lemma_join_lines_front(s);
    let c = latest_content(t);
    let pre = marker() + seq!['\n'];
    assert(c.subrange(0, pre.len() as int) =~= pre);
}

/// The piece after the last separator holds no separator, and the text is
/// what comes before it followed by it, with a separator in between
/// whenever anything comes before.
pub proof fn law_after_last(s: Seq<char>, sep: char)
    ensures
        !after_last(s, sep).contains(sep),
        after_last(s, sep).len() <= s.len(),
        s == s.take(s.len() - after_last(s, sep).len()) + after_last(s, sep),
        after_last(s, sep).len() < s.len() ==> s[s.len() - after_last(s, sep).len() - 1] == sep,
    decreases s.len(),
{
    if s.len() > 0 && s.last() != sep {
        law_after_last(s.drop_last(), sep);
        let a = after_last(s.drop_last(), sep);
        assert(after_last(s, sep) == a.push(s.last()));
        if a.push(s.last()).contains(sep) {
            let j = choose|j: int| 0 <= j < a.push(s.last()).len() && a.push(s.last())[j] == sep;
            if j < a.len() {
                assert(a.contains(sep));
            }
        }
        let d = s.drop_last();
        assert(d =~= d.take(d.len() - a.len()) + a);
        assert(s.take(s.len() - after_last(s, sep).len()) =~= d.take(d.len() - a.len()));
        assert(s =~= d + seq![s.last()]);
        assert(s =~= s.take(s.len() - after_last(s, sep).len()) + after_last(s, sep));
        if after_last(s, sep).len() < s.len() {
            assert(s[s.len() - after_last(s, sep).len() - 1] == s.drop_last()[s.drop_last().len() - a.len() - 1]);
        }
    } else if s.len() > 0 {
        assert(s =~= s.take(s.len() as int) + Seq::<char>::empty());
    } else {
        assert(s =~= s.take(0) + s);
    }
}

/// Replacing every slash by a back slash leaves no slash.
pub proof fn law_no_slash_left(s: Seq<char>)
    ensures
        !replace(s, "/"@, "\\"@).contains('/'),
    decreases s.len(),
{
    reveal_strlit("/");
    reveal_strlit("\\");
    assert("/"@ =~= seq!['/']);
    let r = replace(s, "/"@, "\\"@);
    if s.len() >= 1 {
        if s.take(1) == "/"@ {
            law_no_slash_left(s.skip(1));
            assert(r == "\\"@ + replace(s.skip(1), "/"@, "\\"@));
            if r.contains('/') {
                let j = choose|j: int| 0 <= j < r.len() && r[j] == '/';
                if j > 0 {
                    assert(replace(s.skip(1), "/"@, "\\"@)[j - 1] == '/');
                }
            }
        } else {
            law_no_slash_left(s.drop_first());
            assert(s.take(1) =~= seq![s[0]]);
            assert(s[0] != '/');
            assert(r == seq![s[0]] + replace(s.drop_first(), "/"@, "\\"@));
            if r.contains('/') {
                let j = choose|j: int| 0 <= j < r.len() && r[j] == '/';
                if j > 0 {
                    assert(replace(s.drop_first(), "/"@, "\\"@)[j - 1] == '/');
                }
            }
        }
    }
}

/// Fields and mail bodies read from the latest section are those read from
/// the whole history (for texts whose lines hold no carriage return): a
/// caller may keep the section and pass it where the history is asked for.
pub proof fn law_section_stands_for_history(name: Seq<char>, link: Seq<char>, t: Seq<char>)
    requires
        no_cr_lines(t),
    ensures
        field_of(name, latest_content(t)) == field_of(name, t),
        mail_body_of(link, latest_content(t)) == mail_body_of(link, t),
{
    law_latest_content_reparse(t);
}

/// A month or a day (1 to 99) takes exactly two characters in the subject.
pub proof fn law_two_digit_fields(v: nat)
    requires
        1 <= v <= 99,
    ensures
        pad_left(decimal(v), 2, '0').len() == 2,
{
    assert(pow10(2) == 100) by {
        reveal_with_fuel(pow10, 3);
    }
    lemma_decimal_len(v, 2);
}

/// The first character left by `trim_start`, if any, is not white space.
proof fn lemma_trim_start_first(s: Seq<char>)
    ensures
        trim_start(s).len() > 0 ==> !is_ws(trim_start(s)[0]),
        trim_start(s).len() <= s.len(),
        trim_start(s) == s.skip(s.len() - trim_start(s).len()),
    decreases s.len(),
{
    if s.len() > 0 && is_ws(s[0]) {
        lemma_trim_start_first(s.drop_first());
        assert(s.drop_first().skip(s.drop_first().len() - trim_start(s).len()) =~= s.skip(
            s.len() - trim_start(s).len(),
        ));
    } else {
        assert(s.skip(0) =~= s);
    }
}

/// `trim_end` keeps a prefix whose last character, if any, is not white
/// space.
proof fn lemma_trim_end_last(s: Seq<char>)
    ensures
        trim_end(s).len() > 0 ==> !is_ws(trim_end(s).last()),
        trim_end(s).len() <= s.len(),
        trim_end(s) == s.take(trim_end(s).len() as int),
    decreases s.len(),
{
    if s.len() > 0 && is_ws(s.last()) {
        lemma_trim_end_last(s.drop_last());
        assert(s.drop_last().take(trim_end(s).len() as int) =~= s.take(trim_end(s).len() as int));
    } else {
        assert(s.take(s.len() as int) =~= s);
    }
}

/// A text that neither starts nor ends with white space is its own trim.
proof fn lemma_trim_fixed(s: Seq<char>)
    requires
        s.len() > 0,
        !is_ws(s[0]),
        !is_ws(s.last()),
    ensures
        trim(s) == s,
{
}

/// The server folder read from a list is empty or ends with a back slash,
/// and reading it again as a list gives it back unchanged.
pub proof fn law_server_path_stable(t: Seq<char>)
    ensures
        server_path_of(t).len() == 0 || server_path_of(t).last() == '\\',
        server_path_of(server_path_of(t)) == server_path_of(t),
{
    let r = server_path_of(t);
    let ls = lines(t);
    if r.len() == 0 {
        assert(lines(r) =~= Seq::<Seq<char>>::empty()) by {
            assert(r =~= Seq::<char>::empty());
        }
    } else {
        lemma_lines_no_newline(t);
        let l = ls[0];
        let u = trim_start(l);
        let tt = trim(l);
        lemma_trim_start_first(l);
        lemma_trim_end_last(u);
        assert(tt.len() > 0);
        assert(tt[0] == u[0]);
        assert(!is_ws(tt[0]));
        assert(!is_ws(tt.last()));
        assert(!l.contains('\n'));
        assert(!tt.contains('\n')) by {
            if tt.contains('\n') {
                let j = choose|j: int| 0 <= j < tt.len() && #[trigger] tt[j] == '\n';
                assert(tt[j] == u[j]);
                assert(u[j] == l[l.len() - u.len() + j]);
            }
        }
        assert(!r.contains('\n')) by {
            if r.contains('\n') {
                let j = choose|j: int| 0 <= j < r.len() && #[trigger] r[j] == '\n';
                if j < tt.len() {
                    assert(r[j] == tt[j]);
                }
            }
        }
        assert(r[0] == tt[0]);
        assert(!is_ws(r.last()));
        lemma_trim_fixed(r);
        crate::text::lemma_newline_index_bounds(r);
        if newline_index(r) < r.len() {
            assert(r[newline_index(r) as int] == '\n');
        }
        assert(lines(r) == seq![r]);
    }
}

/// A text without colons is left as it is by taking its colons out.
proof fn lemma_replace_no_colon(s: Seq<char>)
    requires
        !s.contains(':'),
    ensures
        replace(s, ":"@, seq![]) == s,
    decreases s.len(),
{
    reveal_strlit(":");
    if s.len() >= 1 {
        assert(s.take(1) != ":"@) by {
            assert(s.take(1)[0] == s[0]);
        }
        assert(!s.drop_first().contains(':')) by {
            if s.drop_first().contains(':') {
                let j = choose|j: int| 0 <= j < s.drop_first().len() && s.drop_first()[j] == ':';
                assert(s[j + 1] == ':');
            }
        }
        lemma_replace_no_colon(s.drop_first());
        assert(s =~= seq![s[0]] + s.drop_first());
    }
}

/// A field is read from the first line of the latest section that names it,
/// whatever the later lines say: when line `i` of the section (plain form)
/// is the first that contains `name`, the field is what the colon pattern
/// finds on line `i`. On an ASCII line that is the text after the line's
/// last colon, trimmed, when that text is not empty and made only of the
/// pattern's characters; otherwise the field is empty.
pub proof fn law_field_from_first_naming_line(name: Seq<char>, t: Seq<char>, i: int)
    requires
        0 <= i < lines(latest_content(t)).len(),
        contains(lines(latest_content(t))[i], name),
        forall|j: int| 0 <= j < i ==> !contains(#[trigger] lines(latest_content(t))[j], name),
    ensures
        field_of(name, t) == field_text(colon_found(lines(latest_content(t))[i])),
        ({
            let l = lines(latest_content(t))[i];
            is_ascii_text(l) ==> field_of(name, t) == (if colon_match(l) is Some {
                trim(after_last(l, ':'))
            } else {
                Seq::<char>::empty()
            })
        }),
{
    let ls = lines(latest_content(t));
    let p = mentions(name);
    assert forall|j: int| 0 <= j < i implies !p(ls[j]) by {
        assert(!contains(ls[j], name));
    }
    assert(p(ls[i]));
    lemma_first_index_is(ls, p, i);
    let l = ls[i];
    if is_ascii_text(l) && colon_match(l) is Some {
        let v = after_last(l, ':');
        law_after_last(l, ':');
        lemma_replace_no_colon(v);
        reveal_strlit(":");
        assert(seq![':'] + v =~= ":"@ + v);
        assert((":"@ + v).take(1) =~= ":"@);
        assert((":"@ + v).skip(1) =~= v);
    }
}

/// A field that no line of the latest section names is empty.
pub proof fn law_unnamed_field_is_empty(name: Seq<char>, t: Seq<char>)
    requires
        forall|j: int| 0 <= j < lines(latest_content(t)).len() ==> !contains(#[trigger] lines(latest_content(t))[j], name),
    ensures
        field_of(name, t).len() == 0,
{
    let ls = lines(latest_content(t));
    let p = mentions(name);
    assert forall|j: int| 0 <= j < ls.len() implies !p(ls[j]) by {
        assert(!contains(ls[j], name));
    }
    lemma_first_index_is(ls, p, ls.len() as int);
}

/// The server folder is the whole first line of the server list, trimmed:
/// nothing of it is dropped, and a back slash is added when it does not end
/// with one. A list without lines, or whose first line is blank, names no
/// folder.
pub proof fn law_server_path_is_first_line(t: Seq<char>)
    ensures
        lines(t).len() == 0 ==> server_path_of(t).len() == 0,
        lines(t).len() > 0 && trim(lines(t)[0]).len() == 0 ==> server_path_of(t).len() == 0,
        lines(t).len() > 0 && trim(lines(t)[0]).len() > 0 ==> ({
            let f = trim(lines(t)[0]);
            let r = server_path_of(t);
            &&& r.take(f.len() as int) == f
            &&& r.last() == '\\'
            &&& f.last() == '\\' ==> r == f
            &&& f.last() != '\\' ==> r == f + seq!['\\']
        }),
{
    if lines(t).len() > 0 && trim(lines(t)[0]).len() > 0 {
        let f = trim(lines(t)[0]);
        assert(f.push('\\') =~= f + seq!['\\']);
        assert(f.push('\\').take(f.len() as int) =~= f);
        assert(f.take(f.len() as int) =~= f);
    }
}

} // verus!
