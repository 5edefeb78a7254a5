//! Character-level text primitives with their mathematical meaning.
//!
//! Text is modelled as `Seq<char>`; the executable functions work on
//! `Vec<char>` / `&[char]` and are proved to compute the spec functions.

use vstd::prelude::*;

verus! {

// ---------------------------------------------------------------------------
// Spec functions
// ---------------------------------------------------------------------------

/// The Unicode `White_Space` property, which is what `char::is_whitespace`
/// (and so `str::trim`) tests.
pub open spec fn is_ws(c: char) -> bool {
    let u = c as u32;
    ||| 0x9 <= u <= 0xd
    ||| u == 0x20
    ||| u == 0x85
    ||| u == 0xa0
    ||| u == 0x1680
    ||| 0x2000 <= u <= 0x200a
    ||| u == 0x2028
    ||| u == 0x2029
    ||| u == 0x202f
    ||| u == 0x205f
    ||| u == 0x3000
}

/// `s` without its leading white space.
pub open spec fn trim_start(s: Seq<char>) -> Seq<char>
    decreases s.len(),
{
    if s.len() > 0 && is_ws(s[0]) {
        trim_start(s.drop_first())
    } else {
        s
    }
}

/// `s` without its trailing white space.
pub open spec fn trim_end(s: Seq<char>) -> Seq<char>
    decreases s.len(),
{
    if s.len() > 0 && is_ws(s.last()) {
        trim_end(s.drop_last())
    } else {
        s
    }
}

/// `s` without leading and trailing white space (`str::trim`).
pub open spec fn trim(s: Seq<char>) -> Seq<char> {
    trim_end(trim_start(s))
}

/// Position of the first `'\n'` in `s`, or `s.len()` when there is none.
pub open spec fn newline_index(s: Seq<char>) -> nat
    decreases s.len(),
{
    if s.len() == 0 {
        0
    } else if s[0] == '\n' {
        0
    } else {
        1 + newline_index(s.drop_first())
    }
}

/// A line cut at a `'\n'` loses one `'\r'` just before it.
pub open spec fn strip_cr(l: Seq<char>) -> Seq<char> {
    if l.len() > 0 && l.last() == '\r' {
        l.drop_last()
    } else {
        l
    }
}

/// The lines of a text as `str::lines` yields them: pieces separated by
/// `"\n"` or `"\r\n"`, where a final line ending adds no empty line.
pub open spec fn lines(s: Seq<char>) -> Seq<Seq<char>>
    decreases s.len(),
{
    if s.len() == 0 {
        seq![]
    } else {
        let k = newline_index(s);
        if k >= s.len() {
            seq![s]
        } else {
            seq![strip_cr(s.take(k as int))] + lines(s.skip((k + 1) as int))
        }
    }
}

/// `s` with every non-overlapping occurrence of the non-empty `pat`,
/// scanning from the left, replaced by `rep` (`str::replace`).
pub open spec fn replace(s: Seq<char>, pat: Seq<char>, rep: Seq<char>) -> Seq<char>
    decreases s.len(),
{
    if pat.len() == 0 || s.len() < pat.len() {
        s
    } else if s.take(pat.len() as int) == pat {
        rep + replace(s.skip(pat.len() as int), pat, rep)
    } else {
        seq![s[0]] + replace(s.drop_first(), pat, rep)
    }
}

/// The piece of `s` after the last `sep` (all of `s` when there is none):
/// the last item of `str::split(sep)`.
pub open spec fn after_last(s: Seq<char>, sep: char) -> Seq<char>
    decreases s.len(),
{
    if s.len() == 0 {
        s
    } else if s.last() == sep {
        seq![]
    } else {
        after_last(s.drop_last(), sep).push(s.last())
    }
}

/// `pat` occurs in `s` at position `i`.
pub open spec fn occurs_at(s: Seq<char>, pat: Seq<char>, i: int) -> bool {
    0 <= i && i + pat.len() <= s.len() && s.subrange(i, i + pat.len()) == pat
}

/// `pat` occurs somewhere in `s`.
pub open spec fn contains(s: Seq<char>, pat: Seq<char>) -> bool {
    exists|i: int| occurs_at(s, pat, i)
}

/// `s` starts with `pat`.
pub open spec fn starts_with(s: Seq<char>, pat: Seq<char>) -> bool {
    occurs_at(s, pat, 0)
}

/// The views of a sequence of character vectors.
pub open spec fn views(v: Seq<Vec<char>>) -> Seq<Seq<char>> {
    v.map_values(|x: Vec<char>| x@)
}

// ---------------------------------------------------------------------------
// Lemmas
// ---------------------------------------------------------------------------

proof fn lemma_newline_index(s: Seq<char>, m: int)
    requires
        0 <= m <= s.len(),
        forall|j: int| 0 <= j < m ==> s[j] != '\n',
        m == s.len() || s[m] == '\n',
    ensures
        newline_index(s) == m,
    decreases m,
{
    if m > 0 {
        lemma_newline_index(s.drop_first(), m - 1);
    }
}

proof fn lemma_views_push(v: Seq<Vec<char>>, x: Vec<char>)
    ensures
        views(v.push(x)) == views(v).push(x@),
{
    assert(views(v.push(x)) =~= views(v).push(x@));
}

// ---------------------------------------------------------------------------
// Executable functions
// ---------------------------------------------------------------------------

/// Appends one character to a `String` (`String::push`).
#[verifier::external_body]
fn string_push(s: &mut String, c: char)
    ensures
        final(s)@ == old(s)@.push(c),
{
    s.push(c);
}

/// The characters of a string slice, in order.
pub fn to_chars(s: &str) -> (v: Vec<char>)
    ensures
        v@ == s@,
{
    let mut v: Vec<char> = Vec::new();
    for c in it: s.chars()
        invariant
            v@ == it.seq().take(it.index() as int),
    {
        v.push(c);
    }
    v
}

/// A `String` holding the given characters.
pub fn from_chars(cs: &[char]) -> (s: String)
    ensures
        s@ == cs@,
{
    let mut s = String::new();
    let mut i: usize = 0;
    while i < cs.len()
        invariant
            i <= cs.len(),
            s@ == cs@.take(i as int),
        decreases cs.len() - i,
    {
        string_push(&mut s, cs[i]);
        i = i + 1;
        assert(s@ =~= cs@.take(i as int));
    }
    assert(cs@.take(cs.len() as int) =~= cs@);
    s
}

/// Appends all of `src` to `dst`.
pub fn push_all(dst: &mut Vec<char>, src: &[char])
    ensures
        final(dst)@ == old(dst)@ + src@,
{
    let mut i: usize = 0;
    while i < src.len()
        invariant
            i <= src.len(),
            dst@ == old(dst)@ + src@.take(i as int),
        decreases src.len() - i,
    {
        dst.push(src[i]);
        i = i + 1;
        assert(dst@ =~= old(dst)@ + src@.take(i as int));
    }
    assert(src@.take(src.len() as int) =~= src@);
}

/// Appends all characters of `src` to `dst`.
pub fn push_str(dst: &mut Vec<char>, src: &str)
    ensures
        final(dst)@ == old(dst)@ + src@,
{
    let cs = to_chars(src);
    push_all(dst, cs.as_slice());
}

/// The concatenation of two character sequences.
pub fn concat(a: &[char], b: &[char]) -> (r: Vec<char>)
    ensures
        r@ == a@ + b@,
{
    let mut r: Vec<char> = Vec::new();
    push_all(&mut r, a);
    push_all(&mut r, b);
    assert(r@ =~= a@ + b@);
    r
}

/// Whether two character sequences are equal.
pub fn chars_eq(a: &[char], b: &[char]) -> (r: bool)
    ensures
        r == (a@ == b@),
{
    if a.len() != b.len() {
        return false;
    }
    let mut i: usize = 0;
    while i < a.len()
        invariant
            i <= a.len(),
            a.len() == b.len(),
            forall|j: int| 0 <= j < i ==> a@[j] == b@[j],
        decreases a.len() - i,
    {
        if a[i] != b[i] {
            return false;
        }
        i = i + 1;
    }
    assert(a@ =~= b@);
    true
}

/// Whether `pat` occurs in `s` at position `i`.
pub fn occurs_at_exec(s: &[char], pat: &[char], i: usize) -> (r: bool)
    ensures
        r == occurs_at(s@, pat@, i as int),
{
    if i > s.len() || pat.len() > s.len() - i {
        return false;
    }
    let mut j: usize = 0;
    while j < pat.len()
        invariant
            j <= pat.len(),
            i + pat.len() <= s.len(),
            forall|k: int| 0 <= k < j ==> s@[i + k] == pat@[k],
        decreases pat.len() - j,
    {
        if s[i + j] != pat[j] {
            assert(s@.subrange(i as int, i + pat.len())[j as int] != pat@[j as int]);
            return false;
        }
        j = j + 1;
    }
    assert(s@.subrange(i as int, i + pat.len()) =~= pat@);
    true
}

/// Whether `c` is white space (`char::is_whitespace`).
pub fn is_whitespace(c: char) -> (b: bool)
    ensures
        b == is_ws(c),
{
    let u = c as u32;
    (0x9 <= u && u <= 0xd) || u == 0x20 || u == 0x85 || u == 0xa0 || u == 0x1680 || (0x2000 <= u
        && u <= 0x200a) || u == 0x2028 || u == 0x2029 || u == 0x202f || u == 0x205f || u == 0x3000
}

/// `s` without leading and trailing white space.
pub fn trimmed(s: &[char]) -> (r: Vec<char>)
    ensures
        r@ == trim(s@),
{
    let n = s.len();
    let mut lo: usize = 0;
    assert(s@.skip(0) =~= s@);
    while lo < n && is_whitespace(s[lo])
        invariant
            lo <= n,
            n == s.len(),
            trim_start(s@) == trim_start(s@.skip(lo as int)),
        decreases n - lo,
    {
        assert(s@.skip(lo as int).drop_first() =~= s@.skip(lo + 1));
        lo = lo + 1;
    }
    assert(trim_start(s@) == s@.subrange(lo as int, n as int)) by {
        assert(s@.skip(lo as int) =~= s@.subrange(lo as int, n as int));
    }
    let mut hi: usize = n;
    while hi > lo && is_whitespace(s[hi - 1])
        invariant
            lo <= hi <= n,
            n == s.len(),
            trim(s@) == trim_end(s@.subrange(lo as int, hi as int)),
        decreases hi,
    {
        assert(s@.subrange(lo as int, hi as int).drop_last() =~= s@.subrange(lo as int, hi - 1));
        hi = hi - 1;
    }
    let mut r: Vec<char> = Vec::new();
    let mut i: usize = lo;
    while i < hi
        invariant
            lo <= i <= hi <= n,
            n == s.len(),
            r@ == s@.subrange(lo as int, i as int),
        decreases hi - i,
    {
        r.push(s[i]);
        i = i + 1;
        assert(r@ =~= s@.subrange(lo as int, i as int));
    }
    r
}

/// The lines of `s`, as `str::lines` yields them.
pub fn split_lines(s: &[char]) -> (r: Vec<Vec<char>>)
    ensures
        views(r@) == lines(s@),
{
    let n = s.len();
    let mut r: Vec<Vec<char>> = Vec::new();
    let mut start: usize = 0;
    let mut i: usize = 0;
    let mut cur: Vec<char> = Vec::new();
    assert(s@.skip(0) =~= s@);
    assert(views(r@) =~= seq![]);
    while i < n
        invariant
            start <= i <= n,
            n == s.len(),
            forall|j: int| start <= j < i ==> s@[j] != '\n',
            cur@ == s@.subrange(start as int, i as int),
            lines(s@) == views(r@) + lines(s@.skip(start as int)),
        decreases n - i,
    {
        if s[i] == '\n' {
            let ghost rest = s@.skip(start as int);
            proof {
                lemma_newline_index(rest, i - start);
                assert(rest.take(i - start) =~= cur@);
                assert(rest.skip(i - start + 1) =~= s@.skip(i + 1));
            }
            let mut line = cur;
            if line.len() > 0 && line[line.len() - 1] == '\r' {
                line.pop();
            }
            assert(line@ == strip_cr(cur@)) by {
                if cur@.len() > 0 && cur@.last() == '\r' {
                    assert(line@ =~= cur@.drop_last());
                }
            }
            proof {
                lemma_views_push(r@, line);
            }
            r.push(line);
            assert(lines(s@) =~= views(r@) + lines(s@.skip(i + 1)));
            start = i + 1;
            cur = Vec::new();
            i = i + 1;
            assert(cur@ =~= s@.subrange(start as int, i as int));
        } else {
            cur.push(s[i]);
            i = i + 1;
            assert(cur@ =~= s@.subrange(start as int, i as int));
        }
    }
    if start < n {
        let ghost rest = s@.skip(start as int);
        proof {
            lemma_newline_index(rest, n - start);
            assert(rest =~= cur@);
            lemma_views_push(r@, cur);
        }
        r.push(cur);
        assert(lines(s@) =~= views(r@));
    } else {
        assert(s@.skip(start as int) =~= Seq::<char>::empty());
        assert(lines(s@) =~= views(r@));
    }
    r
}

/// `s` with every occurrence of the non-empty `pat` replaced by `rep`.
pub fn replaced(s: &[char], pat: &[char], rep: &[char]) -> (r: Vec<char>)
    requires
        pat@.len() > 0,
    ensures
        r@ == replace(s@, pat@, rep@),
{
    let n = s.len();
    let mut r: Vec<char> = Vec::new();
    let mut i: usize = 0;
    assert(s@.skip(0) =~= s@);
    while i < n
        invariant
            i <= n,
            n == s.len(),
            pat@.len() > 0,
            replace(s@, pat@, rep@) == r@ + replace(s@.skip(i as int), pat@, rep@),
        decreases n - i,
    {
        let ghost rest = s@.skip(i as int);
        if occurs_at_exec(s, pat, i) {
            assert(rest.take(pat@.len() as int) =~= s@.subrange(i as int, i + pat@.len()));
            assert(rest.skip(pat@.len() as int) =~= s@.skip(i + pat@.len()));
            push_all(&mut r, rep);
            i = i + pat.len();
            assert(replace(s@, pat@, rep@) =~= r@ + replace(s@.skip(i as int), pat@, rep@));
        } else {
            proof {
                if rest.len() >= pat@.len() {
                    assert(rest.take(pat@.len() as int) =~= s@.subrange(i as int, i + pat@.len()));
                }
            }
            assert(rest.drop_first() =~= s@.skip(i + 1));
            if n - i < pat.len() {
                // the remaining text is shorter than the pattern: it stays as it is
                assert(replace(rest, pat@, rep@) == rest);
                let mut k: usize = i;
                while k < n
                    invariant
                        i <= k <= n,
                        n == s.len(),
                        r@ + s@.subrange(i as int, k as int) + replace(s@.skip(k as int), pat@, rep@)
                            == replace(s@, pat@, rep@),
                        s@.skip(k as int).len() < pat@.len(),
                    decreases n - k,
                {
                    let ghost t = s@.skip(k as int);
                    assert(replace(t, pat@, rep@) == t);
                    assert(t.drop_first() =~= s@.skip(k + 1));
                    assert(replace(t.drop_first(), pat@, rep@) == t.drop_first());
                    assert(s@.subrange(i as int, k + 1) =~= s@.subrange(i as int, k as int).push(s@[k as int]));
                    assert(t =~= seq![s@[k as int]] + t.drop_first());
                    k = k + 1;
                    assert(r@ + s@.subrange(i as int, k as int) + replace(s@.skip(k as int), pat@, rep@)
                        =~= replace(s@, pat@, rep@));
                }
                push_all(&mut r, &s[i..n]);
                assert(s@.skip(n as int) =~= Seq::<char>::empty());
                assert(replace(s@, pat@, rep@) =~= r@);
                return r;
            }
            r.push(s[i]);
            i = i + 1;
            assert(replace(s@, pat@, rep@) =~= r@ + replace(s@.skip(i as int), pat@, rep@));
        }
    }
    assert(s@.skip(n as int) =~= Seq::<char>::empty());
    assert(replace(s@, pat@, rep@) =~= r@);
    r
}

/// The piece of `s` after its last `sep`.
pub fn last_piece(s: &[char], sep: char) -> (r: Vec<char>)
    ensures
        r@ == after_last(s@, sep),
{
    let n = s.len();
    let mut j: usize = n;
    assert(s@.take(n as int) =~= s@);
    assert(s@.skip(n as int) =~= Seq::<char>::empty());
    while j > 0 && s[j - 1] != sep
        invariant
            j <= n,
            n == s.len(),
            after_last(s@, sep) == after_last(s@.take(j as int), sep) + s@.skip(j as int),
        decreases j,
    {
        let ghost t = s@.take(j as int);
        assert(t.drop_last() =~= s@.take(j - 1));
        assert(s@.skip(j - 1) =~= seq![s@[j - 1]] + s@.skip(j as int));
        j = j - 1;
        assert(after_last(s@, sep) =~= after_last(s@.take(j as int), sep) + s@.skip(j as int));
    }
    assert(after_last(s@.take(j as int), sep) =~= Seq::<char>::empty());
    let mut r: Vec<char> = Vec::new();
    let mut i: usize = j;
    while i < n
        invariant
            j <= i <= n,
            n == s.len(),
            r@ == s@.subrange(j as int, i as int),
        decreases n - i,
    {
        r.push(s[i]);
        i = i + 1;
        assert(r@ =~= s@.subrange(j as int, i as int));
    }
    assert(r@ =~= s@.skip(j as int));
    r
}

/// The position of the first `'\n'` lies within `s` and no earlier
/// character is one.
pub proof fn lemma_newline_index_bounds(s: Seq<char>)
    ensures
        newline_index(s) <= s.len(),
        forall|j: int| 0 <= j < newline_index(s) ==> s[j] != '\n',
        newline_index(s) < s.len() ==> s[newline_index(s) as int] == '\n',
    decreases s.len(),
{
    if s.len() > 0 && s[0] != '\n' {
        lemma_newline_index_bounds(s.drop_first());
        assert forall|j: int| 0 <= j < newline_index(s) implies s[j] != '\n' by {
            if j > 0 {
                assert(s[j] == s.drop_first()[j - 1]);
            }
        }
    }
}

/// No line holds a `'\n'`.
pub proof fn lemma_lines_no_newline(s: Seq<char>)
    ensures
        forall|i: int| 0 <= i < lines(s).len() ==> !(#[trigger] lines(s)[i]).contains('\n'),
    decreases s.len(),
{
    if s.len() > 0 {
        lemma_newline_index_bounds(s);
        let k = newline_index(s);
        if k < s.len() {
            lemma_lines_no_newline(s.skip(k + 1int));
            let first = strip_cr(s.take(k as int));
            assert(!first.contains('\n')) by {
                if first.contains('\n') {
                    let j = choose|j: int| 0 <= j < first.len() && first[j] == '\n';
                    assert(first[j] == s[j]);
                }
            }
            assert forall|i: int| 0 <= i < lines(s).len() implies !(#[trigger] lines(s)[i]).contains('\n') by {
                if i > 0 {
                    assert(lines(s)[i] == lines(s.skip(k + 1int))[i - 1]);
                }
            }
        } else {
            assert(lines(s) == seq![s]);
            assert(!s.contains('\n')) by {
                if s.contains('\n') {
                    let j = choose|j: int| 0 <= j < s.len() && s[j] == '\n';
                }
            }
        }
    }
}

/// A line without `'\n'`, and not ending in `'\r'`, followed by `'\n'`, is
/// the first line of the text.
pub proof fn lemma_lines_cons(l: Seq<char>, rest: Seq<char>)
    requires
        !l.contains('\n'),
        !(l.len() > 0 && l.last() == '\r'),
    ensures
        lines(l + seq!['\n'] + rest) == seq![l] + lines(rest),
{
    let s = l + seq!['\n'] + rest;
    assert forall|j: int| 0 <= j < l.len() implies s[j] != '\n' by {
        assert(s[j] == l[j]);
        if s[j] == '\n' {
            assert(l.contains('\n'));
        }
    }
    lemma_newline_index(s, l.len() as int);
    assert(s.take(l.len() as int) =~= l);
    assert(s.skip(l.len() + 1int) =~= rest);
}

} // verus!
