//! Regular expressions, through the `regex` crate.
//!
//! The matching itself is done by `regex`; what it returns is named by the
//! uninterpreted functions below, over the pattern text and the haystack.
//! Beside the names stand the few facts that the crate's documentation gives
//! plainly for literal patterns.

use vstd::prelude::*;
use crate::text::{contains, starts_with, is_ws, after_last};

verus! {

#[verifier::external_type_specification]
#[verifier::external_body]
pub struct ExRegex(regex::Regex);

/// Whether `regex::Regex::new` accepts the pattern.
pub uninterp spec fn regex_compiles(pattern: Seq<char>) -> bool;

/// What `regex::Regex::is_match` answers, for the regex compiled from
/// `pattern`, on `text`.
pub uninterp spec fn regex_is_match(pattern: Seq<char>, text: Seq<char>) -> bool;

/// The text of the match that `regex::Regex::find` reports, for the regex
/// compiled from `pattern`, in `text`.
pub uninterp spec fn regex_find(pattern: Seq<char>, text: Seq<char>) -> Option<Seq<char>>;

/// What `regex::Regex::replace_all` gives back, for the regex compiled from
/// `pattern`, on `text`, with the replacement `rep`.
pub uninterp spec fn regex_replace_all(pattern: Seq<char>, text: Seq<char>, rep: Seq<char>) -> Seq<char>;

/// A character that stands for itself in a pattern: an ASCII letter or
/// digit, a space or a colon.
pub open spec fn is_literal_char(c: char) -> bool {
    ||| 'a' <= c <= 'z'
    ||| 'A' <= c <= 'Z'
    ||| '0' <= c <= '9'
    ||| c == ' '
    ||| c == ':'
}

/// A short pattern made of literal characters only.
pub open spec fn is_plain_literal(p: Seq<char>) -> bool {
    &&& p.len() <= 64
    &&& forall|i: int| 0 <= i < p.len() ==> is_literal_char(#[trigger] p[i])
}

/// A pattern `(?m)^` followed by a plain literal: in multi-line mode, the
/// literal at the start of a line.
pub open spec fn is_line_start_literal(p: Seq<char>) -> bool {
    &&& p.len() >= 5
    &&& p.take(5) == "(?m)^"@
    &&& is_plain_literal(p.skip(5))
}

/// The pattern that picks the value after the colon at the end of a line.
pub open spec fn colon_pattern() -> Seq<char> {
    r":[a-zA-Z\d\s\.\-\_\\\/]+$"@
}

/// An ASCII character of the colon pattern's class: a letter, a digit, white
/// space, `.`, `-`, `_`, back slash or slash.
pub open spec fn colon_class(c: char) -> bool {
    ||| 'a' <= c <= 'z'
    ||| 'A' <= c <= 'Z'
    ||| '0' <= c <= '9'
    ||| is_ws(c)
    ||| c == '.'
    ||| c == '-'
    ||| c == '_'
    ||| c == '\\'
    ||| c == '/'
}

/// Every character of `s` is ASCII.
pub open spec fn is_ascii_text(s: Seq<char>) -> bool {
    forall|i: int| 0 <= i < s.len() ==> (#[trigger] s[i] as u32) < 128
}

/// What the colon pattern finds in an ASCII text: the last colon and all
/// that follows it, when that is not empty and made only of class
/// characters (no match can start at an earlier colon, since a colon is not
/// in the class, and `$` ties the match to the end of the text); nothing
/// otherwise.
pub open spec fn colon_match(s: Seq<char>) -> Option<Seq<char>> {
    let v = after_last(s, ':');
    if v.len() < s.len() && v.len() > 0 && forall|i: int| 0 <= i < v.len() ==> colon_class(#[trigger] v[i]) {
        Some(seq![':'] + v)
    } else {
        None
    }
}

/// The pattern of a path separator: slash or back slash.
pub open spec fn separator_pattern() -> Seq<char> {
    r"/|\\"@
}

/// `s` with every slash and back slash made an underscore.
pub open spec fn underscored(s: Seq<char>) -> Seq<char> {
    s.map_values(|c: char| if c == '/' || c == '\\' { '_' } else { c })
}

/// A compiled regular expression together with the pattern it was compiled
/// from.
pub struct Pattern {
    source: String,
    compiled: regex::Regex,
}

impl View for Pattern {
    type V = Seq<char>;

    /// The pattern text.
    closed spec fn view(&self) -> Seq<char> {
        self.source@
    }
}

/// Compiles `pattern` with `regex::Regex::new`. The contract claims that the
/// result is there exactly when the pattern compiles, that it keeps the
/// pattern text, and (from the crate's syntax documentation) that short
/// patterns made only of literal characters, alone or behind `(?m)^`, and the
/// two fixed patterns of this library, the colon pattern and the separator
/// pattern, compile.
#[verifier::external_body]
pub(crate) fn compile(pattern: &str) -> (r: Option<Pattern>)
    ensures
        r is Some <==> regex_compiles(pattern@),
        r matches Some(p) ==> p@ == pattern@,
        is_plain_literal(pattern@) ==> r is Some,
        is_line_start_literal(pattern@) ==> r is Some,
        pattern@ == colon_pattern() ==> r is Some,
        pattern@ == separator_pattern() ==> r is Some,
{
    match regex::Regex::new(pattern) {
        Ok(compiled) => Some(Pattern { source: pattern.to_string(), compiled }),
        Err(_) => None,
    }
}

/// `regex::Regex::is_match`. The contract claims the named result, and, from
/// the crate's documentation, that a plain literal matches exactly where it
/// occurs, and that `(?m)^` followed by a plain literal matches a text
/// without `'\n'` exactly when the text starts with the literal (in
/// multi-line mode `^` matches only at the start and after `'\n'`).
#[verifier::external_body]
pub(crate) fn is_match(p: &Pattern, text: &str) -> (b: bool)
    ensures
        b == regex_is_match(p@, text@),
        is_plain_literal(p@) ==> (b <==> contains(text@, p@)),
        is_line_start_literal(p@) && !text@.contains('\n') ==> (b <==> starts_with(
            text@,
            p@.skip(5),
        )),
{
    p.compiled.is_match(text)
}

/// `regex::Regex::find`, giving the matched text. The contract claims the
/// named result, and, for the colon pattern on an ASCII text, the match that
/// the crate's syntax documentation gives: leftmost-first, `$` only at the
/// end of the text (no multi-line flag), `\d` and `\s` on ASCII characters
/// being the ASCII digits and white space.
#[verifier::external_body]
pub(crate) fn find(p: &Pattern, text: &str) -> (m: Option<String>)
    ensures
        m matches Some(s) ==> regex_find(p@, text@) == Some(s@),
        m is None ==> regex_find(p@, text@) is None,
        p@ == colon_pattern() && is_ascii_text(text@) ==> (m matches Some(s) ==> colon_match(text@) == Some(s@)),
        p@ == colon_pattern() && is_ascii_text(text@) ==> (m is None ==> colon_match(text@) is None),
{
    match p.compiled.find(text) {
        Some(found) => Some(found.as_str().to_string()),
        None => None,
    }
}

/// `regex::Regex::replace_all` with a plain replacement text. The contract
/// claims the named result, and that the separator pattern with the
/// replacement `_` (which holds no `$` group reference) makes every slash and
/// back slash an underscore: each of them is a match of its own.
#[verifier::external_body]
pub(crate) fn replace_all(p: &Pattern, text: &str, rep: &str) -> (r: String)
    ensures
        r@ == regex_replace_all(p@, text@, rep@),
        p@ == separator_pattern() && rep@ == "_"@ ==> r@ == underscored(text@),
{
    p.compiled.replace_all(text, rep).into_owned()
}

} // verus!
