//! The `HTML Format` clipboard document: a header of byte offsets followed
//! by an HTML page that holds the fragment.

use vstd::prelude::*;
use vstd::utf8::encode_utf8;
use crate::text::{to_chars, from_chars, push_str, push_all};
use crate::numfmt::{decimal, pad_left, digits_of, pad_left_exec};

verus! {

/// The number of bytes of the UTF-8 encoding of `s`.
pub open spec fn utf8_len(s: Seq<char>) -> nat {
    encode_utf8(s).len()
}

/// The page text before the fragment, ending with the start comment.
pub open spec fn html_prefix() -> Seq<char> {
    "<!DOCTYPE><HTML><HEAD></HEAD><BODY><!-- StartFragment -->"@
}

/// The HTML page around a fragment.
pub open spec fn html_page(fragment: Seq<char>) -> Seq<char> {
    html_prefix() + fragment + "<!-- EndFragment --></BODY></HTML>"@
}

/// `n` right-aligned in nine digits, padded with zeros (`{:>09}`).
pub open spec fn nine_digits(n: nat) -> Seq<char> {
    pad_left(decimal(n), 9, '0')
}

/// The header of an `HTML Format` document with the given offsets.
pub open spec fn cf_header(start_html: nat, end_html: nat, start_fragment: nat, end_fragment: nat) -> Seq<char> {
    "Version:1.0\r\nStartHTML:"@ + nine_digits(start_html) + "\r\nEndHTML:"@ + nine_digits(end_html)
        + "\r\nStartFragment:"@ + nine_digits(start_fragment) + "\r\nEndFragment:"@ + nine_digits(
        end_fragment,
    ) + "\r\n"@
}

/// Where the HTML page starts: the byte length of a header whose offsets are
/// all zero.
pub open spec fn html_start() -> nat {
    utf8_len(cf_header(0, 0, 0, 0))
}

/// Where the fragment starts in the page, in bytes: right after the start
/// comment, where it was put, as the HTML clipboard format asks.
pub open spec fn fragment_offset() -> nat {
    utf8_len(html_prefix())
}

/// The four offsets of the document: start and end of the page, start and
/// end of the fragment, in bytes from the start of the document, with the
/// header counted as `html_start` bytes.
pub open spec fn offsets(fragment: Seq<char>) -> (nat, nat, nat, nat) {
    let s = html_start();
    let f = fragment_offset();
    (s, s + utf8_len(html_page(fragment)), s + f, s + f + utf8_len(fragment))
}

/// The `HTML Format` document that carries `fragment`.
pub open spec fn clipboard_document(fragment: Seq<char>) -> Seq<char> {
    let o = offsets(fragment);
    cf_header(o.0, o.1, o.2, o.3) + html_page(fragment)
}

/// The UTF-8 encoding of a concatenation is the concatenation of the
/// encodings.
pub proof fn lemma_encode_utf8_concat(a: Seq<char>, b: Seq<char>)
    ensures
        encode_utf8(a + b) == encode_utf8(a) + encode_utf8(b),
    decreases a.len(),
{
    if a.len() == 0 {
        assert(a + b =~= b);
        assert(encode_utf8(a) =~= Seq::<u8>::empty());
        assert(encode_utf8(a) + encode_utf8(b) =~= encode_utf8(b));
    } else {
        assert((a + b).drop_first() =~= a.drop_first() + b);
        lemma_encode_utf8_concat(a.drop_first(), b);
        assert(encode_utf8(a + b) =~= encode_utf8(a) + encode_utf8(b));
    }
}

/// A number below `10^9` fills the nine digits exactly, with ASCII
/// characters.
pub proof fn lemma_nine_digits(n: nat)
    requires
        n < 1_000_000_000,
    ensures
        nine_digits(n).len() == 9,
        vstd::utf8::is_ascii_chars(nine_digits(n)),
{
    assert(crate::numfmt::pow10(9) == 1_000_000_000) by {
        reveal_with_fuel(crate::numfmt::pow10, 10);
    }
    crate::numfmt::lemma_decimal_len(n, 9);
    crate::numfmt::lemma_digits_ascii(n, 10);
    let s = nine_digits(n);
    let d = decimal(n);
    assert(s =~= Seq::new((9 - d.len()) as nat, |i: int| '0') + d);
    assert forall|i: int| 0 <= i < s.len() implies '\0' <= #[trigger] s[i] <= '\u{7f}' by {
        if i >= 9 - d.len() {
            assert(s[i] == d[i - (9 - d.len())]);
        }
    }
}

/// A header whose offsets are all below `10^9` is 101 ASCII characters long,
/// so 101 bytes.
pub proof fn lemma_header_len(a: nat, b: nat, c: nat, d: nat)
    requires
        a < 1_000_000_000,
        b < 1_000_000_000,
        c < 1_000_000_000,
        d < 1_000_000_000,
    ensures
        cf_header(a, b, c, d).len() == 101,
        utf8_len(cf_header(a, b, c, d)) == 101,
{
    lemma_nine_digits(a);
    lemma_nine_digits(b);
    lemma_nine_digits(c);
    lemma_nine_digits(d);
    reveal_strlit("Version:1.0\r\nStartHTML:");
    reveal_strlit("\r\nEndHTML:");
    reveal_strlit("\r\nStartFragment:");
    reveal_strlit("\r\nEndFragment:");
    reveal_strlit("\r\n");
    let h = cf_header(a, b, c, d);
    let p1 = "Version:1.0\r\nStartHTML:"@;
    let p2 = "\r\nEndHTML:"@;
    let p3 = "\r\nStartFragment:"@;
    let p4 = "\r\nEndFragment:"@;
    let p5 = "\r\n"@;
    assert(vstd::utf8::is_ascii_chars(p1));
    assert(vstd::utf8::is_ascii_chars(p2));
    assert(vstd::utf8::is_ascii_chars(p3));
    assert(vstd::utf8::is_ascii_chars(p4));
    assert(vstd::utf8::is_ascii_chars(p5));
    let parts = seq![p1, nine_digits(a), p2, nine_digits(b), p3, nine_digits(c), p4, nine_digits(d), p5];
    assert forall|i: int| 0 <= i < h.len() implies '\0' <= #[trigger] h[i] <= '\u{7f}' by {
        let q1 = p1;
        let q2 = q1 + nine_digits(a);
        let q3 = q2 + p2;
        let q4 = q3 + nine_digits(b);
        let q5 = q4 + p3;
        let q6 = q5 + nine_digits(c);
        let q7 = q6 + p4;
        let q8 = q7 + nine_digits(d);
        if i < q1.len() {
            assert(h[i] == p1[i]);
        } else if i < q2.len() {
            assert(h[i] == nine_digits(a)[i - q1.len()]);
        } else if i < q3.len() {
            assert(h[i] == p2[i - q2.len()]);
        } else if i < q4.len() {
            assert(h[i] == nine_digits(b)[i - q3.len()]);
        } else if i < q5.len() {
            assert(h[i] == p3[i - q4.len()]);
        } else if i < q6.len() {
            assert(h[i] == nine_digits(c)[i - q5.len()]);
        } else if i < q7.len() {
            assert(h[i] == p4[i - q6.len()]);
        } else if i < q8.len() {
            assert(h[i] == nine_digits(d)[i - q7.len()]);
        } else {
            assert(h[i] == p5[i - q8.len()]);
        }
    }
    vstd::utf8::is_ascii_chars_encode_utf8(h);
}

/// The header of the document is as long as its `StartHTML` says, the page
/// runs from `StartHTML` to `EndHTML`, which is the end of the document, the
/// fragment starts 57 bytes into the page, right after the start comment,
/// and the bytes from `StartFragment` to `EndFragment` are the fragment: the
/// offsets point where they should, as long as they fit in nine digits.
pub proof fn law_clipboard_offsets(fragment: Seq<char>)
    requires
        html_start() + utf8_len(html_page(fragment)) < 1_000_000_000,
    ensures
        ({
            let o = offsets(fragment);
            let doc = clipboard_document(fragment);
            let header = cf_header(o.0, o.1, o.2, o.3);
            let p: int = (header.len() + html_prefix().len()) as int;
            &&& html_start() == 101
            &&& fragment_offset() == 57
            &&& o.2 == o.0 + 57
            &&& doc == header + html_page(fragment)
            &&& utf8_len(header) == o.0
            &&& utf8_len(doc) == o.1
            &&& doc.take(p) == header + html_prefix()
            &&& utf8_len(doc.take(p)) == o.2
            &&& doc.subrange(p, p + fragment.len()) == fragment
            &&& utf8_len(doc.take(p + fragment.len())) == o.3
        }),
{
    let page = html_page(fragment);
    let o = offsets(fragment);
    let doc = clipboard_document(fragment);
    let header = cf_header(o.0, o.1, o.2, o.3);
    let pre = html_prefix();
    lemma_header_len(0, 0, 0, 0);
    reveal_strlit("<!DOCTYPE><HTML><HEAD></HEAD><BODY><!-- StartFragment -->");
    assert(vstd::utf8::is_ascii_chars(pre));
    vstd::utf8::is_ascii_chars_encode_utf8(pre);
    assert(pre.len() == 57);
    lemma_encode_utf8_concat(pre + fragment, "<!-- EndFragment --></BODY></HTML>"@);
    lemma_encode_utf8_concat(pre, fragment);
    lemma_header_len(o.0, o.1, o.2, o.3);
    lemma_encode_utf8_concat(header, page);
    let p: int = (header.len() + pre.len()) as int;
    assert(doc.take(p) =~= header + pre);
    lemma_encode_utf8_concat(header, pre);
    assert(doc.subrange(p, p + fragment.len()) =~= fragment);
    assert(doc.take(p + fragment.len()) =~= (header + pre) + fragment);
    lemma_encode_utf8_concat(header + pre, fragment);
}

/// `n` in nine zero-padded digits.
fn nine_digits_exec(n: usize) -> (r: Vec<char>)
    ensures
        r@ == nine_digits(n as nat),
{
    let d = digits_of(n as u64, 10);
    pad_left_exec(d.as_slice(), 9, '0')
}

/// The header with the given offsets.
fn cf_header_exec(a: usize, b: usize, c: usize, d: usize) -> (r: Vec<char>)
    ensures
        r@ == cf_header(a as nat, b as nat, c as nat, d as nat),
{
    let mut out = to_chars("Version:1.0\r\nStartHTML:");
    push_all(&mut out, nine_digits_exec(a).as_slice());
    push_str(&mut out, "\r\nEndHTML:");
    push_all(&mut out, nine_digits_exec(b).as_slice());
    push_str(&mut out, "\r\nStartFragment:");
    push_all(&mut out, nine_digits_exec(c).as_slice());
    push_str(&mut out, "\r\nEndFragment:");
    push_all(&mut out, nine_digits_exec(d).as_slice());
    push_str(&mut out, "\r\n");
    out
}

/// The `HTML Format` document for `fragment`, as the clipboard takes it
/// (before the terminating NUL).
pub fn clipboard_html_document(fragment: &str) -> (r: String)
    requires
        html_start() + utf8_len(html_page(fragment@)) <= usize::MAX,
    ensures
        r@ == clipboard_document(fragment@),
{
    let marker_start = from_chars(cf_header_exec(0, 0, 0, 0).as_slice());
    let start = marker_start.as_str().len();
    assert(start == html_start());
    let prefix = "<!DOCTYPE><HTML><HEAD></HEAD><BODY><!-- StartFragment -->";
    proof {
        reveal_strlit("<!DOCTYPE><HTML><HEAD></HEAD><BODY><!-- StartFragment -->");
        assert(vstd::utf8::is_ascii_chars(html_prefix()));
        vstd::utf8::is_ascii_chars_encode_utf8(html_prefix());
    }
    let fragment_start = prefix.len();
    let mut html = to_chars(prefix);
    push_str(&mut html, fragment);
    push_str(&mut html, "<!-- EndFragment --></BODY></HTML>");
    let html_s = from_chars(html.as_slice());
    assert(html_s@ == html_page(fragment@));
    assert(fragment_start == fragment_offset());
    proof {
        let suffix = "<!-- EndFragment --></BODY></HTML>"@;
        lemma_encode_utf8_concat(html_prefix() + fragment@, suffix);
        lemma_encode_utf8_concat(html_prefix(), fragment@);
    }
    assert(fragment_start + utf8_len(fragment@) <= utf8_len(html_page(fragment@)));
    let html_len = html_s.as_str().len();
    let frag_len = fragment.len();
    let a = start;
    let b = start + html_len;
    let c = start + fragment_start;
    let d = start + fragment_start + frag_len;
    let mut out = cf_header_exec(a, b, c, d);
    push_all(&mut out, html.as_slice());
    from_chars(out.as_slice())
}

} // verus!
