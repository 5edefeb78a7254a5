//! Decimal and hexadecimal rendering of integers, as `format!` writes them.

use vstd::prelude::*;

verus! {

/// The digit for `d` (`0`-`9`, then upper-case `A`-`F`).
pub open spec fn digit(d: nat) -> char {
    if d < 10 {
        (48 + d) as char
    } else {
        (55 + d) as char
    }
}

/// The digits of `n` in the given base, most significant first, without
/// leading zeros (`0` is the single digit `0`).
pub open spec fn digits(n: nat, base: nat) -> Seq<char>
    decreases n,
{
    if base < 2 || n < base {
        seq![digit(n)]
    } else {
        proof {
            assert(n / base < n) by (nonlinear_arith)
                requires
                    base >= 2,
                    n >= base,
            ;
        }
        digits(n / base, base).push(digit(n % base))
    }
}

/// `n` as `{}` renders an unsigned integer.
pub open spec fn decimal(n: nat) -> Seq<char> {
    digits(n, 10)
}

/// `n` as `{:X}` renders it.
pub open spec fn hex_upper(n: nat) -> Seq<char> {
    digits(n, 16)
}

/// `x` as `{}` renders a signed integer.
pub open spec fn signed_decimal(x: int) -> Seq<char> {
    if x < 0 {
        seq!['-'] + decimal((-x) as nat)
    } else {
        decimal(x as nat)
    }
}

/// `s` right-aligned in a field of `width` characters, padded with `fill`
/// (longer texts are kept whole).
pub open spec fn pad_left(s: Seq<char>, width: nat, fill: char) -> Seq<char> {
    if s.len() >= width {
        s
    } else {
        Seq::new((width - s.len()) as nat, |i: int| fill) + s
    }
}

/// `10` to the power `k`.
pub open spec fn pow10(k: nat) -> nat
    decreases k,
{
    if k == 0 {
        1
    } else {
        10 * pow10((k - 1) as nat)
    }
}

/// A number below `10^k` has at most `k` decimal digits.
pub proof fn lemma_decimal_len(n: nat, k: nat)
    requires
        k >= 1,
        n < pow10(k),
    ensures
        decimal(n).len() <= k,
    decreases k,
{
    if n >= 10 {
        let km1 = (k - 1) as nat;
        if k == 1 {
            assert(pow10(1) == 10 * pow10(0));
        }
        assert(k >= 2);
        assert(pow10(k) == 10 * pow10(km1));
        assert(n / 10 < pow10(km1)) by (nonlinear_arith)
            requires
                n < 10 * pow10(km1),
        ;
        lemma_decimal_len(n / 10, km1);
        assert(decimal(n) == decimal(n / 10).push(digit(n % 10)));
    }
}

/// Digits are ASCII characters.
pub proof fn lemma_digits_ascii(n: nat, base: nat)
    requires
        2 <= base <= 16,
    ensures
        vstd::utf8::is_ascii_chars(digits(n, base)),
    decreases n,
{
    if n >= base {
        assert(n / base < n) by (nonlinear_arith)
            requires
                base >= 2,
                n >= base,
        ;
        assert(n % base < base) by (nonlinear_arith)
            requires
                base >= 2,
        ;
        lemma_digits_ascii(n / base, base);
        assert forall|i: int| 0 <= i < digits(n, base).len() implies '\0' <= #[trigger] digits(n, base)[i] <= '\u{7f}' by {
            if i < digits(n / base, base).len() {
                assert(digits(n, base)[i] == digits(n / base, base)[i]);
            }
        }
    }
}

/// The digit character for `d`.
pub fn digit_char(d: u64) -> (c: char)
    requires
        d < 16,
    ensures
        c == digit(d as nat),
{
    if d < 10 {
        ((48 + d) as u8) as char
    } else {
        ((55 + d) as u8) as char
    }
}

/// The digits of `n` in the given base.
pub fn digits_of(n: u64, base: u64) -> (r: Vec<char>)
    requires
        2 <= base <= 16,
    ensures
        r@ == digits(n as nat, base as nat),
{
    let mut q: u64 = n;
    let mut acc: Vec<char> = Vec::new();
    assert(digits(n as nat, base as nat) =~= digits(q as nat, base as nat) + acc@);
    while q >= base
        invariant
            2 <= base <= 16,
            digits(n as nat, base as nat) == digits(q as nat, base as nat) + acc@,
        decreases q,
    {
        let d = q % base;
        let c = digit_char(d);
        acc.insert(0, c);
        let ghost old_q = q;
        q = q / base;
        assert(q < old_q) by (nonlinear_arith)
            requires
                q == old_q / base,
                base >= 2,
                old_q >= base,
        ;
        assert(digits(old_q as nat, base as nat) == digits(q as nat, base as nat).push(
            digit(d as nat),
        ));
        assert(digits(n as nat, base as nat) =~= digits(q as nat, base as nat) + acc@);
    }
    let c = digit_char(q);
    acc.insert(0, c);
    assert(digits(n as nat, base as nat) =~= acc@);
    acc
}

/// `x` as `{}` renders it.
pub fn signed_decimal_of(x: i32) -> (r: Vec<char>)
    ensures
        r@ == signed_decimal(x as int),
{
    if x < 0 {
        let m: i64 = -(x as i64);
        let ds = digits_of(m as u64, 10);
        let mut r: Vec<char> = Vec::new();
        r.push('-');
        crate::text::push_all(&mut r, ds.as_slice());
        assert(r@ =~= seq!['-'] + decimal((-x) as nat));
        r
    } else {
        digits_of(x as u64, 10)
    }
}

/// `s` right-aligned in a field of `width` characters, padded with `fill`.
pub fn pad_left_exec(s: &[char], width: usize, fill: char) -> (r: Vec<char>)
    ensures
        r@ == pad_left(s@, width as nat, fill),
{
    let mut r: Vec<char> = Vec::new();
    if s.len() < width {
        let mut i: usize = 0;
        while i < width - s.len()
            invariant
                s.len() < width,
                i <= width - s.len(),
                r@ == Seq::new(i as nat, |k: int| fill),
            decreases width - s.len() - i,
        {
            r.push(fill);
            i = i + 1;
            assert(r@ =~= Seq::new(i as nat, |k: int| fill));
        }
    }
    crate::text::push_all(&mut r, s);
    assert(r@ =~= pad_left(s@, width as nat, fill));
    r
}

} // verus!
