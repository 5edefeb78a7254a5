use bios_release::text::{to_chars, from_chars, split_lines, trimmed, replaced, last_piece};
use bios_release::numfmt::{digits_of, signed_decimal_of, pad_left_exec};
use bios_release::checksum::{checksum_report, checksum16_of};
use bios_release::clipboard::clipboard_html_document;

fn s(v: &[char]) -> String {
    v.iter().collect()
}

#[test]
fn lines_like_std() {
    for t in ["", "a", "a\n", "a\r\nb", "a\n\nb\n", "a\rb\r", "\n", "x\r\n\r\n"] {
        let got: Vec<String> = split_lines(&to_chars(t)).iter().map(|l| s(l)).collect();
        let want: Vec<String> = t.lines().map(|l| l.to_string()).collect();
        assert_eq!(got, want, "text {:?}", t);
    }
}

#[test]
fn trim_like_std() {
    for t in ["", "  ", " a ", "\u{3000}x\t\n", "a b", "\u{a0}z\u{85}"] {
        assert_eq!(s(&trimmed(&to_chars(t))), t.trim(), "text {:?}", t);
    }
}

#[test]
fn replace_like_std() {
    for (t, p, r) in [("a b  c", " ", "&nbsp;"), ("aaa", "aa", "b"), ("To: x To:", "To:", ""), ("", "x", "y")] {
        assert_eq!(s(&replaced(&to_chars(t), &to_chars(p), &to_chars(r))), t.replace(p, r));
    }
}

#[test]
fn last_piece_and_from_chars() {
    assert_eq!(s(&last_piece(&to_chars("a\\b\\c"), '\\')), "c");
    assert_eq!(s(&last_piece(&to_chars("a\\"), '\\')), "");
    assert_eq!(from_chars(&['h', 'i']), "hi");
}

#[test]
fn number_rendering() {
    assert_eq!(s(&digits_of(0, 10)), "0");
    assert_eq!(s(&digits_of(2024, 10)), "2024");
    assert_eq!(s(&digits_of(0x2AD4, 16)), "2AD4");
    assert_eq!(s(&signed_decimal_of(-45)), "-45");
    assert_eq!(s(&signed_decimal_of(i32::MIN)), i32::MIN.to_string());
    assert_eq!(s(&pad_left_exec(&to_chars("7"), 2, '0')), "07");
    assert_eq!(s(&pad_left_exec(&to_chars("123"), 2, '0')), "123");
}

#[test]
fn checksum_lines() {
    assert_eq!(checksum_report(&[1, 2, 3]), "Checksum-16: 0x6");
    assert_eq!(checksum_report(&[0xff; 300]), "Checksum-16: 0x2AD4");
    assert_eq!(checksum_report(&[]), "Checksum-16: 0x0");
    let data: Vec<u8> = (0..100_000u32).map(|i| (i % 251) as u8).collect();
    let sum: u64 = data.iter().map(|&b| b as u64).sum();
    assert_eq!(checksum16_of(&data), sum & 0xFFFF);
    assert_eq!(checksum_report(&data), format!("Checksum-16: 0x{:X}", sum & 0xFFFF));
}

#[test]
fn checksum_is_additive_over_pieces() {
    let a: Vec<u8> = (0..5000u32).map(|i| (i * 7 % 256) as u8).collect();
    let b: Vec<u8> = (0..3000u32).map(|i| (i * 13 % 256) as u8).collect();
    let mut ab = a.clone();
    ab.extend_from_slice(&b);
    assert_eq!(checksum16_of(&ab), (checksum16_of(&a) + checksum16_of(&b)) % 0x10000);
}

#[test]
fn clipboard_documents() {
    assert_eq!(
        clipboard_html_document("abc"),
        "Version:1.0\r\nStartHTML:000000101\r\nEndHTML:000000195\r\nStartFragment:000000158\r\nEndFragment:000000161\r\n<!DOCTYPE><HTML><HEAD></HEAD><BODY><!-- StartFragment -->abc<!-- EndFragment --></BODY></HTML>"
    );
    assert_eq!(
        clipboard_html_document("中文"),
        "Version:1.0\r\nStartHTML:000000101\r\nEndHTML:000000198\r\nStartFragment:000000158\r\nEndFragment:000000164\r\n<!DOCTYPE><HTML><HEAD></HEAD><BODY><!-- StartFragment -->中文<!-- EndFragment --></BODY></HTML>"
    );
    // the fragment is marked where it was put, though its text also occurs in the page's own tags
    assert_eq!(
        clipboard_html_document("HTML"),
        "Version:1.0\r\nStartHTML:000000101\r\nEndHTML:000000196\r\nStartFragment:000000158\r\nEndFragment:000000162\r\n<!DOCTYPE><HTML><HEAD></HEAD><BODY><!-- StartFragment -->HTML<!-- EndFragment --></BODY></HTML>"
    );
}

#[test]
fn clipboard_offsets_point_at_fragment() {
    for frag in ["x", "Dear All,<br>", "ü and 中", "", "HTML", "<!--"] {
        let doc = clipboard_html_document(frag);
        let num = |key: &str| -> usize {
            let i = doc.find(key).unwrap() + key.len();
            doc[i..i + 9].parse().unwrap()
        };
        let (sh, eh, sf, ef) = (num("StartHTML:"), num("EndHTML:"), num("StartFragment:"), num("EndFragment:"));
        assert_eq!(eh, doc.len());
        assert!(doc[sh..eh].starts_with("<!DOCTYPE>"));
        assert_eq!(&doc[sf..ef], frag);
        assert_eq!(sf, sh + 57);
    }
}
