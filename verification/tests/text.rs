use quick_resume::util::bytes::{push_u32, push_u64, read_u16, read_u32, read_u64};
use quick_resume::util::text::{
    characters, eq_ignore_ascii_case, push_decimal, push_hex, same_text,
};
use quick_resume::util::wide::{to_wide, wide_to_string};

#[test]
fn decimal_has_no_leading_zeros() {
    for n in [0u64, 9, 10, 99, 100, 816_474_332, u64::MAX] {
        let mut s = String::from("n=");
        push_decimal(&mut s, n);
        assert_eq!(s, format!("n={}", n));
    }
}

#[test]
fn hex_is_padded_and_upper_case() {
    let mut s = String::from("0x");
    push_hex(&mut s, 0xBEEF, 8);
    assert_eq!(s, "0x0000BEEF");
    let mut t = String::new();
    push_hex(&mut t, 0x1234_5678, 4);
    assert_eq!(t, "5678");
    let mut u = String::new();
    push_hex(&mut u, 1, 0);
    assert_eq!(u, "");
}

#[test]
fn names_are_compared_without_ascii_case() {
    assert!(eq_ignore_ascii_case("Mini Metro.exe", "MINI METRO.EXE"));
    assert!(eq_ignore_ascii_case("", ""));
    assert!(!eq_ignore_ascii_case("a.exe", "a.ex"));
    assert!(!eq_ignore_ascii_case("a@", "a`"));
    assert!(!eq_ignore_ascii_case("[", "{"));
    assert!(!eq_ignore_ascii_case("\u{C4}.exe", "\u{E4}.exe"));
    assert!("Z".eq_ignore_ascii_case("z") && eq_ignore_ascii_case("Z", "z"));
}

#[test]
fn texts_are_compared_exactly() {
    assert!(same_text("--out", "--out"));
    assert!(!same_text("--out", "--Out"));
    assert!(!same_text("--out", "--outs"));
    assert_eq!(characters("a\u{1F600}b"), vec!['a', '\u{1F600}', 'b']);
}

#[test]
fn wide_text_ends_at_the_first_zero() {
    let buf: Vec<u16> = vec![0x41, 0x42, 0, 0x43];
    assert_eq!(wide_to_string(&buf), "AB");
    assert_eq!(wide_to_string(&[0x41, 0x42]), "AB");
    assert_eq!(wide_to_string(&[0]), "");
    assert_eq!(wide_to_string(&[]), "");
}

#[test]
fn lone_surrogates_are_replaced() {
    let cases: Vec<Vec<u16>> = vec![
        vec![0xD800],
        vec![0xDC00],
        vec![0xD800, 0x41],
        vec![0xD83D, 0xDE00],
        vec![0xD83D, 0xD83D, 0xDE00],
        vec![0xDE00, 0xD83D],
        vec![0xD7FF, 0xE000, 0xFFFF],
        vec![0xDBFF, 0xDFFF],
    ];
    for units in cases {
        assert_eq!(wide_to_string(&units), String::from_utf16_lossy(&units));
    }
    assert_eq!(wide_to_string(&[0xD800, 0x41]), "\u{FFFD}A");
    assert_eq!(wide_to_string(&[0xD83D, 0xDE00]), "\u{1F600}");
}

#[test]
fn wide_form_is_utf16_with_a_zero() {
    for s in ["", "C:\\Game.exe", "\u{20AC}\u{1F600}\u{10FFFF}"] {
        let mut expected: Vec<u16> = s.encode_utf16().collect();
        expected.push(0);
        assert_eq!(to_wide(s), expected);
        assert_eq!(wide_to_string(&to_wide(s)), s);
    }
    assert_eq!(wide_to_string(&to_wide("a\0b")), "a");
}

#[test]
fn numbers_are_little_endian() {
    let mut out: Vec<u8> = vec![7];
    push_u32(&mut out, 0x0102_0304);
    push_u64(&mut out, 0x1112_1314_1516_1718);
    assert_eq!(
        out,
        vec![7, 4, 3, 2, 1, 0x18, 0x17, 0x16, 0x15, 0x14, 0x13, 0x12, 0x11]
    );
    assert_eq!(read_u16(&out, 1), 0x0304);
    assert_eq!(read_u32(&out, 1), 0x0102_0304);
    assert_eq!(read_u64(&out, 5), 0x1112_1314_1516_1718);
}
