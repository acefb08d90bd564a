use vgdi::text::{decimal, escape_pdf_bytes, pdf_name_escape, to_winansi};

#[test]
fn decimal_has_no_leading_zeros() {
    assert_eq!(decimal(0), "0");
    assert_eq!(decimal(7), "7");
    assert_eq!(decimal(10), "10");
    assert_eq!(decimal(1203), "1203");
}

#[test]
fn winansi_maps_ascii_latin1_and_punctuation() {
    assert_eq!(to_winansi("Az ~"), vec![b'A', b'z', b' ', b'~']);
    assert_eq!(to_winansi("é·"), vec![0xE9, 0xB7]);
    assert_eq!(to_winansi("€…‘’“”•–—"), vec![0x80, 0x85, 0x91, 0x92, 0x93, 0x94, 0x95, 0x96, 0x97]);
}

#[test]
fn winansi_replaces_the_rest_with_question_mark() {
    assert_eq!(to_winansi("\t\u{7f}日"), vec![b'?', b'?', b'?']);
    assert_eq!(to_winansi(""), Vec::<u8>::new());
}

#[test]
fn literal_escapes_backslash_parens_and_high_bytes() {
    assert_eq!(escape_pdf_bytes(b"a(b)c\\"), "a\\(b\\)c\\\\");
    assert_eq!(escape_pdf_bytes(&[0xE9, 0x0A, 0x7F]), "\\351\\012\\177");
    assert_eq!(escape_pdf_bytes(b""), "");
}

#[test]
fn escaped_literal_is_printable_ascii() {
    let all: Vec<u8> = (0..=255u8).collect();
    let out = escape_pdf_bytes(&all);
    assert!(out.bytes().all(|b| (32..=126).contains(&b)));
}

#[test]
fn name_escape_keeps_regular_and_hex_encodes_rest() {
    assert_eq!(pdf_name_escape("PANTONE 185 C"), "PANTONE#20185#20C");
    assert_eq!(pdf_name_escape("a-b_c.d"), "a-b_c.d");
    assert_eq!(pdf_name_escape("#/é"), "#23#2F#C3#A9");
}

#[test]
fn name_escape_yields_a_single_token() {
    let all: Vec<u8> = (1..=255u8).collect();
    let name = String::from_utf8_lossy(&all).into_owned();
    let out = pdf_name_escape(&name);
    assert!(out.bytes().all(|b| b.is_ascii_alphanumeric() || matches!(b, b'-' | b'_' | b'.' | b'#')));
}
