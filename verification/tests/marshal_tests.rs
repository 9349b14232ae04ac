use workload_bridge::marshal::{check_no_null, check_text, check_utf8, str_for_c, str_from_c};

#[test]
fn str_for_c_appends_terminator() {
    let out = str_for_c(b"abc".to_vec());
    assert_eq!(out, Some(b"abc\0".to_vec()));
}

#[test]
fn str_for_c_empty_payload() {
    let out = str_for_c(Vec::new());
    assert_eq!(out, Some(vec![0u8]));
}

#[test]
fn str_for_c_rejects_interior_null() {
    let out = str_for_c(b"ab\0c".to_vec());
    assert_eq!(out, None);
}

#[test]
fn str_from_c_reads_until_terminator() {
    let out = str_from_c(&b"hi\0junk".to_vec());
    assert_eq!(out, Some(b"hi".to_vec()));
}

#[test]
fn str_from_c_requires_terminator() {
    let out = str_from_c(&b"no terminator".to_vec());
    assert_eq!(out, None);
}

#[test]
fn str_from_c_rejects_malformed_payload() {
    // A lone continuation byte before the terminator is not UTF-8.
    let out = str_from_c(&vec![0x80u8, 0u8]);
    assert_eq!(out, None);
}

#[test]
fn str_from_c_accepts_two_byte_scalar() {
    // "hé\0" with é encoded as C3 A9.
    let out = str_from_c(&vec![0x68u8, 0xC3, 0xA9, 0x00]);
    assert_eq!(out, Some(vec![0x68u8, 0xC3, 0xA9]));
}

#[test]
fn utf8_accepts_ascii() {
    assert!(check_utf8(&b"plain ascii".to_vec()));
}

#[test]
fn utf8_accepts_four_byte_scalar() {
    // U+1F496, encoded F0 9F 92 96.
    assert!(check_utf8(&vec![0xF0u8, 0x9F, 0x92, 0x96]));
}

#[test]
fn utf8_rejects_overlong_encoding() {
    // C0 80 is an overlong encoding of U+0000.
    assert!(!check_utf8(&vec![0xC0u8, 0x80]));
}

#[test]
fn utf8_rejects_surrogate() {
    // ED A0 80 encodes a surrogate code point.
    assert!(!check_utf8(&vec![0xEDu8, 0xA0, 0x80]));
}

#[test]
fn utf8_rejects_out_of_range_scalar() {
    // F4 90 80 80 would encode above U+10FFFF.
    assert!(!check_utf8(&vec![0xF4u8, 0x90, 0x80, 0x80]));
}

#[test]
fn utf8_rejects_truncated_scalar() {
    assert!(!check_utf8(&vec![0xE2u8, 0x82]));
}

#[test]
fn null_check_sees_interior_null() {
    assert!(!check_no_null(&b"a\0b".to_vec()));
    assert!(check_no_null(&b"ab".to_vec()));
}

#[test]
fn text_check_combines_both_conditions() {
    assert!(check_text(&b"ok".to_vec()));
    assert!(!check_text(&b"bad\0".to_vec()));
    assert!(!check_text(&vec![0xFFu8]));
}
