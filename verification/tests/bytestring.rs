use embedded_ffi::sys_common::bytestring::{
    debug_fmt_bytestring, hex_digit_char, write_hex_escaped, write_str_escaped,
};

fn debug(bytes: &[u8]) -> String {
    let mut out = String::new();
    debug_fmt_bytestring(bytes, &mut out);
    out
}

#[test]
fn debug_shows_the_broken_byte_itself() {
    assert_eq!(debug(b"\x66\x6f\x80\x6f"), "\"fo\\x80o\"");
    assert!(!debug(b"\x66\x6f\x80\x6f").contains('\u{FFFD}'));
}

#[test]
fn debug_of_empty_input_is_two_quotes() {
    assert_eq!(debug(b""), "\"\"");
}

#[test]
fn debug_escapes_each_broken_byte_on_its_own() {
    assert_eq!(debug(b"a\xE2\x82"), "\"a\\xE2\\x82\"");
    assert_eq!(debug(b"\xFF\x00\x0A\xab"), "\"\\xFF\\0\\n\\xAB\"");
    assert_eq!(debug(b"\xC0\x80"), "\"\\xC0\\x80\"");
}

#[test]
fn debug_escapes_text_as_the_standard_rendering_does() {
    let text = "tab\there \"quoted\" back\\slash\r\n\u{7f}\u{e9}\u{301}";
    assert_eq!(debug(text.as_bytes()), format!("{:?}", text));
    assert_eq!(debug(b"'"), "\"\\'\"");
}

#[test]
fn debug_appends_to_what_is_there() {
    let mut out = String::from("x=");
    debug_fmt_bytestring(b"a", &mut out);
    assert_eq!(out, "x=\"a\"");
}

#[test]
fn hex_digits_are_upper_case() {
    let digits: Vec<char> = (0u8..16).map(hex_digit_char).collect();
    assert_eq!(digits.iter().collect::<String>(), "0123456789ABCDEF");
}

#[test]
fn hex_escape_has_two_digits() {
    let mut out = String::new();
    write_hex_escaped(&mut out, &[0x00, 0x0f, 0xa0, 0xff]);
    assert_eq!(out, "\\x00\\x0F\\xA0\\xFF");
}

#[test]
fn escaped_text_differs_from_its_source() {
    let mut out = String::new();
    write_str_escaped(&mut out, "a\nb");
    assert_eq!(out, "a\\nb");
    let mut out = String::from("k");
    write_str_escaped(&mut out, "");
    assert_eq!(out, "k");
}
