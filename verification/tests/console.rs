use app_runtime::console::{
    c_string, printf_format, printf_output, putchar, puts, render, window_len, TextError, FAILURE,
};

#[test]
fn window_reaches_to_the_end_of_application_memory() {
    assert_eq!(window_len(0x8020_0010, 0x8020_0000, 0x8030_0000), Some(0xf_fff0));
    assert_eq!(window_len(0x8020_0000, 0x8020_0000, 0x8030_0000), Some(0x10_0000));
    assert_eq!(window_len(0x802f_ffff, 0x8020_0000, 0x8030_0000), Some(1));
}

#[test]
fn window_of_null_is_nothing_and_of_a_stray_pointer_empty() {
    assert_eq!(window_len(0, 0, 0x1000), None);
    assert_eq!(window_len(0, 0x8020_0000, 0x8030_0000), None);
    assert_eq!(window_len(0x8030_0000, 0x8020_0000, 0x8030_0000), Some(0));
    assert_eq!(window_len(0x801f_ffff, 0x8020_0000, 0x8030_0000), Some(0));
    assert_eq!(window_len(0x1000, 0x2000, 0x1000), Some(0));
}

#[test]
fn puts_null_is_minus_one() {
    let out = puts(None);
    assert_eq!(out.status, -1);
    assert_eq!(out.text, "");
}

#[test]
fn printf_null_is_minus_one() {
    let r = printf_format(None);
    assert_eq!(r, Err(TextError::NullPointer));
    assert_eq!(r.unwrap_err().status(), -1);
    assert_eq!(FAILURE, -1);
}

#[test]
fn puts_hi_returns_three_and_writes_a_line() {
    let out = puts(Some(b"hi\0"));
    assert_eq!(out.status, 3);
    assert_eq!(out.text, "hi\n");
}

#[test]
fn puts_stops_at_the_first_nul() {
    let out = puts(Some(b"ab\0cd\0"));
    assert_eq!(out.status, 3);
    assert_eq!(out.text, "ab\n");
}

#[test]
fn puts_of_empty_string_writes_a_line_break() {
    let out = puts(Some(b"\0"));
    assert_eq!(out.status, 1);
    assert_eq!(out.text, "\n");
}

#[test]
fn puts_unterminated_writes_nothing() {
    let out = puts(Some(b"hi"));
    assert_eq!(out.status, -1);
    assert_eq!(out.text, "");
    let out = puts(Some(b""));
    assert_eq!(out.status, -1);
    assert_eq!(out.text, "");
}

#[test]
fn puts_counts_bytes_of_utf8_text() {
    let out = puts(Some("h\u{e9}\0".as_bytes()));
    assert_eq!(out.text, "h\u{e9}\n");
    assert_eq!(out.status, 4);
}

#[test]
fn puts_renders_invalid_utf8_byte_by_byte() {
    let out = puts(Some(&[0xff, b'A', 0xc3, 0]));
    assert_eq!(out.text, "\u{ff}A\u{c3}\n");
    assert_eq!(out.status, 4);
    assert!(out.invalid_text);
}

#[test]
fn puts_of_valid_text_does_not_flag_it() {
    assert!(!puts(Some("h\u{e9}\0".as_bytes())).invalid_text);
    assert!(!puts(Some(b"hi\0")).invalid_text);
    assert!(!puts(None).invalid_text);
    assert!(!puts(Some(&[0xff])).invalid_text);
}

#[test]
fn c_string_reads_up_to_the_terminator() {
    assert_eq!(c_string(Some(b"abc\0def")), Ok(&b"abc"[..]));
    assert_eq!(c_string(Some(b"\0")), Ok(&b""[..]));
    assert_eq!(c_string(Some(b"abc")), Err(TextError::Unterminated));
    assert_eq!(c_string(None), Err(TextError::NullPointer));
}

#[test]
fn render_decodes_utf8_and_falls_back_to_bytes() {
    assert_eq!(render("gr\u{fc}n".as_bytes()), (String::from("gr\u{fc}n"), false));
    assert_eq!(render(&[b'a', 0x80, b'b']), (String::from("a\u{80}b"), true));
    assert_eq!(render(b""), (String::new(), false));
    assert_eq!(render(&[0xc0, 0x80]), (String::from("\u{c0}\u{80}"), true));
    assert_eq!(render(&[0xed, 0xa0, 0x80]), (String::from("\u{ed}\u{a0}\u{80}"), true));
}

#[test]
fn putchar_is_one_character() {
    assert_eq!(putchar('x'), "x");
    assert_eq!(putchar('\u{4e16}'), "\u{4e16}");
}

#[test]
fn printf_format_hands_the_format_to_the_renderer() {
    assert_eq!(printf_format(Some(b"%d-%s\0")), Ok(&b"%d-%s"[..]));
    assert_eq!(printf_format(Some(b"%d-%s")), Err(TextError::Unterminated));
}

#[test]
fn printf_renders_text_and_returns_its_length() {
    let format = printf_format(Some(b"%d-%s\0")).unwrap();
    assert_eq!(format, b"%d-%s");
    let out = printf_output(Some(String::from("42-x")));
    assert_eq!(out.text, "42-x");
    assert_eq!(out.status, 4);
    assert!(!out.invalid_text);
}

#[test]
fn printf_counts_bytes() {
    let out = printf_output(Some(String::from("\u{e9}!")));
    assert_eq!(out.status, 3);
    let out = printf_output(Some(String::new()));
    assert_eq!(out.status, 0);
    assert_eq!(out.text, "");
}

#[test]
fn printf_of_a_format_that_cannot_be_rendered_fails() {
    let out = printf_output(None);
    assert_eq!(out.status, -1);
    assert_eq!(out.text, "");
}
