use majjit::ansi::{strip_ansi, strip_non_style_ansi};
use majjit::text::{chars_of, decimal_exec, lit, split_whitespace_exec, string_of, trim_str};

#[test]
fn strip_ansi_removes_style_sequences() {
    assert_eq!(strip_ansi("\x1b[1;32mgreen\x1b[0m plain"), "green plain");
    assert_eq!(strip_ansi("\x1b[m"), "");
    assert_eq!(strip_ansi("no escapes"), "no escapes");
}

#[test]
fn strip_ansi_keeps_other_sequences() {
    assert_eq!(strip_ansi("\x1b[2Jx"), "\x1b[2Jx");
    assert_eq!(strip_ansi("\x1b[1;2"), "\x1b[1;2");
}

#[test]
fn strip_ansi_is_a_single_pass() {
    assert_eq!(strip_ansi("\x1b\x1b[m[m"), "\x1b[m");
}

#[test]
fn strip_non_style_removes_control_sequences_only() {
    assert_eq!(strip_non_style_ansi("\x1b[2J\x1b[1mbold\x1b[0m"), "\x1b[1mbold\x1b[0m");
    assert_eq!(strip_non_style_ansi("\x1b[?25lhidden\x1b[?25h"), "hidden");
    assert_eq!(strip_non_style_ansi("a\x1b]0;title\x07b"), "ab");
    assert_eq!(strip_non_style_ansi("a\x1b]8;;url\x1b\\b"), "ab");
    assert_eq!(strip_non_style_ansi("a\x1bPdata\x1b\\b"), "ab");
}

#[test]
fn strip_non_style_keeps_unterminated_strings() {
    assert_eq!(strip_non_style_ansi("a\x1b]never"), "a\x1b]never");
}

#[test]
fn decimal_digits() {
    assert_eq!(string_of(&decimal_exec(0)), "0");
    assert_eq!(string_of(&decimal_exec(1907)), "1907");
}

#[test]
fn trim_uses_unicode_whitespace() {
    assert_eq!(trim_str("\u{3000} x \n"), "x");
    assert_eq!(lit("abc"), "abc");
}

#[test]
fn split_whitespace_drops_empty_words() {
    let words = split_whitespace_exec(&chars_of("  a  b\tc "));
    assert_eq!(words, vec!["a", "b", "c"]);
}
