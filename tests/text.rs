use buildtop::text::{chars_of, lines, split_chars, string_of};

fn v(x: &str) -> Vec<char> {
    x.chars().collect()
}

#[test]
fn split_keeps_empty_pieces() {
    assert_eq!(split_chars(&v("a::b:"), Some(':')), vec![v("a"), v(""), v("b"), v("")]);
    assert_eq!(split_chars(&v(""), Some(':')), vec![v("")]);
    assert_eq!(split_chars(&v(" a\u{3000}b"), None), vec![v(""), v("a"), v("b")]);
}

#[test]
fn lines_drop_final_newline() {
    assert_eq!(lines(&v("a\nb\n")), vec![v("a"), v("b")]);
    assert_eq!(lines(&v("a\n\nb")), vec![v("a"), v(""), v("b")]);
    assert_eq!(lines(&v("")), Vec::<Vec<char>>::new());
    assert_eq!(lines(&v("\n")), vec![v("")]);
}

#[test]
fn chars_round_trip() {
    assert_eq!(chars_of("é→x"), v("é→x"));
    assert_eq!(string_of(&v("é→x")), "é→x");
}

#[test]
fn lines_drop_carriage_returns() {
    assert_eq!(lines(&v("a\r\nb\r\n")), vec![v("a"), v("b")]);
    assert_eq!(lines(&v("a\r\r\nb\r")), vec![v("a\r"), v("b\r")]);
    assert_eq!(lines(&v("\r\n")), vec![v("")]);
}
