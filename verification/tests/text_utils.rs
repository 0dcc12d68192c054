use devstart::text::{replace_text, same_text, split_char, text_less, text_lines};

#[test]
fn lines_follow_str_lines() {
    assert_eq!(text_lines("a\r\nb\n\nc"), vec!["a", "b", "", "c"]);
    assert_eq!(text_lines("a\n"), vec!["a"]);
    assert!(text_lines("").is_empty());
    assert_eq!(text_lines("x\r"), vec!["x\r"]);
    let s = "one\r\ntwo\n\nthree\r";
    assert_eq!(text_lines(s), s.lines().collect::<Vec<_>>());
}

#[test]
fn split_keeps_empty_pieces() {
    assert_eq!(split_char("a  b ", ' '), vec!["a", "", "b", ""]);
    assert_eq!(split_char("", ' '), vec![""]);
}

#[test]
fn replace_is_left_to_right_without_overlap() {
    assert_eq!(replace_text("aaaa", "aa", "b"), "bb");
    assert_eq!(replace_text("aaa", "aa", "b"), "ba");
    assert_eq!(replace_text("héllo wörld", "ö", "o"), "héllo world");
    assert_eq!(replace_text("x", "xyz", "q"), "x");
    assert_eq!(replace_text("aaa", "aa", "b"), "aaa".replace("aa", "b"));
}

#[test]
fn replace_empty_pattern_surrounds_every_character() {
    assert_eq!(replace_text("ab", "", "X"), "XaXbX");
    assert_eq!(replace_text("", "", "X"), "X");
    assert_eq!(replace_text("hé", "", "-"), "hé".replace("", "-"));
}

#[test]
fn order_is_by_code_point() {
    assert!(text_less("B", "a"));
    assert!(text_less("ab", "abc"));
    assert!(!text_less("abc", "abc"));
    assert!(text_less("", "a"));
    assert!(text_less("z", "é"));
    assert!(same_text("é", "é"));
    assert!(!same_text("e", "é"));
}
