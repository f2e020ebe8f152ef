use gitgeoff::text::{
    char_is_whitespace, chars_of, find_after_last, find_char, join_comma, push_decimal, same_text,
    split_at_whitespace, string_of, trimmed_len,
};

fn strings(parts: &[&str]) -> Vec<String> {
    parts.iter().map(|s| s.to_string()).collect()
}

#[test]
fn whitespace_is_that_of_unicode() {
    let mut code: u32 = 0;
    while code <= 0x10ffff {
        if let Some(c) = char::from_u32(code) {
            assert_eq!(char_is_whitespace(c), c.is_whitespace(), "U+{:04X}", code);
        }
        code += 1;
    }
}

#[test]
fn chars_and_back() {
    let v = chars_of("héllo wörld");
    assert_eq!(v.len(), 11);
    assert_eq!(v[1], 'é');
    assert_eq!(string_of(&v, 0, v.len()), "héllo wörld");
    assert_eq!(string_of(&v, 6, 11), "wörld");
    assert_eq!(string_of(&v, 3, 3), "");
    assert_eq!(chars_of(""), Vec::<char>::new());
}

#[test]
fn finding_characters() {
    let v = chars_of("a/b/c");
    assert_eq!(find_char(&v, '/'), 1);
    assert_eq!(find_char(&v, 'c'), 4);
    assert_eq!(find_char(&v, 'x'), 5);
    assert_eq!(find_after_last(&v, '/'), 4);
    assert_eq!(find_after_last(&v, 'a'), 1);
    assert_eq!(find_after_last(&v, 'x'), 0);
    assert_eq!(find_char(&chars_of(""), 'x'), 0);
    assert_eq!(find_after_last(&chars_of(""), 'x'), 0);
}

#[test]
fn equal_texts() {
    assert!(same_text("abc", "abc"));
    assert!(same_text("", ""));
    assert!(!same_text("abc", "abd"));
    assert!(!same_text("abc", "ab"));
    assert!(!same_text("", "a"));
}

#[test]
fn trimming_the_end() {
    assert_eq!(trimmed_len(&chars_of("line\n")), 4);
    assert_eq!(trimmed_len(&chars_of("line \t\r\n")), 4);
    assert_eq!(trimmed_len(&chars_of("  line")), 6);
    assert_eq!(trimmed_len(&chars_of(" \n ")), 0);
    assert_eq!(trimmed_len(&chars_of("")), 0);
    assert_eq!(trimmed_len(&chars_of("a\u{3000}")), 1);
}

#[test]
fn decimal_notation() {
    let mut out = String::from("n=");
    push_decimal(&mut out, 0);
    assert_eq!(out, "n=0");
    let mut out = String::new();
    push_decimal(&mut out, 7);
    assert_eq!(out, "7");
    let mut out = String::new();
    push_decimal(&mut out, 10);
    assert_eq!(out, "10");
    let mut out = String::new();
    push_decimal(&mut out, 1234567890);
    assert_eq!(out, "1234567890");
    let mut out = String::new();
    push_decimal(&mut out, u64::MAX);
    assert_eq!(out, u64::MAX.to_string());
}

#[test]
fn splitting_at_whitespace() {
    assert_eq!(split_at_whitespace("a b c"), strings(&["a", "b", "c"]));
    assert_eq!(split_at_whitespace("a  b"), strings(&["a", "", "b"]));
    assert_eq!(split_at_whitespace(" a"), strings(&["", "a"]));
    assert_eq!(split_at_whitespace("a\t"), strings(&["a", ""]));
    assert_eq!(split_at_whitespace(""), strings(&[""]));
    assert_eq!(split_at_whitespace("one"), strings(&["one"]));
    let text = "x \u{a0}y\nz";
    let expected: Vec<String> = text
        .split(|c: char| c.is_whitespace())
        .map(|s| s.to_string())
        .collect();
    assert_eq!(split_at_whitespace(text), expected);
}

#[test]
fn joining_with_commas() {
    let parts = strings(&["a", "b", "c"]);
    assert_eq!(join_comma(&parts, 3), "a, b, c");
    assert_eq!(join_comma(&parts, 2), "a, b");
    assert_eq!(join_comma(&parts, 1), "a");
    assert_eq!(join_comma(&parts, 0), "");
    assert_eq!(join_comma(&Vec::new(), 0), "");
}
