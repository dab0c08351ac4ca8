use stakenet_simulator::text::{find_text, push_decimal, same_text, split_whitespace, trim};

#[test]
fn decimal_numerals() {
    let mut s = String::from("x");
    push_decimal(&mut s, 0);
    push_decimal(&mut s, 907);
    push_decimal(&mut s, u64::MAX);
    assert_eq!(s, format!("x0907{}", u64::MAX));
}

#[test]
fn trim_removes_unicode_white_space() {
    assert_eq!(trim("  \t backtest 1 \n"), "backtest 1");
    assert_eq!(trim("\u{3000}a b\u{a0}"), "a b");
    assert_eq!(trim("   "), "");
    assert_eq!(trim(""), "");
}

#[test]
fn whitespace_words_drop_empty_words() {
    assert_eq!(split_whitespace("  environment variable  X\tnot found "), vec!["environment", "variable", "X", "not", "found"]);
    assert!(split_whitespace(" \n ").is_empty());
}

#[test]
fn text_search() {
    assert!(find_text("variable not found", "not found"));
    assert!(!find_text("not fo", "not found"));
    assert!(find_text("abc", ""));
    assert!(same_text("abc", "abc"));
    assert!(!same_text("abc", "abd"));
}
