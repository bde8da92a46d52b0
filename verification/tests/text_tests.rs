use rainbow_blog::text::{ascii_uppercase, chars_of, i64_to_string, join_strs, parse_i64, split_on, str_eq, string_of};

#[test]
fn decimal_text_parses_back() {
    for n in [0i64, 7, -7, 42, 1_700_000_000, i64::MAX, i64::MIN] {
        let s = i64_to_string(n);
        assert_eq!(s, n.to_string());
        assert_eq!(parse_i64(&chars_of(&s)), Some(n));
    }
}

#[test]
fn parsing_follows_std() {
    for s in ["12", "+12", "-12", "", "-", "+", "1a", " 1", "9223372036854775807", "9223372036854775808", "-9223372036854775808", "-9223372036854775809"] {
        assert_eq!(parse_i64(&chars_of(s)), s.parse::<i64>().ok(), "{}", s);
    }
}

#[test]
fn text_helpers() {
    assert_eq!(string_of(&chars_of("héllo")), "héllo");
    assert!(str_eq("a", "a"));
    assert!(!str_eq("a", "b"));
    assert_eq!(ascii_uppercase("usd-é"), "USD-é");
    let parts: Vec<String> = split_on(&chars_of("a,,b"), ',').iter().map(|p| string_of(p)).collect();
    assert_eq!(parts, vec!["a".to_string(), "".to_string(), "b".to_string()]);
    assert_eq!(join_strs(&vec!["x".to_string(), "y".to_string()], " AND "), "x AND y");
    assert_eq!(join_strs(&vec![], ", "), "");
}
