use minijudge::text::{
    chars_eq, find_char, parse_i64, parse_millis, parse_u64, render_i64, render_millis,
    render_u64, split_char, starts_with_chars, trim_chars,
};

fn chars(s: &str) -> Vec<char> {
    s.chars().collect()
}

fn string_of(v: &[char]) -> String {
    v.iter().collect()
}

#[test]
fn test_parse_u64_values() {
    assert_eq!(parse_u64(&chars("0")), Some(0));
    assert_eq!(parse_u64(&chars("2048")), Some(2048));
    assert_eq!(parse_u64(&chars("007")), Some(7));
    assert_eq!(parse_u64(&chars("18446744073709551615")), Some(u64::MAX));
    assert_eq!(parse_u64(&chars("18446744073709551616")), None);
    assert_eq!(parse_u64(&chars("")), None);
    assert_eq!(parse_u64(&chars("12a")), None);
    assert_eq!(parse_u64(&chars("-1")), None);
}

#[test]
fn test_parse_i64_values() {
    assert_eq!(parse_i64(&chars("-9")), Some(-9));
    assert_eq!(parse_i64(&chars("9223372036854775807")), Some(i64::MAX));
    assert_eq!(parse_i64(&chars("-9223372036854775808")), Some(i64::MIN));
    assert_eq!(parse_i64(&chars("9223372036854775808")), None);
    assert_eq!(parse_i64(&chars("-9223372036854775809")), None);
    assert_eq!(parse_i64(&chars("-")), None);
}

#[test]
fn test_parse_millis_values() {
    assert_eq!(parse_millis(&chars("0.10")), Some(100));
    assert_eq!(parse_millis(&chars("2")), Some(2000));
    assert_eq!(parse_millis(&chars("1.")), Some(1000));
    assert_eq!(parse_millis(&chars(".5")), Some(500));
    assert_eq!(parse_millis(&chars("0.1239")), Some(123));
    assert_eq!(parse_millis(&chars("1.2.3")), None);
    assert_eq!(parse_millis(&chars(".")), None);
    assert_eq!(parse_millis(&chars("")), None);
}

#[test]
fn test_render_round_trips() {
    for value in [0u64, 9, 10, 104, 1000, 123456789, u64::MAX] {
        assert_eq!(parse_u64(&render_u64(value)), Some(value));
    }
    for value in [0i64, -1, 42, i64::MIN, i64::MAX] {
        assert_eq!(parse_i64(&render_i64(value)), Some(value));
    }
    for value in [0u64, 1, 100, 999, 1000, 2500, 104] {
        assert_eq!(parse_millis(&render_millis(value)), Some(value));
    }
}

#[test]
fn test_render_millis_form() {
    assert_eq!(string_of(&render_millis(100)), "0.100");
    assert_eq!(string_of(&render_millis(2000)), "2.000");
    assert_eq!(string_of(&render_millis(104)), "0.104");
}

#[test]
fn test_trim_chars() {
    assert_eq!(string_of(&trim_chars(&chars("  ok done\t\r\n"))), "ok done");
    assert_eq!(string_of(&trim_chars(&chars("\n\n"))), "");
    assert_eq!(string_of(&trim_chars(&chars("x"))), "x");
}

#[test]
fn test_split_and_find() {
    let pieces = split_char(&chars("a:b\n\nc"), '\n');
    let pieces: Vec<String> = pieces.iter().map(|p| string_of(p)).collect();
    assert_eq!(pieces, vec!["a:b", "", "c"]);
    assert_eq!(find_char(&chars("a:b:c"), ':'), Some(1));
    assert_eq!(find_char(&chars("abc"), ':'), None);
}

#[test]
fn test_starts_with_and_eq() {
    assert!(starts_with_chars(&chars("ok done"), &chars("ok")));
    assert!(!starts_with_chars(&chars("o"), &chars("ok")));
    assert!(chars_eq(&chars("same"), &chars("same")));
    assert!(!chars_eq(&chars("same"), &chars("sane")));
}
