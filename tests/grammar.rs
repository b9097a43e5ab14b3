use rust_shell::decimal::{i64_text, parse_i64, parse_u64, u64_text};
use rust_shell::grammar::{parse_arguments, split_command, Argument};
use rust_shell::text::trim_text;

fn s(x: &str) -> Argument {
    Argument::Str(x.to_string())
}

#[test]
fn parse_two_ints() {
    assert_eq!(parse_arguments("3,4"), vec![Argument::Int(3), Argument::Int(4)]);
}

#[test]
fn parse_seven_ints() {
    let v = parse_arguments("1,2,3,4,5,6,7");
    assert_eq!(v.len(), 7);
    for (i, a) in v.iter().enumerate() {
        assert_eq!(*a, Argument::Int(i as i64 + 1));
    }
}

#[test]
fn parse_quoted_comma_is_one_string() {
    assert_eq!(parse_arguments("\"hello, world\""), vec![s("hello, world")]);
    assert_eq!(parse_arguments("\"a,b\""), vec![s("a,b")]);
}

#[test]
fn parse_empty_input() {
    assert_eq!(parse_arguments(""), vec![]);
}

#[test]
fn parse_empty_quotes_is_empty_string() {
    assert_eq!(parse_arguments("\"\""), vec![s("")]);
}

#[test]
fn parse_quote_in_middle_is_kept() {
    assert_eq!(parse_arguments("\"a\"b"), vec![s("\"a\"b")]);
}

#[test]
fn parse_escape_keeps_next_char() {
    assert_eq!(parse_arguments("a\\,b"), vec![s("a,b")]);
    assert_eq!(parse_arguments("\"a\\\"b\""), vec![s("a\"b")]);
}

#[test]
fn parse_trailing_escape_dropped() {
    assert_eq!(parse_arguments("ab\\"), vec![s("ab")]);
    assert_eq!(parse_arguments("\\"), vec![]);
}

#[test]
fn parse_trimmed_integers() {
    assert_eq!(parse_arguments(" 5 , -6"), vec![Argument::Int(5), Argument::Int(-6)]);
}

#[test]
fn parse_bare_text_keeps_spaces() {
    assert_eq!(parse_arguments(" ab ,x"), vec![s(" ab "), s("x")]);
}

#[test]
fn parse_empty_fields() {
    assert_eq!(parse_arguments(",a"), vec![s(""), s("a")]);
    assert_eq!(parse_arguments("a,"), vec![s("a")]);
}

#[test]
fn parse_integer_limits() {
    assert_eq!(parse_arguments("9223372036854775807"), vec![Argument::Int(i64::MAX)]);
    assert_eq!(parse_arguments("-9223372036854775808"), vec![Argument::Int(i64::MIN)]);
    assert_eq!(parse_arguments("9223372036854775808"), vec![s("9223372036854775808")]);
    assert_eq!(parse_arguments("+12"), vec![Argument::Int(12)]);
    assert_eq!(parse_arguments("-"), vec![s("-")]);
}

#[test]
fn argument_count_follows_separators() {
    assert_eq!(parse_arguments("a,b,\"c,d\",e").len(), 4);
    assert_eq!(parse_arguments("x\\,y,z").len(), 2);
}

#[test]
fn text_round_trip() {
    for t in ["hello", "a b", "x-1", "--", "é"] {
        assert_eq!(parse_arguments(t), vec![s(t)]);
    }
}

#[test]
fn int_round_trip() {
    for n in [0i64, 7, -7, 42, i64::MAX, i64::MIN, 1000000] {
        let text = Argument::Int(n).to_text();
        assert_eq!(parse_arguments(&text), vec![Argument::Int(n)]);
    }
}

#[test]
fn argument_text() {
    assert_eq!(Argument::Int(-15).to_text(), "-15");
    assert_eq!(s("ab").to_text(), "ab");
}

#[test]
fn argument_equality() {
    assert!(s("a") == s("a"));
    assert!(s("1") != Argument::Int(1));
    assert!(Argument::Int(2) != Argument::Int(3));
}

#[test]
fn split_at_first_space() {
    assert_eq!(
        split_command("add_two 3,4"),
        Some(("add_two".to_string(), "3,4".to_string()))
    );
    assert_eq!(
        split_command("print_str \"hello, world\" x"),
        Some(("print_str".to_string(), "\"hello, world\" x".to_string()))
    );
}

#[test]
fn split_without_space() {
    assert_eq!(split_command("hello"), Some(("hello".to_string(), String::new())));
    assert_eq!(split_command(""), Some((String::new(), String::new())));
}

#[test]
fn split_trailing_space() {
    assert_eq!(split_command("a "), Some(("a".to_string(), String::new())));
}

#[test]
fn decimal_text() {
    assert_eq!(u64_text(0), "0");
    assert_eq!(u64_text(18446744073709551615), "18446744073709551615");
    assert_eq!(i64_text(-9223372036854775808), "-9223372036854775808");
    assert_eq!(i64_text(28), "28");
}

#[test]
fn decimal_parse() {
    assert_eq!(parse_i64("123"), Some(123));
    assert_eq!(parse_i64("-0"), Some(0));
    assert_eq!(parse_i64(" 1"), None);
    assert_eq!(parse_i64(""), None);
    assert_eq!(parse_i64("1a"), None);
    assert_eq!(parse_u64("+5"), Some(5));
    assert_eq!(parse_u64("-5"), None);
    assert_eq!(parse_u64("18446744073709551616"), None);
}

#[test]
fn trim_unicode_space() {
    assert_eq!(trim_text("\u{3000} a b\t\n"), "a b");
    assert_eq!(trim_text("   "), "");
}

#[test]
fn trim_end_only() {
    assert_eq!(rust_shell::text::trim_end_text("  a b \n"), "  a b");
}
