use puzzle_prep::files::parse_i32;
use puzzle_prep::files::parse_numbers;
use puzzle_prep::files::parse_numbers_one_line;
use puzzle_prep::files::parse_u32;
use puzzle_prep::files::trim_chars;

fn chars(s: &str) -> Vec<char> {
    s.chars().collect()
}

#[test]
fn parse_i32_accepts_signed_decimals() {
    assert_eq!(parse_i32(&chars("0")), Some(0));
    assert_eq!(parse_i32(&chars("42")), Some(42));
    assert_eq!(parse_i32(&chars("+42")), Some(42));
    assert_eq!(parse_i32(&chars("-42")), Some(-42));
    assert_eq!(parse_i32(&chars("2147483647")), Some(2147483647));
    assert_eq!(parse_i32(&chars("-2147483648")), Some(-2147483648));
}

#[test]
fn parse_i32_rejects_junk_and_overflow() {
    assert_eq!(parse_i32(&chars("")), None);
    assert_eq!(parse_i32(&chars("-")), None);
    assert_eq!(parse_i32(&chars("+")), None);
    assert_eq!(parse_i32(&chars("12a")), None);
    assert_eq!(parse_i32(&chars(" 12")), None);
    assert_eq!(parse_i32(&chars("--5")), None);
    assert_eq!(parse_i32(&chars("2147483648")), None);
    assert_eq!(parse_i32(&chars("-2147483649")), None);
    assert_eq!(parse_i32(&chars("99999999999999999999")), None);
}

#[test]
fn parse_u32_accepts_unsigned_decimals() {
    assert_eq!(parse_u32(&chars("0")), Some(0));
    assert_eq!(parse_u32(&chars("+7")), Some(7));
    assert_eq!(parse_u32(&chars("4294967295")), Some(4294967295));
}

#[test]
fn parse_u32_rejects_sign_and_overflow() {
    assert_eq!(parse_u32(&chars("-1")), None);
    assert_eq!(parse_u32(&chars("4294967296")), None);
    assert_eq!(parse_u32(&chars("")), None);
    assert_eq!(parse_u32(&chars("3.5")), None);
}

#[test]
fn trim_removes_surrounding_whitespace() {
    let trimmed: String = trim_chars(&chars("  \t12 \n")).into_iter().collect();
    assert_eq!(trimmed, "12");
    let trimmed: String = trim_chars(&chars("   ")).into_iter().collect();
    assert_eq!(trimmed, "");
    let trimmed: String = trim_chars(&chars("a b")).into_iter().collect();
    assert_eq!(trimmed, "a b");
}

#[test]
fn parse_numbers_trims_and_drops_bad_lines() {
    let lines = vec![
        "  12 ".to_owned(),
        "-3".to_owned(),
        "abc".to_owned(),
        "".to_owned(),
        "99x".to_owned(),
        "2147483647".to_owned(),
        "2147483648".to_owned(),
    ];
    assert_eq!(parse_numbers(&lines), vec![12, -3, 2147483647]);
}

#[test]
fn parse_numbers_one_line_splits_on_commas() {
    assert_eq!(parse_numbers_one_line("4,5,6"), vec![4, 5, 6]);
    // Fields are not trimmed: a trailing newline spoils the last field.
    assert_eq!(parse_numbers_one_line("4,5,banana,6\n"), vec![4, 5]);
    assert_eq!(parse_numbers_one_line(""), Vec::<u32>::new());
    assert_eq!(parse_numbers_one_line("7"), vec![7]);
}
