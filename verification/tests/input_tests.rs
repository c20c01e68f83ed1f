use langton_ant::input::{count_from_trimmed, dimension_from_trimmed, parse_count, parse_dimension};

#[test]
fn count_reads_trimmed_number() {
    assert_eq!(parse_count("12"), Some(12));
    assert_eq!(parse_count("  7 \n"), Some(7));
    assert_eq!(parse_count("+5"), Some(5));
    assert_eq!(parse_count("0"), Some(0));
    assert_eq!(parse_count("18446744073709551615"), Some(u64::MAX));
}

#[test]
fn count_rejects_other_text() {
    assert_eq!(parse_count(""), None);
    assert_eq!(parse_count("   "), None);
    assert_eq!(parse_count("abc"), None);
    assert_eq!(parse_count("-1"), None);
    assert_eq!(parse_count("1 2"), None);
    assert_eq!(parse_count("+"), None);
    assert_eq!(parse_count("18446744073709551616"), None);
}

#[test]
fn dimension_defaults_and_floor() {
    assert_eq!(parse_dimension(""), 70);
    assert_eq!(parse_dimension("x"), 70);
    assert_eq!(parse_dimension("1"), 2);
    assert_eq!(parse_dimension("0"), 2);
    assert_eq!(parse_dimension(" 40 "), 40);
    assert_eq!(parse_dimension("9"), 9);
}

#[test]
fn trimmed_readers_do_not_trim() {
    assert_eq!(count_from_trimmed("42"), Some(42));
    assert_eq!(count_from_trimmed(" 42"), None);
    assert_eq!(dimension_from_trimmed("12"), 12);
    assert_eq!(dimension_from_trimmed("12 "), 70);
    assert_eq!(dimension_from_trimmed("+1"), 2);
}
