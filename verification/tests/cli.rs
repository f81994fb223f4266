use gauge::cli::parse_line_range;

#[test]
fn test_parse_line_range_valid() {
    assert_eq!(parse_line_range("10-25"), Ok((10, 25)));
    assert_eq!(parse_line_range("1-1"), Ok((1, 1)));
}

#[test]
fn test_parse_line_range_invalid() {
    assert!(parse_line_range("abc").is_err());
    assert!(parse_line_range("10").is_err());
    assert!(parse_line_range("25-10").is_err());
    assert!(parse_line_range("0-5").is_err());
}

#[test]
fn line_range_messages() {
    assert_eq!(
        parse_line_range("abc"),
        Err("Invalid line range 'abc', expected format: start-end".to_string())
    );
    assert_eq!(
        parse_line_range("1-2-3"),
        Err("Invalid line range '1-2-3', expected format: start-end".to_string())
    );
    assert_eq!(parse_line_range("x-3"), Err("Invalid start line 'x'".to_string()));
    assert_eq!(parse_line_range("3-"), Err("Invalid end line ''".to_string()));
    assert_eq!(parse_line_range("0-5"), Err("Line numbers must be >= 1".to_string()));
    assert_eq!(
        parse_line_range("25-10"),
        Err("Start line 25 is greater than end line 10".to_string())
    );
}

#[test]
fn line_range_accepts_plus_signs() {
    assert_eq!(parse_line_range("+2-+7"), Ok((2, 7)));
    assert_eq!(parse_line_range("007-9"), Ok((7, 9)));
}
