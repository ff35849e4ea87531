use hexscope::navigate::{parse_offset, row_of_offset, ParseError, BYTES_PER_ROW};

#[test]
fn parses_hex_with_prefix() {
    assert_eq!(parse_offset("0x1A"), Ok(26));
}

#[test]
fn parses_decimal_without_prefix() {
    assert_eq!(parse_offset("26"), Ok(26));
}

#[test]
fn rejects_non_hex_after_prefix() {
    assert_eq!(parse_offset("0xZZ"), Err(ParseError));
}

#[test]
fn ignores_surrounding_whitespace() {
    assert_eq!(parse_offset("  26  "), Ok(26));
    assert_eq!(parse_offset("\t0x1A\n"), Ok(26));
}

#[test]
fn ignores_unicode_whitespace() {
    assert_eq!(parse_offset("\u{A0}26\u{3000}"), Ok(26));
    assert_eq!(parse_offset("\u{2003}0x1A\r\n"), Ok(26));
}

#[test]
fn accepts_upper_case_prefix_and_digits() {
    assert_eq!(parse_offset("0X1a"), Ok(26));
    assert_eq!(parse_offset("0xfF"), Ok(255));
}

#[test]
fn rejects_empty_and_blank_text() {
    assert_eq!(parse_offset(""), Err(ParseError));
    assert_eq!(parse_offset("   "), Err(ParseError));
}

#[test]
fn rejects_bare_prefix() {
    assert_eq!(parse_offset("0x"), Err(ParseError));
}

#[test]
fn accepts_leading_plus() {
    assert_eq!(parse_offset("+26"), Ok(26));
    assert_eq!(parse_offset("0x+1A"), Ok(26));
}

#[test]
fn rejects_trailing_garbage() {
    assert_eq!(parse_offset("26x"), Err(ParseError));
    assert_eq!(parse_offset("2 6"), Err(ParseError));
}

#[test]
fn rejects_negative() {
    assert_eq!(parse_offset("-26"), Err(ParseError));
}

#[test]
fn rejects_value_too_large_for_offsets() {
    assert_eq!(parse_offset("99999999999999999999999999999999"), Err(ParseError));
    assert_eq!(parse_offset("0xFFFFFFFFFFFFFFFFFF"), Err(ParseError));
}

#[test]
fn parses_zero() {
    assert_eq!(parse_offset("0"), Ok(0));
    assert_eq!(parse_offset("0x0"), Ok(0));
}

#[test]
fn row_is_offset_divided_by_row_width() {
    assert_eq!(BYTES_PER_ROW, 16);
    assert_eq!(row_of_offset(0), 0);
    assert_eq!(row_of_offset(15), 0);
    assert_eq!(row_of_offset(16), 1);
    assert_eq!(row_of_offset(26), 1);
    assert_eq!(row_of_offset(256), 16);
}
