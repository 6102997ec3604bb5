use glorfindel::dice::parse_notation;

#[test]
fn test_parse() {
    assert_eq!(parse_notation("d20"), Some((1, 20, 0)));
    assert_eq!(parse_notation("2d6+3"), Some((2, 6, 3)));
    assert_eq!(parse_notation("d20-1"), Some((1, 20, -1)));
    assert_eq!(parse_notation("4d6"), Some((4, 6, 0)));
    assert_eq!(parse_notation("1d4+2"), Some((1, 4, 2)));
}

#[test]
fn formatted_notations_read_back_with_explicit_zero() {
    assert_eq!(parse_notation("2d6+0"), Some((2, 6, 0)));
    assert_eq!(parse_notation("2d6-0"), Some((2, 6, 0)));
    assert_eq!(parse_notation("d20+0"), Some((1, 20, 0)));
    assert_eq!(parse_notation("100d1000-2147483647"), Some((100, 1000, -2147483647)));
}
