use iridium::repl::parse_hex;

#[test]
fn test_parse_hex_pairs() {
    assert_eq!(parse_hex("00 01 03 E8"), Some(vec![0, 1, 3, 232]));
}

#[test]
fn test_parse_hex_single_digits_and_cases() {
    assert_eq!(parse_hex("1 ff 0A"), Some(vec![1, 255, 10]));
}

#[test]
fn test_parse_hex_rejects_bad_tokens() {
    assert_eq!(parse_hex("zz"), None);
    assert_eq!(parse_hex(""), None);
    assert_eq!(parse_hex("0 100"), None);
    assert_eq!(parse_hex("0  1"), None);
}
