use hues::light::{parse_hex_rgb, ParseColorError};

#[test]
fn short_form_expands_each_digit() {
    assert_eq!(parse_hex_rgb("abc"), Ok([170, 187, 204]));
    assert_eq!(parse_hex_rgb("000"), Ok([0, 0, 0]));
    assert_eq!(parse_hex_rgb("fff"), Ok([255, 255, 255]));
    assert_eq!(parse_hex_rgb("19F"), Ok([17, 153, 255]));
}

#[test]
fn short_form_with_hash() {
    assert_eq!(parse_hex_rgb("#abc"), Ok([170, 187, 204]));
}

#[test]
fn hash_prefix_is_optional() {
    assert_eq!(parse_hex_rgb("#abc"), parse_hex_rgb("abc"));
    assert_eq!(parse_hex_rgb("#1a2b3c"), parse_hex_rgb("1a2b3c"));
    assert_eq!(parse_hex_rgb("#12345z"), parse_hex_rgb("12345z"));
}

#[test]
fn long_form_combines_digit_pairs() {
    // Each pair d0 d1 gives d0 | (d1 << 1).
    assert_eq!(parse_hex_rgb("ff0000"), Ok([31, 0, 0]));
    assert_eq!(parse_hex_rgb("123456"), Ok([5, 11, 13]));
    assert_eq!(parse_hex_rgb("#a0b0c0"), Ok([10, 11, 12]));
    assert_eq!(parse_hex_rgb("0f0f0f"), Ok([30, 30, 30]));
}

#[test]
fn case_does_not_matter() {
    assert_eq!(parse_hex_rgb("ABC"), parse_hex_rgb("abc"));
    assert_eq!(parse_hex_rgb("#DeAdBe"), parse_hex_rgb("#deadbe"));
    assert_eq!(parse_hex_rgb("GGG"), parse_hex_rgb("ggg"));
}

#[test]
fn wrong_lengths_are_rejected() {
    assert_eq!(parse_hex_rgb(""), Err(ParseColorError::InvalidLength));
    assert_eq!(parse_hex_rgb("a"), Err(ParseColorError::InvalidLength));
    assert_eq!(parse_hex_rgb("ab"), Err(ParseColorError::InvalidLength));
    assert_eq!(parse_hex_rgb("abcde"), Err(ParseColorError::InvalidLength));
    assert_eq!(parse_hex_rgb("#abcdef0"), Err(ParseColorError::InvalidLength));
    assert_eq!(parse_hex_rgb("zzzzzzzzz"), Err(ParseColorError::InvalidLength));
}

#[test]
fn hash_required_exactly_at_lengths_four_and_seven() {
    assert_eq!(parse_hex_rgb("abcd"), Err(ParseColorError::InvalidByte));
    assert_eq!(parse_hex_rgb("abcdef0"), Err(ParseColorError::InvalidByte));
    assert_eq!(parse_hex_rgb("#ab"), Err(ParseColorError::InvalidByte));
    assert_eq!(parse_hex_rgb("#abcde"), Err(ParseColorError::InvalidByte));
}

#[test]
fn non_hex_digits_are_rejected() {
    assert_eq!(parse_hex_rgb("abg"), Err(ParseColorError::InvalidByte));
    assert_eq!(parse_hex_rgb("#12 456"), Err(ParseColorError::InvalidByte));
    assert_eq!(parse_hex_rgb("ab#"), Err(ParseColorError::InvalidByte));
}

#[test]
fn multi_byte_characters_count_by_bytes() {
    // "é" is two bytes, so these have lengths 3 and 6.
    assert_eq!(parse_hex_rgb("éa"), Err(ParseColorError::InvalidByte));
    assert_eq!(parse_hex_rgb("ééé"), Err(ParseColorError::InvalidByte));
    // Four bytes, first is not '#'.
    assert_eq!(parse_hex_rgb("éab"), Err(ParseColorError::InvalidByte));
    // Two characters, five bytes.
    assert_eq!(parse_hex_rgb("éé1"), Err(ParseColorError::InvalidLength));
}
