use image_tool::color::parse_hex_color;
use image_tool::text::{is_blank, same_text};

#[test]
fn parses_white_with_hash() {
    assert_eq!(parse_hex_color("#ffffff"), Ok([255, 255, 255]));
}

#[test]
fn parses_black_without_hash() {
    assert_eq!(parse_hex_color("000000"), Ok([0, 0, 0]));
}

#[test]
fn parses_mixed_case_and_repeated_hashes() {
    assert_eq!(parse_hex_color("##12ab9F"), Ok([0x12, 0xab, 0x9f]));
}

#[test]
fn channels_are_digit_pairs() {
    assert_eq!(parse_hex_color("#A0B1C2"), Ok([0xa0, 0xb1, 0xc2]));
}

#[test]
fn plus_sign_is_read_like_from_str_radix() {
    assert_eq!(parse_hex_color("+12345"), Ok([0x01, 0x23, 0x45]));
}

#[test]
fn short_color_is_a_length_error() {
    assert_eq!(
        parse_hex_color("#fff"),
        Err("颜色格式应为 #RRGGBB，当前为：fff".to_string())
    );
}

#[test]
fn empty_color_is_a_length_error() {
    assert_eq!(
        parse_hex_color("###"),
        Err("颜色格式应为 #RRGGBB，当前为：".to_string())
    );
}

#[test]
fn non_hex_digit_is_a_format_error() {
    assert_eq!(
        parse_hex_color("#gggggg"),
        Err("颜色格式错误：gggggg".to_string())
    );
}

#[test]
fn length_is_counted_in_bytes() {
    // four ASCII digits and one two-byte character: six bytes, bad digit
    assert_eq!(
        parse_hex_color("1234é"),
        Err("颜色格式错误：1234é".to_string())
    );
    // five ASCII digits and one two-byte character: seven bytes
    assert_eq!(
        parse_hex_color("12345é"),
        Err("颜色格式应为 #RRGGBB，当前为：12345é".to_string())
    );
}

#[test]
fn lone_sign_is_a_format_error() {
    assert_eq!(
        parse_hex_color("+-----"),
        Err("颜色格式错误：+-----".to_string())
    );
}

#[test]
fn blank_texts() {
    assert!(is_blank(""));
    assert!(is_blank(" \t\n\r"));
    assert!(is_blank("\u{3000}\u{a0}"));
    assert!(!is_blank(" a "));
    assert!(!is_blank("测试水印"));
}

#[test]
fn lowercase_and_compare() {
    assert!(same_text("webp", "webp"));
    assert!(!same_text("webp", "web"));
    assert!(!same_text("bmp", "bmq"));
}
