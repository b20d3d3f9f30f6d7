use wl_showkeys::color::{color_channels, color_warning, parse_color, Channels};
use wl_showkeys::number::{append_decimal, parse_i32, parse_i64, parse_u32};
use wl_showkeys::pango_helper::get_text_size;
use wl_showkeys::text::{chars_of, same_text, starts_with, text_before_nul};

#[test]
fn six_digits_are_opaque() {
    assert_eq!(parse_color("#123456"), 0x123456ff);
    assert_eq!(parse_color("123456"), 0x123456ff);
    assert_eq!(parse_color("#123456"), parse_color("#123456FF"));
}

#[test]
fn eight_digits_hold_the_opacity() {
    assert_eq!(parse_color("#000000cc"), 0x000000cc);
    assert_eq!(parse_color("#AAaaAAff"), 0xaaaaaaff);
    assert_eq!(parse_color("#FFFFFFFF"), 0xffffffff);
}

#[test]
fn unreadable_colors_are_white() {
    for color in ["", "#", "red", "#12345", "#1234567", "#zzzzzz", "-12345", "ééé", "##12345", "#123456789"] {
        assert_eq!(parse_color(color), 0xffffffff);
    }
}

#[test]
fn plus_sign_is_a_sign() {
    assert_eq!(parse_color("+12345"), 0x012345ff);
    assert_eq!(parse_color("#+1234567"), 0x01234567);
}

#[test]
fn wrong_length_is_warned_of() {
    assert_eq!(
        color_warning("#12345"),
        Some("Invalid color 12345, defaulting to 0xFFFFFFFF".to_string())
    );
    assert_eq!(
        color_warning("red"),
        Some("Invalid color red, defaulting to 0xFFFFFFFF".to_string())
    );
    assert_eq!(color_warning("#123456"), None);
    assert_eq!(color_warning("#zzzzzzzz"), None);
    assert_eq!(color_warning("ééé"), None);
    assert!(color_warning("éééééé").is_some());
}

#[test]
fn colors_have_four_channels() {
    assert_eq!(
        color_channels(parse_color("#1A2b3C4d")),
        Channels { red: 0x1a, green: 0x2b, blue: 0x3c, alpha: 0x4d }
    );
    assert_eq!(
        color_channels(0xff00_80cc),
        Channels { red: 255, green: 0, blue: 128, alpha: 204 }
    );
}

#[test]
fn decimal_numbers_are_read() {
    for s in [
        "0", "-0", "+7", "-7", "007", "9223372036854775807", "-9223372036854775808",
        "9223372036854775808", "-9223372036854775809", "", "+", "-", "--1", "+-1", "1 ", " 1", "1a",
        "٣", "2147483647", "2147483648", "-2147483648", "-2147483649", "4294967295", "4294967296",
        "000000000000000000000000000000000000001", "99999999999999999999999999999999999999999",
    ] {
        assert_eq!(parse_i64(s), s.parse::<i64>().ok(), "{}", s);
        assert_eq!(parse_i32(s), s.parse::<i32>().ok(), "{}", s);
        assert_eq!(parse_u32(s, 10), s.parse::<u32>().ok(), "{}", s);
    }
}

#[test]
fn hexadecimal_numbers_are_read() {
    for s in ["ff", "FF", "+ff", "-ff", "g", "fffffffff", "0ffffffff", "", "+", "#12"] {
        assert_eq!(parse_u32(s, 16), u32::from_str_radix(s, 16).ok(), "{}", s);
    }
}

#[test]
fn texts_are_compared() {
    assert!(same_text("é", "é"));
    assert!(!same_text("e", "é"));
    assert!(!same_text("abc", "ab"));
    assert!(starts_with("/dev/input/x", "/dev/input"));
    assert!(starts_with("x", ""));
    assert!(!starts_with("/dev/in", "/dev/input"));
    assert!(!starts_with("/etc/input", "/dev/input"));
    assert_eq!(chars_of("aé"), vec!['a', 'é']);
}

#[test]
fn text_ends_at_its_nul() {
    assert_eq!(text_before_nul(b"abc\0def"), Some("abc"));
    assert_eq!(text_before_nul(b"abc"), Some("abc"));
    assert_eq!(text_before_nul(b""), Some(""));
    assert_eq!(text_before_nul(&[0xff]), None);
    assert_eq!(text_before_nul(&[b'a', 0, 0xff]), Some("a"));
}

#[test]
fn text_size_is_in_pixels() {
    assert_eq!(get_text_size((14, 29), 22528, 1024), (14, 29, 22));
    assert_eq!(get_text_size((0, 0), 1023, 1024), (0, 0, 0));
    assert_eq!(get_text_size((1, 2), -2047, 1024), (1, 2, -1));
}

#[test]
fn numbers_are_read_back() {
    for n in [0, 7, 10, 99, 100, 2_147_483_647, -1, -10, i32::MIN] {
        let mut text = "n".to_string();
        append_decimal(&mut text, n);
        assert_eq!(text, format!("n{}", n));
        assert_eq!(parse_i32(&text[1..]), Some(n));
    }
}
