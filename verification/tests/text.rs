use nestri_server::text::{
    chars_of, contains_chars, decimal_string, hex_upper_padded, parse_u32, split_chars,
    split_once_chars, trim,
};
use nestri_server::utf16::utf16_lossy;

fn c(s: &str) -> Vec<char> {
    s.chars().collect()
}

#[test]
fn decimal_of_numbers() {
    assert_eq!(decimal_string(0), "0");
    assert_eq!(decimal_string(8086), "8086");
    assert_eq!(decimal_string(u64::MAX), "18446744073709551615");
}

#[test]
fn hex_is_upper_case_and_padded() {
    assert_eq!(hex_upper_padded(0x10DE, 4), "10DE");
    assert_eq!(hex_upper_padded(0x8c, 4), "008C");
    assert_eq!(hex_upper_padded(0x12345, 4), "12345");
}

#[test]
fn trim_removes_unicode_white_space() {
    assert_eq!(trim("  a b\t\r\n"), "a b");
    assert_eq!(trim("\u{3000}x\u{A0}"), "x");
    assert_eq!(trim("   "), "");
}

#[test]
fn parse_u32_follows_std() {
    for s in ["0", "+7", "4294967295", "4294967296", "", "+", "-1", "12a", "007", " 1"] {
        assert_eq!(parse_u32(&c(s)), s.parse::<u32>().ok(), "{}", s);
    }
}

#[test]
fn split_keeps_empty_pieces() {
    let parts = split_chars(&c(":a::b"), ':');
    let parts: Vec<String> = parts.iter().map(|p| p.iter().collect()).collect();
    assert_eq!(parts, vec!["", "a", "", "b"]);
}

#[test]
fn split_once_at_first_separator() {
    let (a, b) = split_once_chars(&c("K=v=w"), '=').unwrap();
    assert_eq!(a, c("K"));
    assert_eq!(b, c("v=w"));
    assert!(split_once_chars(&c("no separator"), '=').is_none());
}

#[test]
fn contains_finds_runs() {
    assert!(contains_chars(&c("nvidia geforce rtx"), &c("rtx")));
    assert!(contains_chars(&c("abc"), &c("")));
    assert!(!contains_chars(&c("abc"), &c("abd")));
}

#[test]
fn chars_of_keeps_every_character() {
    assert_eq!(chars_of("héllo"), c("héllo"));
}

#[test]
fn utf16_decoding_matches_std() {
    let units: Vec<u16> = "GeForce 😀 RTX".encode_utf16().collect();
    assert_eq!(utf16_lossy(&units), "GeForce 😀 RTX");
    let broken = [0x0041u16, 0xD800, 0x0042, 0xDC00];
    assert_eq!(utf16_lossy(&broken), String::from_utf16_lossy(&broken));
}

#[test]
fn trim_twice_is_trim_once() {
    for s in ["  a b\t\r\n", "\u{3000}x\u{A0}", "   ", "plain", "\u{2028} y z \u{85}"] {
        let once = trim(s);
        assert_eq!(trim(&once), once);
        assert_eq!(once, s.trim());
    }
}
