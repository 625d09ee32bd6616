use xshim::text;

#[test]
fn utf8_round_trip() {
    for s in ["", "desktop", "größe", "\u{10ffff}x"] {
        let bytes = text::bytes_of(s);
        assert_eq!(bytes, s.as_bytes());
        assert_eq!(text::from_utf8(bytes), Some(s.to_string()));
    }
    assert_eq!(text::from_utf8(vec![0xff]), None);
    assert_eq!(text::from_utf8(vec![0xe2, 0x82]), None);
}

#[test]
fn utf8_of_texts_in_a_row() {
    let mut bytes = text::bytes_of("ä");
    bytes.extend(text::bytes_of("b"));
    assert_eq!(bytes, text::bytes_of("äb"));
}

#[test]
fn bytes_are_compared() {
    assert!(text::same(&vec![1, 2], &vec![1, 2]));
    assert!(!text::same(&vec![1, 2], &vec![1, 3]));
    assert!(!text::same(&vec![1, 2], &vec![1]));
    assert_eq!(text::copy(&vec![4, 5]), vec![4, 5]);
}

#[test]
fn decimals() {
    assert_eq!(text::decimal(0), "0");
    assert_eq!(text::decimal(7), "7");
    assert_eq!(text::decimal(10), "10");
    assert_eq!(text::decimal(u64::MAX), "18446744073709551615");
    assert_eq!(text::signed_decimal(0), "0");
    assert_eq!(text::signed_decimal(-12), "-12");
    assert_eq!(text::signed_decimal(i32::MIN), "-2147483648");
    assert_eq!(text::signed_decimal(i32::MAX), "2147483647");
}

#[test]
fn unsigned_numbers() {
    assert_eq!(text::parse_unsigned("0", 255), Some(0));
    assert_eq!(text::parse_unsigned("255", 255), Some(255));
    assert_eq!(text::parse_unsigned("256", 255), None);
    assert_eq!(text::parse_unsigned("+7", 255), Some(7));
    assert_eq!(text::parse_unsigned("007", 255), Some(7));
    assert_eq!(text::parse_unsigned("", 255), None);
    assert_eq!(text::parse_unsigned("+", 255), None);
    assert_eq!(text::parse_unsigned("-1", 255), None);
    assert_eq!(text::parse_unsigned(" 1", 255), None);
    assert_eq!(text::parse_unsigned("4294967295", u32::MAX), Some(u32::MAX));
    assert_eq!(text::parse_unsigned("99999999999999999999999999", u32::MAX), None);
    for s in ["1", "+1", "++1", "1x", "65535", "65536", "00065535", "-0"] {
        assert_eq!(text::parse_unsigned(s, 65535), s.parse::<u16>().ok().map(u32::from));
    }
}

#[test]
fn signed_numbers() {
    for s in [
        "0", "-0", "+0", "5", "-5", "+5", "-", "+", "", "2147483647", "2147483648", "-2147483648",
        "-2147483649", "--1", "1-",
    ] {
        assert_eq!(text::parse_i32(s), s.parse::<i32>().ok());
    }
}

#[test]
fn numbers_are_read_back() {
    for n in [0u32, 1, 9, 10, 99, 100, 65535, u32::MAX] {
        assert_eq!(text::parse_unsigned(&text::decimal(n as u64), u32::MAX), Some(n));
    }
    for n in [i32::MIN, -1, 0, 1, i32::MAX] {
        assert_eq!(text::parse_i32(&text::signed_decimal(n)), Some(n));
    }
    assert_ne!(text::decimal(11), text::decimal(111));
}

#[test]
fn white_space_at_the_end() {
    for s in ["0\n", "0", "", " \t", "a b \u{a0}\u{3000}", "\u{2028}x\u{85}", "x\u{200b}"] {
        assert_eq!(text::trim_end(s), s.trim_end());
    }
}

#[test]
fn splitting() {
    for s in ["", ":", "a", "a:b", "a::b", ":a:"] {
        let parts: Vec<String> = s.split(':').map(|p| p.to_string()).collect();
        assert_eq!(text::split(s, ':'), parts);
        assert_eq!(text::join(&parts, ':'), s);
    }
    assert_eq!(
        text::split_once("key=value=more", '='),
        Some(("key".to_string(), "value=more".to_string()))
    );
    assert_eq!(text::split_once("=", '='), Some((String::new(), String::new())));
    assert_eq!(text::split_once("nothing", '='), None);
    assert_eq!(text::strip_prefix(":12", ':'), Some("12".to_string()));
    assert_eq!(text::strip_prefix("12", ':'), None);
    assert_eq!(text::strip_prefix("", ':'), None);
}

#[test]
fn joining_is_undone_by_splitting() {
    let parts = vec!["/usr/bin".to_string(), String::new(), "/bin".to_string()];
    assert_eq!(text::join(&parts, ':'), "/usr/bin::/bin");
    assert_eq!(text::split(&text::join(&parts, ':'), ':'), parts);
    assert_eq!(text::join(&Vec::new(), ':'), "");
}

#[test]
fn characters() {
    let chars = text::chars_of("aöb");
    assert_eq!(chars, vec!['a', 'ö', 'b']);
    assert_eq!(text::string_of(&chars, 1, 3), "öb");
    assert_eq!(text::concat("vt", "7"), "vt7");
}
