use ai_agent_os::text;

#[test]
fn parses_like_from_str() {
    for s in ["0", "7", "+12", "-12", "2147483647", "-2147483648", "2147483648", "", "+", "-", "1 ", " 1", "1a", "٣", "00042"] {
        assert_eq!(text::parse_i32(s), s.parse::<i32>().ok(), "i32 {:?}", s);
        assert_eq!(text::parse_u32(s), s.parse::<u32>().ok(), "u32 {:?}", s);
        assert_eq!(text::parse_u64(s), s.parse::<u64>().ok(), "u64 {:?}", s);
    }
    assert_eq!(text::parse_u32("4294967295"), Some(u32::MAX));
    assert_eq!(text::parse_u32("4294967296"), None);
    assert_eq!(text::parse_u64("18446744073709551615"), Some(u64::MAX));
    assert_eq!(text::parse_u64("99999999999999999999999"), None);
}

#[test]
fn decimal_matches_to_string() {
    for n in [0u64, 9, 10, 99, 100, 12345, u64::MAX] {
        assert_eq!(text::decimal_string(n), n.to_string());
        assert_eq!(text::parse_u64(&text::decimal_string(n)), Some(n));
    }
}

#[test]
fn trims_unicode_whitespace() {
    for s in ["  a b  ", "\t\n x\r\n", "", "   ", "\u{3000}y\u{a0}", "z"] {
        assert_eq!(text::trim(s), s.trim());
        assert_eq!(text::trim_start(s), s.trim_start());
        assert_eq!(text::trim_end(s), s.trim_end());
    }
}

#[test]
fn searches_like_str() {
    assert_eq!(text::find("a>>b>>c", ">>"), Some(1));
    assert_eq!(text::find("abc", ">>"), None);
    assert_eq!(text::find("", ""), Some(0));
    assert!(text::contains("my-systemd-unit", "systemd"));
    assert!(!text::contains("firefox", "systemd"));
    assert!(text::starts_with("tls://host", "tls://"));
    assert!(!text::starts_with("nats://host", "tls://"));
    assert!(text::equals("abc", "abc"));
    assert!(!text::equals("abc", "abd"));
}
