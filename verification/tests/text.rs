use aviabot::text;

#[test]
fn same_compares_all_characters() {
    assert!(text::same("", ""));
    assert!(text::same("ключ", "ключ"));
    assert!(!text::same("a", "b"));
    assert!(!text::same("a", "aa"));
    assert!(!text::same("join", "Join"));
}

#[test]
fn blank_agrees_with_trimming() {
    for code in 0..=0x10ffffu32 {
        if let Some(c) = char::from_u32(code) {
            let s = c.to_string();
            assert_eq!(text::is_blank(&s), s.trim().is_empty(), "{:x}", code);
        }
    }
    assert!(text::is_blank(""));
    assert!(text::is_blank(" \t "));
    assert!(!text::is_blank("  x "));
}

#[test]
fn slashes_are_cut_off_the_end() {
    for (s, trimmed) in [
        ("http://seq:5341", "http://seq:5341"),
        ("http://seq:5341/", "http://seq:5341"),
        ("http://seq:5341///", "http://seq:5341"),
        ("//a/b//", "//a/b"),
        ("/", ""),
        ("", ""),
        ("ключ/", "ключ"),
    ] {
        assert_eq!(text::trim_end_slashes(s), trimmed);
        assert_eq!(text::trim_end_slashes(s), s.trim_end_matches('/'));
    }
}

#[test]
fn decimal_agrees_with_formatting() {
    for n in [0u64, 1, 9, 10, 11, 99, 100, 5672, 65535, 4294967296, u64::MAX] {
        assert_eq!(text::decimal_text(n), format!("{}", n));
    }
    for n in 0..2000u64 {
        assert_eq!(text::decimal_text(n), n.to_string());
    }
}
