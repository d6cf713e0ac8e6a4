use loghound::text::{is_white_space, replace_str, trim_str, u32_to_decimal};

#[test]
fn whitespace_matches_std() {
    for u in 0u32..0x3100 {
        if let Some(c) = char::from_u32(u) {
            assert_eq!(is_white_space(c), c.is_whitespace(), "U+{:04X}", u);
        }
    }
    assert!(!is_white_space('\u{FEFF}'));
}

#[test]
fn trim_matches_std() {
    for s in ["", "  ", " a ", "\u{3000}b\u{2029}", "a b", "\t\nx\r"] {
        assert_eq!(trim_str(s), s.trim());
    }
}

#[test]
fn decimal_matches_display() {
    for n in [0u32, 7, 10, 99, 100, 4321, u32::MAX] {
        assert_eq!(u32_to_decimal(n), n.to_string());
    }
}

#[test]
fn replace_matches_std() {
    let cases = [("aaaa", "aa", "b"), ("abcabc", "bc", ""), ("{x}{x", "{x}", "yy"), ("", "a", "b"), ("ab", "abc", "z")];
    for (s, p, r) in cases {
        assert_eq!(replace_str(s, p, r), s.replace(p, r));
    }
}
