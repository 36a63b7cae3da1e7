use record_native::text::{blank, chars_of, same_text, string_of, text_less, trim_text, white_space};

#[test]
fn white_space_is_std_white_space() {
    for code in 0u32..=0x10ffff {
        if let Some(c) = char::from_u32(code) {
            assert_eq!(white_space(c), c.is_whitespace(), "{code:x}");
        }
    }
}

#[test]
fn trim_matches_std_trim() {
    let samples = [
        "", " ", "  a  ", "\u{3000}写周报\u{a0}", "a b", "\t\n x \r\n", "\u{2029}", "ab",
        "\u{200b}x\u{200b}", " 今天处理 ",
    ];
    for s in samples {
        assert_eq!(trim_text(s), s.trim());
        assert_eq!(blank(s), s.trim().is_empty());
    }
}

#[test]
fn text_order_matches_std() {
    let samples = ["", "a", "ab", "b", "é", "z", "写", "2026-01-01", "9999-12-31", "2026-1"];
    for a in samples {
        for b in samples {
            assert_eq!(text_less(a, b), a < b, "{a} {b}");
            assert_eq!(same_text(a, b), a == b);
        }
    }
}

#[test]
fn chars_round_trip() {
    let s = "a写é\u{1f600}";
    let chars = chars_of(s);
    assert_eq!(chars, s.chars().collect::<Vec<_>>());
    assert_eq!(string_of(&chars), s);
}

#[test]
fn trimming_twice_changes_nothing() {
    for s in ["  a b  ", "\u{a0}x", "", "\u{2003}", "写 "] {
        let once = trim_text(s);
        assert_eq!(trim_text(&once), once);
    }
}
