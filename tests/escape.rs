use tmi::escape::{escape, unescape};

#[test]
fn unescape_each_escape() {
    assert_eq!(unescape(r"Riot\sGames"), "Riot Games");
    assert_eq!(unescape(r"a\:b"), "a;b");
    assert_eq!(unescape(r"a\\b"), r"a\b");
    assert_eq!(unescape(r"\r\n"), "\r\n");
    assert_eq!(unescape(r"\x"), "x");
    assert_eq!(unescape(r"end\"), "end");
    assert_eq!(unescape(""), "");
}

#[test]
fn unescape_without_backslash_is_identity() {
    for s in ["", "plain", "테스트계정420", "a;b c"] {
        assert_eq!(unescape(s), s);
    }
}

#[test]
fn escape_round_trips() {
    assert_eq!(escape("a b;c\\d\r\n"), r"a\sb\:c\\d\r\n");
    for s in ["", "Riot Games", "; \\ \r\n", "테스트 계정", "x\\s"] {
        assert_eq!(unescape(&escape(s)), s);
    }
}

#[test]
fn unescape_borrows_plain_text() {
    assert!(matches!(unescape("plain text"), std::borrow::Cow::Borrowed(_)));
    assert!(matches!(unescape(r"a\sb"), std::borrow::Cow::Owned(_)));
}
