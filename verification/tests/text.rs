use gezellij::path;
use gezellij::text;
use gezellij::time::Duration;

#[test]
fn numbers_are_written_and_read() {
    for n in [0u64, 7, 10, 99, 100, 65535, u64::MAX] {
        assert_eq!(text::decimal(n), n.to_string());
    }
    for n in [0i32, 5, -5, i32::MAX, i32::MIN] {
        assert_eq!(text::signed_decimal(n), n.to_string());
    }
    for n in [0u32, 9, 10, 15, 16, 255, 4096, u32::MAX] {
        assert_eq!(text::hexadecimal(n), format!("{:x}", n));
    }
    for s in [
        "0", "+7", "4294967295", "4294967296", "", "+", "-1", "1x", " 1", "++1", "007",
        "99999999999999999999",
    ] {
        assert_eq!(text::parse_u32(s), s.parse::<u32>().ok(), "{:?}", s);
    }
    assert_eq!(text::parse_number("256", 255), None);
    assert_eq!(text::parse_number("255", 255), Some(255));
}

#[test]
fn texts_are_cut_the_usual_way() {
    for s in ["", "a", "\n", "a\nb", "a\r\nb\r\n", "a\rb\n\n", "x\r", "\r\n"] {
        assert_eq!(
            text::lines(s),
            s.lines().map(|l| l.to_string()).collect::<Vec<_>>(),
            "{:?}",
            s
        );
        assert_eq!(
            text::split(s, '\n'),
            s.split('\n').map(|l| l.to_string()).collect::<Vec<_>>()
        );
    }
    for s in ["", "  ", "a", " a b\t\nc ", "\u{2003}x\u{85}y", "x\u{200b}y"] {
        assert_eq!(text::trim(s), s.trim(), "{:?}", s);
        assert_eq!(
            text::split_whitespace(s),
            s.split_whitespace()
                .map(|l| l.to_string())
                .collect::<Vec<_>>()
        );
    }
    assert_eq!(
        text::split_once("a=b=c", '='),
        Some(("a".to_string(), "b=c".to_string()))
    );
    assert_eq!(text::split_once("abc", '='), None);
    assert_eq!(text::strip_prefix("pane-3", "pane-"), Some("3"));
    assert_eq!(text::strip_prefix("pan", "pane-"), None);
    assert!(text::starts_with("abc", ""));
    assert!(text::ends_with("abc", "bc"));
    assert!(!text::ends_with("c", "bc"));
}

#[test]
fn white_space_is_what_unicode_says() {
    for c in (0..=0x10ffffu32).filter_map(char::from_u32) {
        assert_eq!(text::is_whitespace(c), c.is_whitespace(), "{:?}", c);
    }
}

#[test]
fn texts_are_put_together() {
    let list = vec!["a".to_string(), "b".to_string(), String::new()];
    assert_eq!(text::join(&list, ' '), "a b ");
    assert_eq!(text::join_with(&list, ", "), "a, b, ");
    assert_eq!(text::join(&vec![], ' '), "");
    assert_eq!(text::pad("é", 3), "é  ");
    assert_eq!(text::pad("abcd", 3), "abcd");
    assert_eq!(text::to_ascii_lowercase("AbÉ"), "abÉ");
}

#[test]
fn texts_are_ordered_like_strings() {
    let list = ["", "a", "ab", "b", "B", "é", "z", "\u{ffff}", "\u{10000}"];
    for a in list {
        for b in list {
            assert_eq!(text::is_not_after(a, b), a <= b, "{:?} {:?}", a, b);
        }
    }
}

#[test]
fn paths_are_joined_like_paths() {
    for base in ["", "/", "a", "a/", "/a/b"] {
        for component in ["", "x", "/x", "x/y", ".."] {
            assert_eq!(
                path::join(base, component),
                std::path::Path::new(base)
                    .join(component)
                    .to_str()
                    .unwrap(),
                "{:?} {:?}",
                base,
                component
            );
        }
    }
}

#[test]
fn spans_are_exact_to_the_nanosecond() {
    let a = Duration::new(5, 999_999_999);
    assert_eq!(a.as_secs(), 5);
    assert!(a.is_shorter_than(&Duration::from_secs(6)));
    assert!(!Duration::from_secs(6).is_shorter_than(&a));
    assert_eq!(
        Duration::from_secs(6).elapsed_since(&a),
        Duration::new(0, 1)
    );
    assert_eq!(
        a.elapsed_since(&Duration::from_secs(6)),
        Duration::from_millis(0)
    );
    assert_eq!(Duration::from_secs(u64::MAX).as_secs(), u64::MAX);
}
