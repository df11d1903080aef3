use gpui_mcp::json::{Fields, Items, Json, Number};
use gpui_mcp::text;

#[test]
fn a_value_reads_compactly() {
    let value = Fields::new()
        .with("a", Json::whole(12))
        .with("b", Items::new().with(Json::Null).with(Json::Bool(true)).array())
        .with("c", Json::text("x"))
        .with("d", Json::empty_object())
        .object();
    assert_eq!(value.compact(), r#"{"a":12,"b":[null,true],"c":"x","d":{}}"#);
    assert_eq!(Items::new().array().compact(), "[]");
    assert_eq!(
        Json::Number(Number {
            literal: "1280.0".into(),
            plain: "1280".into(),
            single: None
        }).compact(),
        "1280.0"
    );
}

#[test]
fn strings_are_escaped() {
    assert_eq!(
        Json::text("a\"b\\c\n\r\t\u{8}\u{c}\u{1}\u{1f}/é\u{7f}").compact(),
        "\"a\\\"b\\\\c\\n\\r\\t\\b\\f\\u0001\\u001f/é\u{7f}\""
    );
}

#[test]
fn a_field_that_is_set_reads_back_and_the_others_stay() {
    let mut value = Fields::new()
        .with("a", Json::whole(1))
        .with("b", Json::text("t"))
        .with("a", Json::whole(2))
        .object();
    assert_eq!(value.get("a"), Some(&Json::whole(1)), "the first of two");
    value.set("b", Json::Bool(false));
    assert_eq!(value.get_bool("b"), Some(false));
    assert_eq!(value.get("a"), Some(&Json::whole(1)));
    value.set("c", Json::Null);
    assert_eq!(value.get("c"), Some(&Json::Null));
    assert_eq!(value.compact(), r#"{"a":1,"b":false,"a":2,"c":null}"#);

    let mut other = Json::text("x");
    other.set("a", Json::Null);
    assert_eq!(other, Json::text("x"));
    assert_eq!(other.get("a"), None);
    assert_eq!(other.get_or_null("a"), Json::Null);
    assert_eq!(value.clone(), value);
}

#[test]
fn text_is_split_at_the_last_match() {
    assert_eq!(text::rsplit_once("a @b @c", " @"), Some(("a @b", "c")));
    assert_eq!(text::rsplit_once("abc", " @"), None);
    assert_eq!(text::rsplit_once("é-ü-", "-"), Some(("é-ü", "")));
    assert_eq!(text::strip_prefix("gpui-x", "gpui-"), Some("x"));
    assert_eq!(text::strip_prefix("gp", "gpui-"), None);
    assert_eq!(text::strip_suffix("a.sock", ".sock"), Some("a"));
    assert_eq!(text::strip_suffix("sock", ".sock"), None);
    assert!(text::starts_with("notifications/x", "notifications/"));
}

#[test]
fn words_and_white_space() {
    assert_eq!(text::first_word("  e6 rest"), Some("e6"));
    assert_eq!(text::first_word(" \u{a0}\t"), None);
    assert_eq!(text::trim("\u{3000} a b \n"), "a b");
    assert_eq!(text::trim("   "), "");
    for c in '\0'..='\u{ffff}' {
        assert_eq!(text::is_white(c), c.is_whitespace(), "{c:?}");
    }
}

#[test]
fn lines_end_with_or_without_a_carriage_return() {
    for s in ["", "a", "a\n", "a\r\nb\n\nc", "\n", "a\r", "a\n\r\nb\r"] {
        assert_eq!(text::lines(s), s.lines().collect::<Vec<_>>(), "{s:?}");
    }
}

#[test]
fn numbers_are_read_and_written() {
    for (s, expected) in [
        ("0", Some(0)),
        ("+7", Some(7)),
        ("007", Some(7)),
        ("255", Some(255)),
        ("256", None),
        ("", None),
        ("+", None),
        ("-1", None),
        ("1a", None),
        ("99999999999999999999999", None),
    ] {
        assert_eq!(text::parse_number(s, 255), expected, "{s:?}");
    }
    for n in [0, 9, 10, 42, 1_000_000, u64::MAX] {
        assert_eq!(text::decimal(n), n.to_string());
        assert_eq!(text::parse_number(&text::decimal(n), u64::MAX), Some(n));
    }
}

#[test]
fn columns_are_padded() {
    assert_eq!(text::align_right("7", 3), "  7");
    assert_eq!(text::align_left("é", 3), "é  ");
    assert_eq!(text::align_left("long", 3), "long");
    assert_eq!(text::align_right("long", 3), "long");
    assert_eq!(text::join(&vec!["a".into(), "b".into(), "c".into()], ", "), "a, b, c");
    assert_eq!(text::join(&Vec::new(), ", "), "");
}
