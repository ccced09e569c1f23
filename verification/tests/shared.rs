//! What the providers share: text, JSON and the canonical model.

use casr::json::{number_value, parse_json, print_json, Json};
use casr::model::{
    flatten_content, normalize_role, reindex_messages, session_title, truncate_title,
    CanonicalMessage, MessageRole,
};
use casr::text::{ascii_lowercase, contains, is_blank, strip_prefix, trim, white};

fn message(role: MessageRole, content: &str) -> CanonicalMessage {
    CanonicalMessage {
        idx: 9,
        role,
        content: content.to_string(),
        timestamp: None,
        author: None,
        tool_calls: Vec::new(),
        tool_results: Vec::new(),
        extra: Json::Null,
    }
}

fn text(s: &str) -> Json {
    Json::Text(s.to_string())
}

#[test]
fn white_space_is_what_the_standard_library_takes_for_it() {
    for code in 0..=0x10ffff_u32 {
        if let Some(c) = char::from_u32(code) {
            assert_eq!(white(c), c.is_whitespace(), "U+{code:04X}");
        }
    }
}

#[test]
fn text_is_trimmed_lowered_and_searched() {
    for s in ["", " ", " a b ", "\u{3000}x\u{85}", "ab", "\r\n\t", "  \u{1f600}"] {
        assert_eq!(trim(s), s.trim());
        assert_eq!(is_blank(s), s.trim().is_empty());
    }
    for s in ["", "AbZ[`az", "\u{c4}B"] {
        assert_eq!(ascii_lowercase(s), s.to_ascii_lowercase());
    }
    for (s, part) in [("", ""), ("abc", ""), ("abc", "c"), ("abc", "cd"), ("aab", "ab"), ("", "a")] {
        assert_eq!(contains(s, part), s.contains(part));
        assert_eq!(strip_prefix(s, part).as_deref(), s.strip_prefix(part));
    }
    assert_eq!(strip_prefix("abc", "ab").as_deref(), Some("c"));
}

#[test]
fn json_text_is_read_and_written() {
    let value = parse_json(" {\"b\": [1, -2, true, null, \"x\\u0041\"], \"a\": {}} ").unwrap();
    assert_eq!(
        value,
        Json::Object(vec![
            ("a".to_string(), Json::Object(Vec::new())),
            (
                "b".to_string(),
                Json::Array(vec![
                    Json::Unsigned(1),
                    Json::Signed(-2),
                    Json::Bool(true),
                    Json::Null,
                    text("xA"),
                ])
            ),
        ])
    );
    assert_eq!(print_json(&value), "{\"a\":{},\"b\":[1,-2,true,null,\"xA\"]}");
    assert_eq!(value.clone(), value);
    assert_eq!(parse_json(""), None);
    assert_eq!(parse_json("{} {}"), None);
    assert_eq!(parse_json("\"\\ud800\""), None);
}

#[test]
fn json_is_read_down_to_as_many_levels_as_are_allowed() {
    let nested = |levels: usize| {
        let mut value = Json::Null;
        for _ in 0..levels {
            value = Json::Array(vec![value]);
        }
        value
    };
    let deep = nested(127);
    assert_eq!(parse_json(&print_json(&deep)), Some(deep));
    assert_eq!(parse_json(&print_json(&nested(128))), None);
}

#[test]
fn later_entry_of_an_object_counts() {
    let value = Json::Object(vec![
        ("k".to_string(), text("first")),
        ("k".to_string(), text("second")),
    ]);
    assert_eq!(value.get("k"), Some(&text("second")));
    assert_eq!(value.get("x"), None);
    assert_eq!(Json::Null.get("k"), None);
    assert_eq!(print_json(&value), "{\"k\":\"second\"}");
    let entry = |key: &str, value: &str| (key.to_string(), text(value));
    let mixed = Json::Array(vec![Json::Object(vec![
        entry("b", "1"),
        entry("a", "2"),
        entry("b", "3"),
        entry("c", "4"),
        entry("a", "5"),
        entry("b", "6"),
    ])]);
    assert_eq!(print_json(&mixed), "[{\"a\":\"5\",\"b\":\"6\",\"c\":\"4\"}]");
    assert_eq!(text("t").as_text(), Some("t"));
    assert_eq!(Json::Bool(true).as_text(), None);
}

#[test]
fn content_is_flattened_to_its_text() {
    let block = |s: &str| Json::Object(vec![("text".to_string(), text(s))]);
    assert_eq!(flatten_content(&text("plain")), "plain");
    assert_eq!(flatten_content(&block("one")), "one");
    assert_eq!(flatten_content(&Json::Array(vec![block("a"), Json::Null, text("b")])), "a\nb");
    assert_eq!(flatten_content(&Json::Array(Vec::new())), "");
    assert_eq!(flatten_content(&Json::Null), "");
    assert_eq!(flatten_content(&Json::Object(Vec::new())), "");
}

#[test]
fn roles_are_known_by_their_names() {
    assert_eq!(normalize_role("user"), MessageRole::User);
    assert_eq!(normalize_role("assistant"), MessageRole::Assistant);
    assert_eq!(normalize_role("tool"), MessageRole::Tool);
    assert_eq!(normalize_role("system"), MessageRole::System);
    assert_eq!(normalize_role("critic"), MessageRole::Other("critic".to_string()));
}

#[test]
fn title_is_the_beginning_of_what_the_user_said_first() {
    assert_eq!(truncate_title("h\u{e9}llo", 2), "h\u{e9}");
    assert_eq!(truncate_title("hello", 5), "hello");
    let messages = vec![
        message(MessageRole::Assistant, "no"),
        message(MessageRole::User, "yes"),
        message(MessageRole::User, "later"),
    ];
    assert_eq!(session_title(&messages).as_deref(), Some("yes"));
    assert_eq!(session_title(&Vec::new()), None);
}

#[test]
fn messages_are_numbered_by_their_places() {
    let mut messages = vec![message(MessageRole::User, "a"), message(MessageRole::User, "b")];
    reindex_messages(&mut messages);
    assert_eq!((messages[0].idx, messages[1].idx), (0, 1));
    assert_eq!(messages[1].content, "b");
}

#[test]
fn integers_are_read_back_and_floats_are_carried_through() {
    let value = Json::Array(vec![
        Json::Unsigned(0),
        Json::Unsigned(u64::MAX),
        Json::Signed(-1),
        Json::Signed(i64::MIN),
    ]);
    let text = print_json(&value);
    assert_eq!(text, "[0,18446744073709551615,-1,-9223372036854775808]");
    assert_eq!(parse_json(&text), Some(value));
    // An integer that is not negative is read as unsigned, however it was held.
    assert_eq!(parse_json(&print_json(&Json::Signed(5))), Some(Json::Unsigned(5)));
    // Beyond the integers, and with a fraction or an exponent, a number is a float.
    for text in ["1.5", "1.0", "-0.0", "18446744073709551616"] {
        assert!(matches!(parse_json(text), Some(Json::Float(_))), "{text}");
    }
    let float = parse_json("-2.25").unwrap();
    assert_eq!(print_json(&float), "-2.25");
    assert_eq!(float.clone(), float);
    assert_eq!(number_value(serde_json::Number::from(7)), Json::Unsigned(7));
    assert_eq!(number_value(serde_json::Number::from(-7)), Json::Signed(-7));
    assert_eq!(number_value(serde_json::Number::from_f64(-2.25).unwrap()), float);
}
