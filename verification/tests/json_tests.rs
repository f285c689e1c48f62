use codex_lsp::codec::{json_to_bytes, json_to_string, parse_json, MAX_DEPTH};
use codex_lsp::entries::{find_entry, put_entry};
use codex_lsp::json::{
    get_items, get_member, get_number, get_signed, get_text, get_unsigned, is_text, Json,
    JsonNumber,
};

fn document(text: &str) -> Json {
    parse_json(text.as_bytes()).expect("a document")
}

fn rewritten(text: &str) -> String {
    String::from_utf8(json_to_bytes(&document(text))).expect("utf8")
}

#[test]
fn documents_are_written_compactly() {
    for (text, compact) in [
        (" null ", "null"),
        ("[ true, false ]", "[true,false]"),
        (r#"{"b":1,"a":{"c":[]}}"#, r#"{"a":{"c":[]},"b":1}"#),
        (r#""é\n""#, "\"\u{e9}\\n\""),
        ("-0", "-0.0"),
        ("18446744073709551615", "18446744073709551615"),
        ("-9223372036854775808", "-9223372036854775808"),
        ("2.50", "2.5"),
    ] {
        assert_eq!(rewritten(text), compact);
        assert_eq!(json_to_string(&document(text)), compact);
    }
}

#[test]
fn of_two_members_with_one_name_the_later_counts() {
    assert_eq!(rewritten(r#"{"a":1,"b":2,"a":3}"#), r#"{"a":3,"b":2}"#);
    let built = Json::object()
        .with("a", Json::integer(1))
        .with("b", Json::integer(2))
        .with("a", Json::integer(3));
    assert_eq!(json_to_string(&built), r#"{"a":3,"b":2}"#);
    assert_eq!(get_signed(built.get("a")), Some(3));
}

#[test]
fn texts_that_are_no_documents_are_refused() {
    for text in ["", "{", "nul", "[1,]", "{\"a\"}", "1 2", "\u{feff}1", "1e400"] {
        assert!(parse_json(text.as_bytes()).is_err());
    }
    assert!(parse_json(b"\"\xff\"").is_err());
}

#[test]
fn refused_texts_come_with_the_reason() {
    for text in ["", "{", "nul", "[1,]", "1 2", "{\"a\":\n tru}"] {
        let cause = serde_json::from_str::<serde_json::Value>(text).unwrap_err().to_string();
        assert_eq!(parse_json(text.as_bytes()).unwrap_err(), cause);
    }
    assert_eq!(parse_json(b"{]}").unwrap_err(), "key must be a string at line 1 column 2");
}

#[test]
fn nesting_is_read_up_to_a_depth() {
    let depth = usize::from(MAX_DEPTH);
    let deepest = format!("{}{}", "[".repeat(depth), "]".repeat(depth));
    assert_eq!(rewritten(&deepest), deepest);
    assert!(parse_json(format!("[{deepest}]").as_bytes()).is_err());
}

#[test]
fn written_documents_read_back() {
    let mut nested = Json::integer(i64::MIN);
    for i in 0..MAX_DEPTH {
        nested = if i % 2 == 0 {
            Json::Array(vec![nested])
        } else {
            Json::object().with("k", nested)
        };
    }
    let bytes = json_to_bytes(&nested);
    let read = parse_json(&bytes).expect("read back");
    assert_eq!(json_to_bytes(&read), bytes);
}

#[test]
fn members_are_found_by_name() {
    let value = document(r#"{"a":{"b":"c"},"":1}"#);
    assert_eq!(get_text(get_member(value.get("a"), "b")), Some("c"));
    assert_eq!(get_signed(value.get("")), Some(1));
    assert!(value.get("b").is_none());
    assert!(get_member(None, "a").is_none());
    assert!(document("[1]").get("0").is_none());
    assert!(document("1.5").get("a").is_none());
}

#[test]
fn values_are_read_by_their_kind() {
    let value = document(r#"{"n":-5,"u":18446744073709551615,"f":1.5,"t":"x","l":[1,2]}"#);
    assert_eq!(get_signed(value.get("n")), Some(-5));
    assert_eq!(get_unsigned(value.get("n")), None);
    assert_eq!(get_signed(value.get("u")), None);
    assert_eq!(get_unsigned(value.get("u")), Some(u64::MAX));
    assert_eq!(get_signed(value.get("f")), None);
    assert_eq!(get_unsigned(value.get("f")), None);
    assert_eq!(get_text(value.get("t")), Some("x"));
    assert_eq!(get_text(value.get("n")), None);
    assert_eq!(get_text(value.get("f")), None);
    assert_eq!(get_items(value.get("l")).map(|items| items.len()), Some(2));
    assert!(get_items(value.get("t")).is_none());
    assert!(get_items(value.get("f")).is_none());
    assert!(matches!(get_number(value.get("f")), Some(JsonNumber::Float(_))));
    assert!(matches!(get_number(value.get("n")), Some(JsonNumber::Signed(-5))));
    assert!(get_number(value.get("t")).is_none());
    assert!(get_number(None).is_none());
    assert!(is_text(value.get("t"), "x"));
    assert!(!is_text(value.get("t"), "y"));
    assert!(!is_text(value.get("l"), "x"));
    assert!(!is_text(None, "x"));
}

#[test]
fn built_integers_are_numbers_of_either_sign() {
    assert_eq!(get_unsigned(Some(&Json::integer(7))), Some(7));
    assert_eq!(get_unsigned(Some(&Json::integer(-7))), None);
    assert_eq!(json_to_string(&Json::integer(-7)), "-7");
    assert_eq!(json_to_string(&Json::integer(i64::MAX)), "9223372036854775807");
}

#[test]
fn clones_hold_the_same_document() {
    let text = r#"{"a":[1,-2,3.25,"x",null,{"b":true}],"c":18446744073709551615}"#;
    let value = document(text);
    assert_eq!(json_to_string(&value.clone()), text);
}

#[test]
fn entries_are_found_and_replaced() {
    let mut entries: Vec<(String, i32)> = Vec::new();
    assert_eq!(find_entry(&entries, "a"), None);
    put_entry(&mut entries, "a".to_string(), 1);
    put_entry(&mut entries, "b".to_string(), 2);
    put_entry(&mut entries, "a".to_string(), 3);
    assert_eq!(entries.len(), 2);
    let a = find_entry(&entries, "a").unwrap();
    assert_eq!(entries[a].1, 3);
    assert_eq!(find_entry(&entries, "c"), None);
}
