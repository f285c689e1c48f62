use codex_lsp::codec::parse_json;
use codex_lsp::json::Json;
use codex_lsp::publication::{
    is_publish_diagnostics_for, is_stale_publication, parse_diagnostics, parse_one,
    MAX_DIAGNOSTICS_PER_FILE,
};
use codex_lsp::{Diagnostic, DiagnosticSeverity};

fn document(text: &str) -> Json {
    parse_json(text.as_bytes()).expect("a document")
}

fn one(text: &str) -> Option<Diagnostic> {
    parse_one("file:///a", &document(text))
}

fn with(rest: &str) -> Diagnostic {
    one(&format!(
        r#"{{"range":{{"start":{{"line":2,"character":3}}}},"message":"m"{rest}}}"#
    ))
    .expect("a diagnostic")
}

#[test]
fn diagnostics_are_read_whole() {
    let found = one(
        r#"{"range":{"start":{"line":4,"character":7},"end":{"line":5,"character":0}},
            "severity":2,"code":"E1","source":"lint","message":"text","tags":[1]}"#,
    );
    assert_eq!(
        found,
        Some(Diagnostic {
            uri: "file:///a".to_string(),
            line: 4,
            character: 7,
            severity: DiagnosticSeverity::Warning,
            message: "text".to_string(),
            code: Some("E1".to_string()),
            source: Some("lint".to_string()),
        })
    );
}

#[test]
fn optional_parts_have_defaults() {
    let found = with("");
    assert_eq!(found.severity, DiagnosticSeverity::Error);
    assert_eq!(found.code, None);
    assert_eq!(found.source, None);
}

#[test]
fn severities_are_read() {
    assert_eq!(with(r#","severity":3"#).severity, DiagnosticSeverity::Information);
    assert_eq!(with(r#","severity":0"#).severity, DiagnosticSeverity::Hint);
    assert_eq!(with(r#","severity":4294967295"#).severity, DiagnosticSeverity::Hint);
    assert_eq!(with(r#","severity":4294967296"#).severity, DiagnosticSeverity::Error);
    assert_eq!(with(r#","severity":-1"#).severity, DiagnosticSeverity::Error);
    assert_eq!(with(r#","severity":2.0"#).severity, DiagnosticSeverity::Error);
    assert_eq!(with(r#","severity":"2""#).severity, DiagnosticSeverity::Error);
}

#[test]
fn codes_are_texts_or_numbers() {
    assert_eq!(with(r#","code":"F821""#).code.as_deref(), Some("F821"));
    assert_eq!(with(r#","code":2304"#).code.as_deref(), Some("2304"));
    assert_eq!(with(r#","code":-7"#).code.as_deref(), Some("-7"));
    assert_eq!(
        with(r#","code":18446744073709551615"#).code.as_deref(),
        Some("18446744073709551615")
    );
    assert_eq!(
        with(r#","code":-9223372036854775808"#).code.as_deref(),
        Some("-9223372036854775808")
    );
    assert_eq!(with(r#","code":1.5"#).code.as_deref(), Some("1.5"));
    assert_eq!(with(r#","code":1e3"#).code.as_deref(), Some("1000.0"));
    assert_eq!(with(r#","code":null"#).code, None);
    assert_eq!(with(r#","code":{"value":1}"#).code, None);
    assert_eq!(with(r#","code":true"#).code, None);
}

#[test]
fn diagnostics_without_a_place_or_a_message_are_left_out() {
    assert!(one(r#"{"message":"m"}"#).is_none());
    assert!(one(r#"{"range":{"start":{"line":1}},"message":"m"}"#).is_none());
    assert!(one(r#"{"range":{"start":{"character":1}},"message":"m"}"#).is_none());
    assert!(one(r#"{"range":{"start":{"line":1,"character":1}}}"#).is_none());
    assert!(one(r#"{"range":{"start":{"line":1,"character":1}},"message":1}"#).is_none());
    assert!(one(r#"{"range":{"start":{"line":-1,"character":1}},"message":"m"}"#).is_none());
    assert!(one(r#"{"range":{"start":{"line":1.0,"character":1}},"message":"m"}"#).is_none());
    assert!(
        one(r#"{"range":{"start":{"line":4294967296,"character":1}},"message":"m"}"#).is_none()
    );
    assert!(
        one(r#"{"range":{"start":{"line":1,"character":4294967296}},"message":"m"}"#).is_none()
    );
    assert!(
        one(r#"{"range":{"start":{"line":4294967295,"character":0}},"message":"m"}"#).is_some()
    );
    assert!(one("[]").is_none());
}

#[test]
fn publications_name_their_document() {
    let message = document(
        r#"{"method":"textDocument/publishDiagnostics","params":{"uri":"file:///a"}}"#,
    );
    assert!(is_publish_diagnostics_for(&message, "file:///a"));
    assert!(!is_publish_diagnostics_for(&message, "file:///A"));
    assert!(!is_publish_diagnostics_for(&message, ""));
    let other = document(r#"{"method":"textDocument/didOpen","params":{"uri":"file:///a"}}"#);
    assert!(!is_publish_diagnostics_for(&other, "file:///a"));
    let bare = document(r#"{"method":"textDocument/publishDiagnostics"}"#);
    assert!(!is_publish_diagnostics_for(&bare, "file:///a"));
}

#[test]
fn publications_of_older_versions_are_stale() {
    let of = |version: &str| document(&format!(r#"{{"params":{{"version":{version}}}}}"#));
    assert!(is_stale_publication(&of("1"), 2));
    assert!(is_stale_publication(&of("-9223372036854775808"), 1));
    assert!(!is_stale_publication(&of("2"), 2));
    assert!(!is_stale_publication(&of("3"), 2));
    assert!(!is_stale_publication(&of("18446744073709551615"), 2));
    assert!(!is_stale_publication(&of("null"), 2));
    assert!(!is_stale_publication(&of("1.0"), 2));
    assert!(!is_stale_publication(&document("{}"), 2));
}

fn numbered(count: usize, skip: usize) -> Json {
    let mut items = String::new();
    for i in 0..count {
        if i > 0 {
            items.push(',');
        }
        if i == skip {
            items.push_str("{}");
            items.push(',');
        }
        items.push_str(&format!(
            r#"{{"range":{{"start":{{"line":{i},"character":0}}}},"message":"m{i}"}}"#
        ));
    }
    document(&format!(r#"{{"params":{{"uri":"file:///a","diagnostics":[{items}]}}}}"#))
}

#[test]
fn publications_keep_their_order_and_are_bounded() {
    let found = parse_diagnostics(&numbered(60, 3));
    assert_eq!(found.len(), MAX_DIAGNOSTICS_PER_FILE);
    assert_eq!(MAX_DIAGNOSTICS_PER_FILE, 50);
    for (i, diagnostic) in found.iter().enumerate() {
        assert_eq!(diagnostic.message, format!("m{i}"));
        assert_eq!(diagnostic.uri, "file:///a");
    }
    assert_eq!(parse_diagnostics(&numbered(50, 0)).len(), 50);
    assert_eq!(parse_diagnostics(&numbered(3, 1)).len(), 3);
}

#[test]
fn publications_without_a_list_are_empty() {
    assert!(parse_diagnostics(&document(r#"{"params":{"uri":"file:///a"}}"#)).is_empty());
    assert!(parse_diagnostics(&document(r#"{"params":{"diagnostics":{}}}"#)).is_empty());
    assert!(parse_diagnostics(&document("null")).is_empty());
    let nameless = document(
        r#"{"params":{"diagnostics":[
            {"range":{"start":{"line":0,"character":0}},"message":"m"}]}}"#,
    );
    assert_eq!(parse_diagnostics(&nameless)[0].uri, "");
}
