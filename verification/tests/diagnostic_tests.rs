use codex_lsp::diagnostic::{flatten, truncate};
use codex_lsp::{Diagnostic, DiagnosticSeverity};

fn sample() -> Diagnostic {
    Diagnostic {
        uri: "file:///repo/main.py".to_string(),
        line: 0,
        character: 4,
        severity: DiagnosticSeverity::Error,
        message: "undefined name".to_string(),
        code: Some("F821".to_string()),
        source: Some("pyright".to_string()),
    }
}

#[test]
fn context_line_is_one_based_and_bounded() {
    assert_eq!(
        sample().to_context_line(),
        "file:///repo/main.py:1:5 [error] undefined name (F821)"
    );
}

#[test]
fn long_messages_are_truncated() {
    let mut diagnostic = sample();
    diagnostic.message = "x".repeat(500);
    let line = diagnostic.to_context_line();
    assert!(line.chars().count() < 500);
    assert!(line.ends_with('\u{2026}') || line.contains('\u{2026}'));
}

#[test]
fn severity_mapping_matches_lsp() {
    assert_eq!(DiagnosticSeverity::from_lsp(1), DiagnosticSeverity::Error);
    assert_eq!(DiagnosticSeverity::from_lsp(2), DiagnosticSeverity::Warning);
    assert_eq!(
        DiagnosticSeverity::from_lsp(3),
        DiagnosticSeverity::Information
    );
    assert_eq!(DiagnosticSeverity::from_lsp(99), DiagnosticSeverity::Hint);
}

#[test]
fn severities_outside_the_list_are_hints() {
    assert_eq!(DiagnosticSeverity::from_lsp(0), DiagnosticSeverity::Hint);
    assert_eq!(DiagnosticSeverity::from_lsp(4), DiagnosticSeverity::Hint);
    assert_eq!(DiagnosticSeverity::from_lsp(u32::MAX), DiagnosticSeverity::Hint);
}

#[test]
fn severity_names() {
    assert_eq!(DiagnosticSeverity::Error.as_str(), "error");
    assert_eq!(DiagnosticSeverity::Warning.as_str(), "warning");
    assert_eq!(DiagnosticSeverity::Information.as_str(), "info");
    assert_eq!(DiagnosticSeverity::Hint.as_str(), "hint");
}

#[test]
fn missing_code_is_shown_as_a_dash() {
    let mut diagnostic = sample();
    diagnostic.code = None;
    diagnostic.line = 99;
    diagnostic.character = 1233;
    diagnostic.severity = DiagnosticSeverity::Information;
    assert_eq!(
        diagnostic.to_context_line(),
        "file:///repo/main.py:100:1234 [info] undefined name (-)"
    );
}

#[test]
fn truncation_counts_characters() {
    assert_eq!(truncate("", 0), "");
    assert_eq!(truncate("abc", 3), "abc");
    assert_eq!(truncate("abcd", 3), "abc\u{2026}");
    assert_eq!(truncate("abcd", 0), "\u{2026}");
    assert_eq!(truncate("\u{e9}\u{4e16}\u{1f600}x", 3), "\u{e9}\u{4e16}\u{1f600}\u{2026}");
}

#[test]
fn messages_of_three_hundred_characters_stay_whole() {
    let mut diagnostic = sample();
    diagnostic.message = "\u{e9}".repeat(300);
    assert!(!diagnostic.to_context_line().contains('\u{2026}'));
    diagnostic.message = "\u{e9}".repeat(301);
    let line = diagnostic.to_context_line();
    assert!(line.ends_with(&format!("{}\u{2026} (F821)", "\u{e9}".repeat(300))));
}

#[test]
fn context_line_length_is_bounded() {
    let diagnostic = Diagnostic {
        uri: "u".repeat(40),
        line: u32::MAX - 1,
        character: u32::MAX - 1,
        severity: DiagnosticSeverity::Warning,
        message: "m".repeat(10_000),
        code: Some("c".repeat(7)),
        source: None,
    };
    let line = diagnostic.to_context_line();
    assert_eq!(line.chars().count(), 40 + 7 + 337);
    assert!(line.contains(":4294967295:4294967295 [warning] m"));
}

#[test]
fn context_line_stays_on_one_line() {
    assert!(!sample().to_context_line().contains('\n'));
    let mut diagnostic = sample();
    diagnostic.uri = "file:///a\nb".to_string();
    diagnostic.message = "\nfirst\r\nsecond\n\nthird\r".to_string();
    diagnostic.code = Some("E\r1".to_string());
    let line = diagnostic.to_context_line();
    assert_eq!(line, "file:///a b:1:5 [error]  first  second  third  (E 1)");
    assert_eq!(line.lines().count(), 1);
}

#[test]
fn line_breaks_become_spaces() {
    assert_eq!(flatten(""), "");
    assert_eq!(flatten("plain \t text"), "plain \t text");
    assert_eq!(flatten("\n"), " ");
    assert_eq!(flatten("\u{e9}\r\n\u{1f600}\n"), "\u{e9}  \u{1f600} ");
}

#[test]
fn truncation_counts_line_breaks_as_characters() {
    let mut diagnostic = sample();
    diagnostic.message = "\n".repeat(301);
    let line = diagnostic.to_context_line();
    assert!(line.ends_with(&format!("[error] {}\u{2026} (F821)", " ".repeat(300))));
}

#[test]
fn cloned_diagnostics_are_equal() {
    let diagnostic = sample();
    assert_eq!(diagnostic.clone(), diagnostic);
    let mut other = diagnostic.clone();
    other.source = None;
    assert_ne!(other, diagnostic);
}
