use std::time::Duration;

use codex_lsp::client::{
    assert_successful_response, document_message, handle_auxiliary_message, initialize_message,
    is_response_for, server_request_response, shutdown_message, wait_for_diagnostics,
    wait_for_response, workspace_folder_name, DiagnosticsStep, Event, Exchange, ExchangeStep,
    SessionError,
};
use codex_lsp::codec::{json_to_string, parse_json};
use codex_lsp::json::{get_items, get_member, get_signed, get_text, Json};
use codex_lsp::protocol::{encode_message, MessageReader, ReadStep};
use codex_lsp::{Diagnostic, LspSession};

const TEST_URI: &str = "file:///workspace/main.rs";

fn document(text: &str) -> Json {
    parse_json(text.as_bytes()).expect("a document")
}

fn event(text: &str) -> Event {
    Event::Message(document(text))
}

fn session() -> LspSession<(), Vec<u8>> {
    LspSession::new((), Vec::new(), Duration::from_secs(1))
}

fn send(session: &mut LspSession<(), Vec<u8>>, message: &Json) {
    let bytes = encode_message(message).unwrap();
    session.writer_mut().extend_from_slice(&bytes);
}

fn sent(session: &mut LspSession<(), Vec<u8>>) -> Vec<Json> {
    let bytes = std::mem::take(session.writer_mut());
    let mut reader = MessageReader::new(());
    let mut found: Vec<Json> = Vec::new();
    if bytes.is_empty() {
        return found;
    }
    let mut step = reader.receive(&bytes).unwrap();
    while let ReadStep::Message(message) = step {
        found.push(message);
        step = reader.advance().unwrap();
    }
    found
}

fn published(step: DiagnosticsStep) -> Vec<Diagnostic> {
    match step {
        DiagnosticsStep::Published(found) => found,
        other => panic!("nothing published: {other:?}"),
    }
}

fn publication(version: i32, message: &str) -> Json {
    document(&format!(
        r#"{{"jsonrpc":"2.0","method":"textDocument/publishDiagnostics","params":{{
            "uri":"{TEST_URI}","version":{version},"diagnostics":[{{
                "range":{{"start":{{"line":0,"character":0}},"end":{{"line":0,"character":1}}}},
                "severity":1,"message":"{message}"}}]}}}}"#
    ))
}

#[test]
fn initialize_handles_notifications_and_server_requests() {
    let mut session = session();
    let (id, request) =
        session.initialize(42, "file:///workspace", Some("workspace"));
    send(&mut session, &request);
    let initialize = sent(&mut session).remove(0);
    assert_eq!(get_text(initialize.get("method")), Some("initialize"));
    assert_eq!(
        get_text(get_member(initialize.get("params"), "rootUri")),
        Some("file:///workspace")
    );
    let log = event(
        r#"{"jsonrpc":"2.0","method":"window/logMessage","params":{"type":3,"message":"ready"}}"#,
    );
    assert!(matches!(wait_for_response(Exchange::Initialize, id, &log), ExchangeStep::Wait));
    let configuration = event(
        r#"{"jsonrpc":"2.0","id":77,"method":"workspace/configuration",
            "params":{"items":[{"section":"rust-analyzer"}]}}"#,
    );
    match wait_for_response(Exchange::Initialize, id, &configuration) {
        ExchangeStep::Reply(reply) => assert_eq!(
            json_to_string(&reply),
            r#"{"id":77,"jsonrpc":"2.0","result":[null]}"#
        ),
        other => panic!("no reply: {other:?}"),
    }
    let response = Event::Message(
        Json::object()
            .with("jsonrpc", Json::text("2.0"))
            .with("id", initialize.get("id").unwrap().clone())
            .with("result", document(r#"{"capabilities":{}}"#)),
    );
    match wait_for_response(Exchange::Initialize, id, &response) {
        ExchangeStep::Finish(initialized) => {
            assert_eq!(get_text(initialized.get("method")), Some("initialized"))
        }
        other => panic!("not initialized: {other:?}"),
    }
}

#[test]
fn clean_publication_is_distinct_from_timeout() {
    let mut session = session();
    let (version, message) = session.diagnostics_for_uri("rust", TEST_URI, "fn main() {}\n");
    send(&mut session, &message);
    session.record_version(TEST_URI, version);
    let did_open = sent(&mut session).remove(0);
    assert_eq!(get_text(did_open.get("method")), Some("textDocument/didOpen"));
    let clean = event(&format!(
        r#"{{"jsonrpc":"2.0","method":"textDocument/publishDiagnostics",
            "params":{{"uri":"{TEST_URI}","version":1,"diagnostics":[]}}}}"#
    ));
    assert_eq!(published(wait_for_diagnostics(TEST_URI, version, &clean)), Vec::new());
}

#[test]
fn repeated_document_uses_did_change_and_ignores_stale_diagnostics() {
    let mut session = session();
    let (first, message) = session.diagnostics_for_uri("rust", TEST_URI, "fn main() {}\n");
    send(&mut session, &message);
    session.record_version(TEST_URI, first);
    let did_open = sent(&mut session).remove(0);
    let opened = get_member(did_open.get("params"), "textDocument");
    assert_eq!(get_signed(get_member(opened, "version")), Some(1));
    let step = wait_for_diagnostics(TEST_URI, first, &Event::Message(publication(1, "first")));
    assert_eq!(published(step)[0].message, "first");

    let (second, message) =
        session.diagnostics_for_uri("rust", TEST_URI, "fn main() { todo!() }\n");
    send(&mut session, &message);
    session.record_version(TEST_URI, second);
    let did_change = sent(&mut session).remove(0);
    assert_eq!(get_text(did_change.get("method")), Some("textDocument/didChange"));
    let changed = get_member(did_change.get("params"), "textDocument");
    assert_eq!(get_signed(get_member(changed, "version")), Some(2));
    let changes = get_items(get_member(did_change.get("params"), "contentChanges")).unwrap();
    assert_eq!(get_text(changes[0].get("text")), Some("fn main() { todo!() }\n"));
    let stale = wait_for_diagnostics(TEST_URI, second, &Event::Message(publication(1, "stale")));
    assert!(matches!(stale, DiagnosticsStep::Wait));
    let current = wait_for_diagnostics(TEST_URI, second, &Event::Message(publication(2, "current")));
    assert_eq!(published(current)[0].message, "current");
}

#[test]
fn no_publication_returns_none_after_timeout() {
    let mut session = LspSession::new((), Vec::<u8>::new(), Duration::from_millis(20));
    assert_eq!(session.diagnostics_timeout(), Duration::from_millis(20));
    let (version, _) = session.diagnostics_for_uri("rust", TEST_URI, "fn main() {}\n");
    session.record_version(TEST_URI, version);
    assert!(matches!(
        wait_for_diagnostics(TEST_URI, version, &Event::TimedOut),
        DiagnosticsStep::NotPublished
    ));
}

#[test]
fn initialize_request_is_complete() {
    let request = initialize_message(1, 4711, "file:///w", "w");
    assert_eq!(
        json_to_string(&request),
        concat_lines(&[
            r#"{"id":1,"jsonrpc":"2.0","method":"initialize","params":{"#,
            r#""capabilities":{"textDocument":{"publishDiagnostics":{"#,
            r#""relatedInformation":true,"versionSupport":true}},"#,
            r#""workspace":{"configuration":true}},"#,
            r#""clientInfo":{"name":"codex-lsp"},"processId":4711,"#,
            r#""rootUri":"file:///w","workspaceFolders":[{"name":"w","uri":"file:///w"}]}}"#,
        ])
    );
}

fn concat_lines(parts: &[&str]) -> String {
    parts.iter().copied().collect()
}

#[test]
fn closing_messages_are_complete() {
    assert_eq!(
        json_to_string(&shutdown_message(9)),
        r#"{"id":9,"jsonrpc":"2.0","method":"shutdown","params":null}"#
    );
    assert_eq!(
        json_to_string(&Exchange::Initialize.closing_message()),
        r#"{"jsonrpc":"2.0","method":"initialized","params":{}}"#
    );
    assert_eq!(
        json_to_string(&Exchange::Shutdown.closing_message()),
        r#"{"jsonrpc":"2.0","method":"exit","params":null}"#
    );
    assert_eq!(Exchange::Initialize.method(), "initialize");
    assert_eq!(Exchange::Shutdown.method(), "shutdown");
}

#[test]
fn document_messages_are_complete() {
    assert_eq!(
        json_to_string(&document_message("rust", "file:///a", 1, "x\n")),
        concat_lines(&[
            r#"{"jsonrpc":"2.0","method":"textDocument/didOpen","params":{"textDocument":{"#,
            r#""languageId":"rust","text":"x\n","uri":"file:///a","version":1}}}"#,
        ])
    );
    assert_eq!(
        json_to_string(&document_message("rust", "file:///a", 3, "y")),
        concat_lines(&[
            r#"{"jsonrpc":"2.0","method":"textDocument/didChange","params":{"#,
            r#""contentChanges":[{"text":"y"}],"textDocument":{"uri":"file:///a","version":3}}}"#,
        ])
    );
}

#[test]
fn workspace_folders_have_names() {
    assert_eq!(workspace_folder_name(Some("repo")), "repo");
    assert_eq!(workspace_folder_name(Some("")), "workspace");
    assert_eq!(workspace_folder_name(None), "workspace");
}

#[test]
fn server_requests_are_answered_by_method() {
    let id = Json::integer(5);
    let items = document(r#"{"items":[1,2,3]}"#);
    assert_eq!(
        json_to_string(&server_request_response("workspace/configuration", &id, Some(&items))),
        r#"{"id":5,"jsonrpc":"2.0","result":[null,null,null]}"#
    );
    assert_eq!(
        json_to_string(&server_request_response("workspace/configuration", &id, None)),
        r#"{"id":5,"jsonrpc":"2.0","result":[]}"#
    );
    let no_list = document(r#"{"items":{"a":1}}"#);
    assert_eq!(
        json_to_string(&server_request_response("workspace/configuration", &id, Some(&no_list))),
        r#"{"id":5,"jsonrpc":"2.0","result":[]}"#
    );
    for method in [
        "client/registerCapability",
        "client/unregisterCapability",
        "window/workDoneProgress/create",
    ] {
        assert_eq!(
            json_to_string(&server_request_response(method, &id, Some(&items))),
            r#"{"id":5,"jsonrpc":"2.0","result":null}"#
        );
    }
    assert_eq!(
        json_to_string(&server_request_response("workspace/applyEdit", &id, None)),
        concat_lines(&[
            r#"{"error":{"code":-32601,"message":"unsupported server request: workspace/applyEdit"},"#,
            r#""id":5,"jsonrpc":"2.0"}"#,
        ])
    );
}

#[test]
fn answers_bear_the_id_as_it_came() {
    for id in [r#""abc""#, "-3", "18446744073709551615", "1.5", "null", "[1]"] {
        let request = document(&format!(r#"{{"method":"client/registerCapability","id":{id}}}"#));
        let reply = handle_auxiliary_message(&request).unwrap();
        assert_eq!(
            json_to_string(&reply),
            format!(r#"{{"id":{id},"jsonrpc":"2.0","result":null}}"#)
        );
    }
}

#[test]
fn only_requests_are_answered() {
    for text in [
        r#"{"method":"window/logMessage","params":{}}"#,
        r#"{"id":1,"result":null}"#,
        r#"{"id":1,"method":7}"#,
        r#"{"id":1,"method":null}"#,
        r#"[{"id":1,"method":"a"}]"#,
        "null",
        "3.5",
    ] {
        assert!(handle_auxiliary_message(&document(text)).is_none());
    }
}

#[test]
fn responses_are_told_from_requests() {
    assert!(is_response_for(&document(r#"{"id":3,"result":null}"#), 3));
    assert!(is_response_for(&document(r#"{"id":3,"error":{}}"#), 3));
    assert!(is_response_for(&document(r#"{"id":-3,"error":null}"#), -3));
    assert!(!is_response_for(&document(r#"{"id":3,"result":null}"#), 4));
    assert!(!is_response_for(&document(r#"{"id":3}"#), 3));
    assert!(!is_response_for(&document(r#"{"id":"3","result":null}"#), 3));
    assert!(!is_response_for(&document(r#"{"id":3.0,"result":null}"#), 3));
    assert!(!is_response_for(&document(r#"{"result":null}"#), 3));
    assert!(!is_response_for(&document(r#"{"id":3,"method":null,"result":null}"#), 3));
    assert!(!is_response_for(&document(r#"{"id":18446744073709551615,"result":1}"#), -1));
}

#[test]
fn responses_are_checked_for_errors() {
    let fine = document(r#"{"id":1,"result":null}"#);
    assert!(assert_successful_response(Exchange::Initialize, &fine).is_ok());
    let broken = document(r#"{"id":1,"error":{"code":1,"message":"no"}}"#);
    let error = assert_successful_response(Exchange::Initialize, &broken).unwrap_err();
    assert_eq!(error.message(), r#"LSP initialize failed: {"code":1,"message":"no"}"#);
    let null = document(r#"{"id":1,"error":null}"#);
    assert!(assert_successful_response(Exchange::Shutdown, &null).is_err());
}

#[test]
fn session_errors_have_texts() {
    assert_eq!(
        SessionError::ClosedBeforeResponse.message(),
        "LSP server closed before responding"
    );
    assert_eq!(
        SessionError::ClosedBeforeDiagnostics.message(),
        "LSP server closed while waiting for diagnostics"
    );
    assert_eq!(
        SessionError::TimedOut(Exchange::Initialize).message(),
        "LSP initialize timed out"
    );
    assert_eq!(
        SessionError::TimedOut(Exchange::Shutdown).message(),
        "LSP shutdown timed out"
    );
    let failed = SessionError::Failed { exchange: Exchange::Shutdown, error: Json::integer(-4) };
    assert_eq!(failed.message(), "LSP shutdown failed: -4");
}

#[test]
fn exchange_fails_when_the_server_closes_or_time_is_over() {
    assert!(matches!(
        wait_for_response(Exchange::Initialize, 1, &Event::Closed),
        ExchangeStep::Fail(SessionError::ClosedBeforeResponse)
    ));
    assert!(matches!(
        wait_for_response(Exchange::Shutdown, 1, &Event::TimedOut),
        ExchangeStep::Fail(SessionError::TimedOut(Exchange::Shutdown))
    ));
    assert!(matches!(
        wait_for_response(Exchange::Shutdown, 1, &event(r#"{"id":1,"error":0}"#)),
        ExchangeStep::Fail(SessionError::Failed { exchange: Exchange::Shutdown, .. })
    ));
    assert!(matches!(
        wait_for_response(Exchange::Shutdown, 1, &event(r#"{"id":2,"result":0}"#)),
        ExchangeStep::Wait
    ));
    match wait_for_response(Exchange::Shutdown, 1, &event(r#"{"id":1,"result":0}"#)) {
        ExchangeStep::Finish(exit) => assert_eq!(get_text(exit.get("method")), Some("exit")),
        other => panic!("not finished: {other:?}"),
    }
}

#[test]
fn waiting_for_diagnostics_passes_other_messages_over() {
    assert!(matches!(
        wait_for_diagnostics(TEST_URI, 1, &Event::Closed),
        DiagnosticsStep::Fail(SessionError::ClosedBeforeDiagnostics)
    ));
    let other = publication(1, "m");
    assert!(matches!(
        wait_for_diagnostics("file:///other", 1, &Event::Message(other)),
        DiagnosticsStep::Wait
    ));
    assert!(matches!(
        wait_for_diagnostics(TEST_URI, 1, &event(r#"{"method":"$/progress"}"#)),
        DiagnosticsStep::Wait
    ));
    assert!(matches!(
        wait_for_diagnostics(
            TEST_URI,
            1,
            &event(r#"{"method":"window/workDoneProgress/create","id":"t"}"#)
        ),
        DiagnosticsStep::Reply(_)
    ));
}

#[test]
fn stale_publication_with_an_id_is_answered() {
    let stale = event(&format!(
        r#"{{"id":8,"method":"textDocument/publishDiagnostics",
            "params":{{"uri":"{TEST_URI}","version":1,"diagnostics":[]}}}}"#
    ));
    match wait_for_diagnostics(TEST_URI, 2, &stale) {
        DiagnosticsStep::Reply(reply) => {
            assert_eq!(get_signed(get_member(reply.get("error"), "code")), Some(-32601))
        }
        other => panic!("no reply: {other:?}"),
    }
}

#[test]
fn request_ids_count_up_from_one() {
    let mut session = session();
    assert!(session.can_request());
    assert_eq!(session.next_id(), 1);
    let (initialize, _) = session.initialize(1, "file:///w", None);
    assert_eq!(initialize, 2);
    let (shutdown, request) = session.shutdown();
    assert_eq!(shutdown, 3);
    assert_eq!(get_signed(request.get("id")), Some(3));
}

#[test]
fn document_versions_count_the_times_sent() {
    let mut session = session();
    let uris = ["file:///a", "file:///b", "file:///a", "file:///a", "file:///b"];
    let versions = [1, 1, 2, 3, 2];
    for (uri, expected) in uris.iter().zip(versions) {
        assert!(session.can_update(uri));
        let (version, message) = session.diagnostics_for_uri("rust", uri, "x");
        assert_eq!(version, expected);
        let method = if expected == 1 { "textDocument/didOpen" } else { "textDocument/didChange" };
        assert_eq!(get_text(message.get("method")), Some(method));
        session.record_version(uri, version);
    }
}

#[test]
fn a_version_that_was_not_sent_is_given_again() {
    let mut session = session();
    assert_eq!(session.diagnostics_for_uri("rust", TEST_URI, "x").0, 1);
    assert_eq!(session.diagnostics_for_uri("rust", TEST_URI, "y").0, 1);
    session.record_version(TEST_URI, i32::MAX);
    assert!(!session.can_update(TEST_URI));
    assert!(session.can_update("file:///other"));
}

#[test]
fn messages_of_the_client_read_back() {
    let mut session = session();
    let messages = [
        initialize_message(i64::MAX, u32::MAX, "file:///\u{1f600}", "\"quoted\\\""),
        shutdown_message(i64::MIN),
        Exchange::Initialize.closing_message(),
        document_message("rust", "file:///a", 1, "\r\n\r\nContent-Length: 3\r\n\r\n\u{0}"),
        document_message("rust", "file:///a", i32::MAX, ""),
        server_request_response("workspace/configuration", &Json::Null, None),
        server_request_response("\u{e9}", &Json::text("id"), None),
    ];
    for message in &messages {
        send(&mut session, message);
    }
    let read: Vec<String> = sent(&mut session).iter().map(json_to_string).collect();
    let written: Vec<String> = messages.iter().map(json_to_string).collect();
    assert_eq!(read, written);
}

#[test]
fn sessions_read_through_their_reader() {
    let mut session = session();
    let bytes = encode_message(&Json::text("hello")).unwrap();
    match session.reader_mut().receive(&bytes) {
        Ok(ReadStep::Message(message)) => assert_eq!(json_to_string(&message), "\"hello\""),
        other => panic!("no message: {other:?}"),
    }
}
