//! What the client sends, and what it makes of what it receives.

use vstd::prelude::*;

use crate::client;
use crate::client::{
    DiagnosticsStep, DiagnosticsStepView, Event, EventView, Exchange, ExchangeStep,
    ExchangeStepView, SessionError, SessionErrorView,
};
use crate::codec;
use crate::diagnostic::Diagnostic;
use crate::json;
use crate::json::{Json, JsonView};
use crate::publication;

verus! {

/// Whether a document is an object with members of these names and no others.
pub open spec fn has_members(document: JsonView, names: Set<Seq<char>>) -> bool {
    document matches JsonView::Object(members) && members.dom() == names
}

/// Whether what may be there is an object with members of these names and no others.
pub open spec fn holds_members(document: Option<JsonView>, names: Set<Seq<char>>) -> bool {
    document matches Some(object) && has_members(object, names)
}

/// Whether a text is there.
pub open spec fn holds_text(value: Option<JsonView>, text: Seq<char>) -> bool {
    value == Some(JsonView::String(text))
}

/// No two of the names in the client's messages are equal.
proof fn lemma_names()
    ensures
        "jsonrpc"@ != "id"@,
        "jsonrpc"@ != "method"@,
        "jsonrpc"@ != "params"@,
        "jsonrpc"@ != "result"@,
        "jsonrpc"@ != "error"@,
        "id"@ != "method"@,
        "id"@ != "params"@,
        "id"@ != "result"@,
        "id"@ != "error"@,
        "method"@ != "params"@,
        "method"@ != "result"@,
        "method"@ != "error"@,
        "result"@ != "error"@,
        "code"@ != "message"@,
        "processId"@ != "clientInfo"@,
        "processId"@ != "rootUri"@,
        "processId"@ != "workspaceFolders"@,
        "processId"@ != "capabilities"@,
        "clientInfo"@ != "rootUri"@,
        "clientInfo"@ != "workspaceFolders"@,
        "clientInfo"@ != "capabilities"@,
        "rootUri"@ != "workspaceFolders"@,
        "rootUri"@ != "capabilities"@,
        "workspaceFolders"@ != "capabilities"@,
        "uri"@ != "name"@,
        "workspace"@ != "textDocument"@,
        "relatedInformation"@ != "versionSupport"@,
        "uri"@ != "languageId"@,
        "uri"@ != "version"@,
        "uri"@ != "text"@,
        "languageId"@ != "version"@,
        "languageId"@ != "text"@,
        "version"@ != "text"@,
        "textDocument"@ != "contentChanges"@,
{
    reveal_strlit("jsonrpc");
    reveal_strlit("id");
    reveal_strlit("method");
    reveal_strlit("params");
    reveal_strlit("result");
    reveal_strlit("error");
    reveal_strlit("code");
    reveal_strlit("message");
    reveal_strlit("processId");
    reveal_strlit("clientInfo");
    reveal_strlit("rootUri");
    reveal_strlit("workspaceFolders");
    reveal_strlit("capabilities");
    reveal_strlit("uri");
    reveal_strlit("name");
    reveal_strlit("workspace");
    reveal_strlit("textDocument");
    reveal_strlit("relatedInformation");
    reveal_strlit("versionSupport");
    reveal_strlit("languageId");
    reveal_strlit("version");
    reveal_strlit("text");
    reveal_strlit("contentChanges");
    assert("method"@[0] == 'm' && "params"@[0] == 'p' && "result"@[0] == 'r');
    assert("id"@.len() == 2 && "error"@.len() == 5 && "method"@.len() == 6 && "jsonrpc"@.len() == 7);
    assert("params"@.len() == 6 && "result"@.len() == 6);
    assert("code"@.len() == 4 && "message"@.len() == 7);
    assert("processId"@.len() == 9 && "clientInfo"@.len() == 10 && "rootUri"@.len() == 7);
    assert("workspaceFolders"@.len() == 16 && "capabilities"@.len() == 12);
    assert("uri"@.len() == 3 && "name"@.len() == 4 && "languageId"@.len() == 10);
    assert("version"@.len() == 7 && "text"@.len() == 4);
    assert("workspace"@.len() == 9 && "textDocument"@.len() == 12 && "contentChanges"@.len() == 14);
    assert("relatedInformation"@.len() == 18 && "versionSupport"@.len() == 14);
}

/// The request that opens a session names the client's process, the root as it was given, one
/// folder with that root and the given name, and what the client can do.
pub proof fn law_initialize_request(
    request_id: i64,
    process_id: u32,
    root_uri: Seq<char>,
    folder_name: Seq<char>,
)
    ensures
        ({
            let request = client::initialize_request(request_id, process_id, root_uri, folder_name);
            let params = json::field(request, "params"@);
            let folders = json::member(params, "workspaceFolders"@);
            let can = json::member(params, "capabilities"@);
            let publish = json::member(json::member(can, "textDocument"@), "publishDiagnostics"@);
            &&& has_members(request, set!["jsonrpc"@, "id"@, "method"@, "params"@])
            &&& holds_text(json::field(request, "jsonrpc"@), "2.0"@)
            &&& json::field(request, "id"@) == Some(JsonView::Integer(request_id as int))
            &&& holds_text(json::field(request, "method"@), "initialize"@)
            &&& holds_members(
                params,
                set![
                    "processId"@,
                    "clientInfo"@,
                    "rootUri"@,
                    "workspaceFolders"@,
                    "capabilities"@,
                ],
            )
            &&& json::member(params, "processId"@) == Some(JsonView::Integer(process_id as int))
            &&& holds_members(json::member(params, "clientInfo"@), set!["name"@])
            &&& holds_text(json::member(json::member(params, "clientInfo"@), "name"@), "codex-lsp"@)
            &&& holds_text(json::member(params, "rootUri"@), root_uri)
            &&& folders matches Some(JsonView::Array(list))
            &&& list.len() == 1
            &&& has_members(list[0], set!["uri"@, "name"@])
            &&& holds_text(json::field(list[0], "uri"@), root_uri)
            &&& holds_text(json::field(list[0], "name"@), folder_name)
            &&& holds_members(can, set!["workspace"@, "textDocument"@])
            &&& holds_members(json::member(can, "workspace"@), set!["configuration"@])
            &&& json::member(json::member(can, "workspace"@), "configuration"@) == Some(
                JsonView::Bool(true),
            )
            &&& holds_members(json::member(can, "textDocument"@), set!["publishDiagnostics"@])
            &&& holds_members(publish, set!["relatedInformation"@, "versionSupport"@])
            &&& json::member(publish, "relatedInformation"@) == Some(JsonView::Bool(true))
            &&& json::member(publish, "versionSupport"@) == Some(JsonView::Bool(true))
        }),
{
    lemma_names();
    let request = client::initialize_request(request_id, process_id, root_uri, folder_name);
    let params = json::field(request, "params"@)->0;
    let can = json::field(params, "capabilities"@)->0;
    let document = json::field(can, "textDocument"@)->0;
    let publish = json::field(document, "publishDiagnostics"@)->0;
    let list = json::field(params, "workspaceFolders"@)->0->Array_0;
    assert(request->Object_0.dom() =~= set!["jsonrpc"@, "id"@, "method"@, "params"@]);
    assert(params->Object_0.dom() =~= set![
        "processId"@,
        "clientInfo"@,
        "rootUri"@,
        "workspaceFolders"@,
        "capabilities"@,
    ]);
    assert(json::field(params, "clientInfo"@)->0->Object_0.dom() =~= set!["name"@]);
    assert(list[0]->Object_0.dom() =~= set!["uri"@, "name"@]);
    assert(can->Object_0.dom() =~= set!["workspace"@, "textDocument"@]);
    assert(json::field(can, "workspace"@)->0->Object_0.dom() =~= set!["configuration"@]);
    assert(document->Object_0.dom() =~= set!["publishDiagnostics"@]);
    assert(publish->Object_0.dom() =~= set!["relatedInformation"@, "versionSupport"@]);
}

/// The request that closes a session, and the notifications that follow the two exchanges.
pub proof fn law_closing_messages(request_id: i64)
    ensures
        ({
            let request = client::shutdown_request(request_id);
            &&& has_members(request, set!["jsonrpc"@, "id"@, "method"@, "params"@])
            &&& holds_text(json::field(request, "jsonrpc"@), "2.0"@)
            &&& json::field(request, "id"@) == Some(JsonView::Integer(request_id as int))
            &&& holds_text(json::field(request, "method"@), "shutdown"@)
            &&& json::field(request, "params"@) == Some(JsonView::Null)
        }),
        ({
            let opened = client::closing_notification(Exchange::Initialize);
            &&& has_members(opened, set!["jsonrpc"@, "method"@, "params"@])
            &&& holds_text(json::field(opened, "jsonrpc"@), "2.0"@)
            &&& holds_text(json::field(opened, "method"@), "initialized"@)
            &&& json::field(opened, "params"@) == Some(JsonView::Object(Map::empty()))
        }),
        ({
            let closed = client::closing_notification(Exchange::Shutdown);
            &&& has_members(closed, set!["jsonrpc"@, "method"@, "params"@])
            &&& holds_text(json::field(closed, "jsonrpc"@), "2.0"@)
            &&& holds_text(json::field(closed, "method"@), "exit"@)
            &&& json::field(closed, "params"@) == Some(JsonView::Null)
        }),
        client::exchange_method(Exchange::Initialize) == "initialize"@,
        client::exchange_method(Exchange::Shutdown) == "shutdown"@,
{
    lemma_names();
    assert(client::shutdown_request(request_id)->Object_0.dom() =~= set![
        "jsonrpc"@,
        "id"@,
        "method"@,
        "params"@,
    ]);
    assert(client::closing_notification(Exchange::Initialize)->Object_0.dom() =~= set![
        "jsonrpc"@,
        "method"@,
        "params"@,
    ]);
    assert(client::closing_notification(Exchange::Shutdown)->Object_0.dom() =~= set![
        "jsonrpc"@,
        "method"@,
        "params"@,
    ]);
}

/// The first version of a document opens it, with its URI, its language and all of its text.
/// Each later one replaces the text by all of the new one.
pub proof fn law_document_notification(
    language_id: Seq<char>,
    uri: Seq<char>,
    version: i32,
    text: Seq<char>,
)
    ensures
        ({
            let opened = client::document_notification(language_id, uri, 1, text);
            let document = json::member(json::field(opened, "params"@), "textDocument"@);
            &&& has_members(opened, set!["jsonrpc"@, "method"@, "params"@])
            &&& holds_text(json::field(opened, "jsonrpc"@), "2.0"@)
            &&& holds_text(json::field(opened, "method"@), "textDocument/didOpen"@)
            &&& holds_members(json::field(opened, "params"@), set!["textDocument"@])
            &&& holds_members(document, set!["uri"@, "languageId"@, "version"@, "text"@])
            &&& holds_text(json::member(document, "uri"@), uri)
            &&& holds_text(json::member(document, "languageId"@), language_id)
            &&& json::member(document, "version"@) == Some(JsonView::Integer(1))
            &&& holds_text(json::member(document, "text"@), text)
        }),
        version != 1 ==> {
            let changed = client::document_notification(language_id, uri, version, text);
            let params = json::field(changed, "params"@);
            let document = json::member(params, "textDocument"@);
            &&& has_members(changed, set!["jsonrpc"@, "method"@, "params"@])
            &&& holds_text(json::field(changed, "jsonrpc"@), "2.0"@)
            &&& holds_text(json::field(changed, "method"@), "textDocument/didChange"@)
            &&& holds_members(params, set!["textDocument"@, "contentChanges"@])
            &&& holds_members(document, set!["uri"@, "version"@])
            &&& holds_text(json::member(document, "uri"@), uri)
            &&& json::member(document, "version"@) == Some(JsonView::Integer(version as int))
            &&& json::member(params, "contentChanges"@) matches Some(JsonView::Array(changes))
            &&& changes.len() == 1
            &&& has_members(changes[0], set!["text"@])
            &&& holds_text(json::field(changes[0], "text"@), text)
        },
{
    lemma_names();
    let opened = client::document_notification(language_id, uri, 1, text);
    let params = json::field(opened, "params"@)->0;
    assert(opened->Object_0.dom() =~= set!["jsonrpc"@, "method"@, "params"@]);
    assert(params->Object_0.dom() =~= set!["textDocument"@]);
    assert(json::field(params, "textDocument"@)->0->Object_0.dom() =~= set![
        "uri"@,
        "languageId"@,
        "version"@,
        "text"@,
    ]);
    if version != 1 {
        let changed = client::document_notification(language_id, uri, version, text);
        let params = json::field(changed, "params"@)->0;
        let changes = json::field(params, "contentChanges"@)->0->Array_0;
        assert(changed->Object_0.dom() =~= set!["jsonrpc"@, "method"@, "params"@]);
        assert(params->Object_0.dom() =~= set!["textDocument"@, "contentChanges"@]);
        assert(json::field(params, "textDocument"@)->0->Object_0.dom() =~= set![
            "uri"@,
            "version"@,
        ]);
        assert(changes[0]->Object_0.dom() =~= set!["text"@]);
    }
}

/// A workspace folder has the name of its directory, where that has one.
pub proof fn law_workspace_name(name: Seq<char>)
    ensures
        name.len() > 0 ==> client::workspace_name(Some(name)) == name,
        name.len() == 0 ==> client::workspace_name(Some(name)) == "workspace"@,
        client::workspace_name(None) == "workspace"@,
{
}

/// The next version of a document is one more than the one that was sent last, whatever was
/// sent of other documents.
pub proof fn law_next_version(
    versions: Map<Seq<char>, i32>,
    uri: Seq<char>,
    other: Seq<char>,
    version: i32,
)
    requires
        other != uri,
    ensures
        client::next_version(Map::empty(), uri) == 1,
        client::next_version(versions.insert(uri, version), uri) == version + 1,
        client::next_version(versions.insert(other, version), uri) == client::next_version(
            versions,
            uri,
        ),
{
}

/// A message answers a request of the client if and only if it has no method, has the
/// request's id, and has a result or an error.
pub proof fn law_responses(message: JsonView, request_id: i64)
    ensures
        client::responds_to(message, request_id) <==> {
            &&& json::field(message, "method"@) is None
            &&& json::field(message, "id"@) == Some(JsonView::Integer(request_id as int))
            &&& (json::field(message, "result"@) is Some || json::field(message, "error"@) is Some)
        },
{
}

/// The methods that the client answers with a result.
pub open spec fn is_supported(method: Seq<char>) -> bool {
    ||| method == "workspace/configuration"@
    ||| method == "client/registerCapability"@
    ||| method == "client/unregisterCapability"@
    ||| method == "window/workDoneProgress/create"@
}

/// An answer to a request of the server bears the request's id. A question for configuration
/// is answered with as many nulls as it asks for, other supported requests with null, and all
/// other requests with an error that names the method.
pub proof fn law_answers(method: Seq<char>, id: JsonView, params: Option<JsonView>)
    ensures
        ({
            let answer = client::request_response(method, id, params);
            let result = json::field(answer, "result"@);
            let error = json::field(answer, "error"@);
            &&& holds_text(json::field(answer, "jsonrpc"@), "2.0"@)
            &&& json::field(answer, "id"@) == Some(id)
            &&& is_supported(method) ==> has_members(answer, set!["jsonrpc"@, "id"@, "result"@])
            &&& method == "workspace/configuration"@ ==> (result matches Some(
                JsonView::Array(nulls),
            ) && nulls.len() == (match json::member(params, "items"@) {
                Some(JsonView::Array(items)) => items.len(),
                _ => 0,
            }) && forall|i: int| 0 <= i < nulls.len() ==> #[trigger] nulls[i] == JsonView::Null)
            &&& is_supported(method) && method != "workspace/configuration"@ ==> result == Some(
                JsonView::Null,
            )
            &&& !is_supported(method) ==> {
                &&& has_members(answer, set!["jsonrpc"@, "id"@, "error"@])
                &&& holds_members(error, set!["code"@, "message"@])
                &&& json::member(error, "code"@) == Some(JsonView::Integer(-32601))
                &&& holds_text(
                    json::member(error, "message"@),
                    "unsupported server request: "@ + method,
                )
            }
        }),
{
    lemma_names();
    let answer = client::request_response(method, id, params);
    if is_supported(method) {
        assert(answer->Object_0.dom() =~= set!["jsonrpc"@, "id"@, "result"@]);
    } else {
        assert(answer->Object_0.dom() =~= set!["jsonrpc"@, "id"@, "error"@]);
        assert(json::field(answer, "error"@)->0->Object_0.dom() =~= set!["code"@, "message"@]);
    }
}

/// A message is answered if and only if it has a method, as a text, and an id; the answer is
/// the one to that method, with that id.
pub proof fn law_requests_are_answered(message: JsonView)
    ensures
        match (json::field(message, "method"@), json::field(message, "id"@)) {
            (Some(JsonView::String(method)), Some(id)) => client::auxiliary_response(message)
                == Some(client::request_response(method, id, json::field(message, "params"@))),
            _ => client::auxiliary_response(message) is None,
        },
{
}

/// Whether a message publishes the diagnostics of a document, and not those of a version older
/// than the given one.
pub open spec fn publishes_current(message: JsonView, uri: Seq<char>, version: i32) -> bool {
    let named = json::member(json::field(message, "params"@), "version"@);
    &&& holds_text(json::field(message, "method"@), "textDocument/publishDiagnostics"@)
    &&& holds_text(json::member(json::field(message, "params"@), "uri"@), uri)
    &&& !(named matches Some(JsonView::Integer(v)) && -0x8000_0000_0000_0000 <= v < version)
}

/// A wait for the diagnostics of a version ends with the diagnostics of a publication that is
/// for that document and not for an older version, and with no other message. Any other
/// message is answered, where it calls for an answer, and waited past.
pub proof fn law_diagnostics_step(uri: Seq<char>, version: i32, message: JsonView)
    ensures
        publishes_current(message, uri, version) ==> client::diagnostics_step(
            uri,
            version,
            EventView::Message(message),
        ) == DiagnosticsStepView::Published(publication::published(message)),
        !publishes_current(message, uri, version) ==> client::diagnostics_step(
            uri,
            version,
            EventView::Message(message),
        ) == (match client::auxiliary_response(message) {
            Some(reply) => DiagnosticsStepView::Reply(reply),
            None => DiagnosticsStepView::Wait,
        }),
        client::diagnostics_step(uri, version, EventView::TimedOut)
            == DiagnosticsStepView::NotPublished,
        client::diagnostics_step(uri, version, EventView::Closed) == DiagnosticsStepView::Fail(
            SessionErrorView::ClosedBeforeDiagnostics,
        ),
        client::is_current(message, uri, version) <==> publishes_current(message, uri, version),
{
}

/// Diagnostics of an older version are never published as those of a newer one.
pub proof fn law_old_diagnostics_are_never_published(
    uri: Seq<char>,
    version: i32,
    message: JsonView,
    old_version: i64,
)
    requires
        json::member(json::field(message, "params"@), "version"@) == Some(
            JsonView::Integer(old_version as int),
        ),
        old_version < version,
    ensures
        client::diagnostics_step(uri, version, EventView::Message(message)) !is Published,
{
}

/// An exchange ends with the answer to its request: with success exactly where that has no
/// error. Any other message is answered, where it calls for an answer, and waited past.
pub proof fn law_exchange_step(exchange: Exchange, request_id: i64, message: JsonView)
    ensures
        ({
            let answers = json::field(message, "method"@) is None && json::field(message, "id"@)
                == Some(JsonView::Integer(request_id as int)) && (json::field(
                message,
                "result"@,
            ) is Some || json::field(message, "error"@) is Some);
            client::exchange_step(exchange, request_id, EventView::Message(message)) == (
            if answers {
                match json::field(message, "error"@) {
                    Some(error) => ExchangeStepView::Fail(
                        SessionErrorView::Failed { exchange, error },
                    ),
                    None => ExchangeStepView::Finish(client::closing_notification(exchange)),
                }
            } else {
                match client::auxiliary_response(message) {
                    Some(reply) => ExchangeStepView::Reply(reply),
                    None => ExchangeStepView::Wait,
                }
            })
        }),
        client::exchange_step(exchange, request_id, EventView::TimedOut) == ExchangeStepView::Fail(
            SessionErrorView::TimedOut(exchange),
        ),
        client::exchange_step(exchange, request_id, EventView::Closed) == ExchangeStepView::Fail(
            SessionErrorView::ClosedBeforeResponse,
        ),
{
}

/// The text of an error names what was asked, and shows what the server said.
pub proof fn law_session_error_texts(error: JsonView)
    ensures
        client::session_error_text(
            SessionErrorView::Failed { exchange: Exchange::Initialize, error },
        ) == "LSP "@ + "initialize"@ + " failed: "@ + codec::json_display(error),
        client::session_error_text(
            SessionErrorView::Failed { exchange: Exchange::Shutdown, error },
        ) == "LSP "@ + "shutdown"@ + " failed: "@ + codec::json_display(error),
        client::session_error_text(SessionErrorView::TimedOut(Exchange::Initialize)) == "LSP "@
            + "initialize"@ + " timed out"@,
        client::session_error_text(SessionErrorView::TimedOut(Exchange::Shutdown)) == "LSP "@
            + "shutdown"@ + " timed out"@,
        client::session_error_text(SessionErrorView::ClosedBeforeResponse)
            == "LSP server closed before responding"@,
        client::session_error_text(SessionErrorView::ClosedBeforeDiagnostics)
            == "LSP server closed while waiting for diagnostics"@,
{
}

/// Events, errors and steps say what they hold.
pub proof fn law_steps(
    message: Json,
    exchange: Exchange,
    error: SessionError,
    found: Vec<Diagnostic>,
)
    ensures
        Event::Message(message)@ == EventView::Message(message@),
        Event::Closed@ == EventView::Closed,
        Event::TimedOut@ == EventView::TimedOut,
        SessionError::ClosedBeforeResponse@ == SessionErrorView::ClosedBeforeResponse,
        SessionError::ClosedBeforeDiagnostics@ == SessionErrorView::ClosedBeforeDiagnostics,
        SessionError::TimedOut(exchange)@ == SessionErrorView::TimedOut(exchange),
        (SessionError::Failed { exchange, error: message })@ == (SessionErrorView::Failed {
            exchange,
            error: message@,
        }),
        ExchangeStep::Reply(message)@ == ExchangeStepView::Reply(message@),
        ExchangeStep::Wait@ == ExchangeStepView::Wait,
        ExchangeStep::Finish(message)@ == ExchangeStepView::Finish(message@),
        ExchangeStep::Fail(error)@ == ExchangeStepView::Fail(error@),
        DiagnosticsStep::Reply(message)@ == DiagnosticsStepView::Reply(message@),
        DiagnosticsStep::Wait@ == DiagnosticsStepView::Wait,
        DiagnosticsStep::NotPublished@ == DiagnosticsStepView::NotPublished,
        DiagnosticsStep::Fail(error)@ == DiagnosticsStepView::Fail(error@),
        DiagnosticsStep::Published(found)@ matches DiagnosticsStepView::Published(said)
            && said.len() == found@.len() && forall|i: int|
            0 <= i < said.len() ==> #[trigger] said[i] == found@[i]@,
{
}

} // verus!
