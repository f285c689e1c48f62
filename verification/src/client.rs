//! The decisions of a diagnostics-only client: what it sends, and what it makes of what it
//! receives.
//!
//! One session belongs to one long-lived language server. Documents are opened once and
//! updated on later calls, preserving the server's incremental state.

use std::time::Duration;

use vstd::hash_map::StringHashMap;
use vstd::prelude::*;
use vstd::string::*;

use crate::codec;
use crate::codec::json_to_string;
use crate::diagnostic::{Diagnostic, DiagnosticView};
use crate::json;
use crate::json::{get_items, get_member, get_signed, get_text, Json, JsonView};
use crate::laws;
use crate::protocol::MessageReader;
use crate::publication;
use crate::publication::{is_publish_diagnostics_for, is_stale_publication, parse_diagnostics};
use crate::text::same_text;

verus! {

/// The JSON-RPC error code of a method that is not known.
pub const METHOD_NOT_FOUND: i64 = -32601;

/// What a client asks its server once, and waits for the answer to.
#[derive(Debug, Clone, Copy, PartialEq, Eq, Structural)]
pub enum Exchange {
    Initialize,
    Shutdown,
}

/// What happens while a client waits.
#[derive(Debug)]
pub enum Event {
    Message(Json),
    /// The server closed its output.
    Closed,
    /// The time to wait is over.
    TimedOut,
}

/// Why a session could not go on.
#[derive(Debug)]
pub enum SessionError {
    ClosedBeforeResponse,
    ClosedBeforeDiagnostics,
    TimedOut(Exchange),
    Failed { exchange: Exchange, error: Json },
}

/// What to do next in an exchange.
#[derive(Debug)]
pub enum ExchangeStep {
    /// Send an answer, and wait on.
    Reply(Json),
    Wait,
    /// Send a notification: the exchange is over.
    Finish(Json),
    Fail(SessionError),
}

/// What to do next while diagnostics are awaited.
#[derive(Debug)]
pub enum DiagnosticsStep {
    /// Send an answer, and wait on.
    Reply(Json),
    Wait,
    /// The server published diagnostics, perhaps none.
    Published(Vec<Diagnostic>),
    /// The server published nothing in time.
    NotPublished,
    Fail(SessionError),
}

/// What an [`Event`] says.
pub enum EventView {
    Message(JsonView),
    Closed,
    TimedOut,
}

/// What a [`SessionError`] says.
pub enum SessionErrorView {
    ClosedBeforeResponse,
    ClosedBeforeDiagnostics,
    TimedOut(Exchange),
    Failed { exchange: Exchange, error: JsonView },
}

/// What an [`ExchangeStep`] says.
pub enum ExchangeStepView {
    Reply(JsonView),
    Wait,
    Finish(JsonView),
    Fail(SessionErrorView),
}

/// What a [`DiagnosticsStep`] says.
pub enum DiagnosticsStepView {
    Reply(JsonView),
    Wait,
    Published(Seq<DiagnosticView>),
    NotPublished,
    Fail(SessionErrorView),
}

impl View for Event {
    type V = EventView;

    open spec fn view(&self) -> EventView {
        match self {
            Event::Message(message) => EventView::Message(message@),
            Event::Closed => EventView::Closed,
            Event::TimedOut => EventView::TimedOut,
        }
    }
}

impl View for SessionError {
    type V = SessionErrorView;

    open spec fn view(&self) -> SessionErrorView {
        match self {
            SessionError::ClosedBeforeResponse => SessionErrorView::ClosedBeforeResponse,
            SessionError::ClosedBeforeDiagnostics => SessionErrorView::ClosedBeforeDiagnostics,
            SessionError::TimedOut(exchange) => SessionErrorView::TimedOut(*exchange),
            SessionError::Failed { exchange, error } => SessionErrorView::Failed {
                exchange: *exchange,
                error: error@,
            },
        }
    }
}

impl View for ExchangeStep {
    type V = ExchangeStepView;

    open spec fn view(&self) -> ExchangeStepView {
        match self {
            ExchangeStep::Reply(reply) => ExchangeStepView::Reply(reply@),
            ExchangeStep::Wait => ExchangeStepView::Wait,
            ExchangeStep::Finish(notification) => ExchangeStepView::Finish(notification@),
            ExchangeStep::Fail(error) => ExchangeStepView::Fail(error@),
        }
    }
}

impl View for DiagnosticsStep {
    type V = DiagnosticsStepView;

    open spec fn view(&self) -> DiagnosticsStepView {
        match self {
            DiagnosticsStep::Reply(reply) => DiagnosticsStepView::Reply(reply@),
            DiagnosticsStep::Wait => DiagnosticsStepView::Wait,
            DiagnosticsStep::Published(found) => DiagnosticsStepView::Published(
                publication::views(found@),
            ),
            DiagnosticsStep::NotPublished => DiagnosticsStepView::NotPublished,
            DiagnosticsStep::Fail(error) => DiagnosticsStepView::Fail(error@),
        }
    }
}

/// The method that starts an exchange.
pub open spec fn exchange_method(exchange: Exchange) -> Seq<char> {
    match exchange {
        Exchange::Initialize => "initialize"@,
        Exchange::Shutdown => "shutdown"@,
    }
}

/// The notification that ends an exchange.
pub open spec fn closing_notification(exchange: Exchange) -> JsonView {
    match exchange {
        Exchange::Initialize => JsonView::Object(
            map![
                "jsonrpc"@ => JsonView::String("2.0"@),
                "method"@ => JsonView::String("initialized"@),
                "params"@ => JsonView::Object(Map::empty()),
            ],
        ),
        Exchange::Shutdown => JsonView::Object(
            map![
                "jsonrpc"@ => JsonView::String("2.0"@),
                "method"@ => JsonView::String("exit"@),
                "params"@ => JsonView::Null,
            ],
        ),
    }
}

/// What the client can do, as it tells the server.
pub open spec fn client_capabilities() -> JsonView {
    JsonView::Object(
        map![
            "workspace"@ => JsonView::Object(map!["configuration"@ => JsonView::Bool(true)]),
            "textDocument"@ => JsonView::Object(
                map![
                    "publishDiagnostics"@ => JsonView::Object(
                        map![
                            "relatedInformation"@ => JsonView::Bool(true),
                            "versionSupport"@ => JsonView::Bool(true),
                        ],
                    ),
                ],
            ),
        ],
    )
}

/// The request that opens a session.
pub open spec fn initialize_request(
    request_id: i64,
    process_id: u32,
    root_uri: Seq<char>,
    workspace_name: Seq<char>,
) -> JsonView {
    JsonView::Object(
        map![
            "jsonrpc"@ => JsonView::String("2.0"@),
            "id"@ => JsonView::Integer(request_id as int),
            "method"@ => JsonView::String("initialize"@),
            "params"@ => JsonView::Object(
                map![
                    "processId"@ => JsonView::Integer(process_id as int),
                    "clientInfo"@ => JsonView::Object(
                        map!["name"@ => JsonView::String("codex-lsp"@)],
                    ),
                    "rootUri"@ => JsonView::String(root_uri),
                    "workspaceFolders"@ => JsonView::Array(
                        seq![
                            JsonView::Object(
                                map![
                                    "uri"@ => JsonView::String(root_uri),
                                    "name"@ => JsonView::String(workspace_name),
                                ],
                            ),
                        ],
                    ),
                    "capabilities"@ => client_capabilities(),
                ],
            ),
        ],
    )
}

/// The request that closes a session.
pub open spec fn shutdown_request(request_id: i64) -> JsonView {
    JsonView::Object(
        map![
            "jsonrpc"@ => JsonView::String("2.0"@),
            "id"@ => JsonView::Integer(request_id as int),
            "method"@ => JsonView::String("shutdown"@),
            "params"@ => JsonView::Null,
        ],
    )
}

/// The name of a workspace folder: that of its directory, where it has one.
pub open spec fn workspace_name(file_name: Option<Seq<char>>) -> Seq<char> {
    match file_name {
        Some(name) => if name.len() > 0 {
            name
        } else {
            "workspace"@
        },
        None => "workspace"@,
    }
}

/// The version that a document gets next.
pub open spec fn next_version(versions: Map<Seq<char>, i32>, uri: Seq<char>) -> int {
    if versions.contains_key(uri) {
        versions[uri] + 1
    } else {
        1
    }
}

/// The notification of a document's text: the first version opens the document, and each
/// later one replaces its text.
pub open spec fn document_notification(
    language_id: Seq<char>,
    uri: Seq<char>,
    version: i32,
    text: Seq<char>,
) -> JsonView {
    if version == 1 {
        JsonView::Object(
            map![
                "jsonrpc"@ => JsonView::String("2.0"@),
                "method"@ => JsonView::String("textDocument/didOpen"@),
                "params"@ => JsonView::Object(
                    map![
                        "textDocument"@ => JsonView::Object(
                            map![
                                "uri"@ => JsonView::String(uri),
                                "languageId"@ => JsonView::String(language_id),
                                "version"@ => JsonView::Integer(version as int),
                                "text"@ => JsonView::String(text),
                            ],
                        ),
                    ],
                ),
            ],
        )
    } else {
        JsonView::Object(
            map![
                "jsonrpc"@ => JsonView::String("2.0"@),
                "method"@ => JsonView::String("textDocument/didChange"@),
                "params"@ => JsonView::Object(
                    map![
                        "textDocument"@ => JsonView::Object(
                            map![
                                "uri"@ => JsonView::String(uri),
                                "version"@ => JsonView::Integer(version as int),
                            ],
                        ),
                        "contentChanges"@ => JsonView::Array(
                            seq![JsonView::Object(map!["text"@ => JsonView::String(text)])],
                        ),
                    ],
                ),
            ],
        )
    }
}

/// Whether a message is the answer to a request of the client.
pub open spec fn responds_to(message: JsonView, request_id: i64) -> bool {
    &&& json::field(message, "method"@) is None
    &&& json::field(message, "id"@) == Some(JsonView::Integer(request_id as int))
    &&& json::field(message, "result"@) is Some || json::field(message, "error"@) is Some
}

/// What the client answers to a request of the server, if it supports its method.
pub open spec fn supported_result(method: Seq<char>, params: Option<JsonView>) -> Option<JsonView> {
    if method == "workspace/configuration"@ {
        let count = match json::items_of(json::member(params, "items"@)) {
            Some(items) => items.len(),
            None => 0,
        };
        Some(JsonView::Array(Seq::new(count, |i: int| JsonView::Null)))
    } else if method == "client/registerCapability"@ || method == "client/unregisterCapability"@
        || method == "window/workDoneProgress/create"@ {
        Some(JsonView::Null)
    } else {
        None
    }
}

/// The answer to a request of the server: an error where its method is not supported.
pub open spec fn request_response(
    method: Seq<char>,
    id: JsonView,
    params: Option<JsonView>,
) -> JsonView {
    match supported_result(method, params) {
        Some(result) => JsonView::Object(
            map![
                "jsonrpc"@ => JsonView::String("2.0"@),
                "id"@ => id,
                "result"@ => result,
            ],
        ),
        None => JsonView::Object(
            map![
                "jsonrpc"@ => JsonView::String("2.0"@),
                "id"@ => id,
                "error"@ => JsonView::Object(
                    map![
                        "code"@ => JsonView::Integer(METHOD_NOT_FOUND as int),
                        "message"@ => JsonView::String("unsupported server request: "@ + method),
                    ],
                ),
            ],
        ),
    }
}

/// The answer that a message calls for: one with a method and an id is a request of the
/// server, and any other calls for none.
pub open spec fn auxiliary_response(message: JsonView) -> Option<JsonView> {
    match (json::text_of(json::field(message, "method"@)), json::field(message, "id"@)) {
        (Some(method), Some(id)) => Some(
            request_response(method, id, json::field(message, "params"@)),
        ),
        _ => None,
    }
}

/// What to do next in an exchange whose request has the given id.
pub open spec fn exchange_step(
    exchange: Exchange,
    request_id: i64,
    event: EventView,
) -> ExchangeStepView {
    match event {
        EventView::Closed => ExchangeStepView::Fail(SessionErrorView::ClosedBeforeResponse),
        EventView::TimedOut => ExchangeStepView::Fail(SessionErrorView::TimedOut(exchange)),
        EventView::Message(message) => if responds_to(message, request_id) {
            match json::field(message, "error"@) {
                Some(error) => ExchangeStepView::Fail(
                    SessionErrorView::Failed { exchange, error },
                ),
                None => ExchangeStepView::Finish(closing_notification(exchange)),
            }
        } else {
            match auxiliary_response(message) {
                Some(reply) => ExchangeStepView::Reply(reply),
                None => ExchangeStepView::Wait,
            }
        },
    }
}

/// What to do next while the diagnostics of a version of a document are awaited.
pub open spec fn diagnostics_step(
    uri: Seq<char>,
    version: i32,
    event: EventView,
) -> DiagnosticsStepView {
    match event {
        EventView::Closed => DiagnosticsStepView::Fail(SessionErrorView::ClosedBeforeDiagnostics),
        EventView::TimedOut => DiagnosticsStepView::NotPublished,
        EventView::Message(message) => if publication::publishes_for(message, uri)
            && !publication::is_stale(message, version) {
            DiagnosticsStepView::Published(publication::published(message))
        } else {
            match auxiliary_response(message) {
                Some(reply) => DiagnosticsStepView::Reply(reply),
                None => DiagnosticsStepView::Wait,
            }
        },
    }
}

/// The text of an error.
pub open spec fn session_error_text(error: SessionErrorView) -> Seq<char> {
    match error {
        SessionErrorView::ClosedBeforeResponse => "LSP server closed before responding"@,
        SessionErrorView::ClosedBeforeDiagnostics =>
            "LSP server closed while waiting for diagnostics"@,
        SessionErrorView::TimedOut(exchange) => "LSP "@ + exchange_method(exchange) + " timed out"@,
        SessionErrorView::Failed { exchange, error } => "LSP "@ + exchange_method(exchange)
            + " failed: "@ + codec::json_display(error),
    }
}

impl Exchange {
    /// The method that starts the exchange.
    pub fn method(self) -> (r: &'static str)
        ensures
            r@ == exchange_method(self),
    {
        match self {
            Exchange::Initialize => "initialize",
            Exchange::Shutdown => "shutdown",
        }
    }

    /// The notification that ends the exchange.
    pub fn closing_message(self) -> (r: Json)
        ensures
            r@ == closing_notification(self),
    {
        match self {
            Exchange::Initialize => Json::object().with("jsonrpc", Json::text("2.0")).with(
                "method",
                Json::text("initialized"),
            ).with("params", Json::object()),
            Exchange::Shutdown => Json::object().with("jsonrpc", Json::text("2.0")).with(
                "method",
                Json::text("exit"),
            ).with("params", Json::Null),
        }
    }
}

impl SessionError {
    /// The text of the error.
    pub fn message(&self) -> (r: String)
        ensures
            r@ == session_error_text(self@),
    {
        match self {
            SessionError::ClosedBeforeResponse => "LSP server closed before responding".to_owned(),
            SessionError::ClosedBeforeDiagnostics =>
                "LSP server closed while waiting for diagnostics".to_owned(),
            SessionError::TimedOut(exchange) => {
                let mut text = "LSP ".to_owned();
                text.append(exchange.method());
                text.append(" timed out");
                text
            },
            SessionError::Failed { exchange, error } => {
                let mut text = "LSP ".to_owned();
                text.append(exchange.method());
                text.append(" failed: ");
                text.append(json_to_string(error).as_str());
                text
            },
        }
    }
}

fn capabilities() -> (r: Json)
    ensures
        r@ == client_capabilities(),
{
    let publish = Json::object().with("relatedInformation", Json::Bool(true)).with(
        "versionSupport",
        Json::Bool(true),
    );
    Json::object().with("workspace", Json::object().with("configuration", Json::Bool(true))).with(
        "textDocument",
        Json::object().with("publishDiagnostics", publish),
    )
}

/// A list of one document.
fn single(item: Json) -> (r: Json)
    ensures
        r@ == JsonView::Array(seq![item@]),
{
    let mut items: Vec<Json> = Vec::new();
    items.push(item);
    assert(json::contents(items@) =~= seq![item@]);
    Json::Array(items)
}

/// The name of a workspace folder.
pub fn workspace_folder_name(file_name: Option<&str>) -> (r: &str)
    ensures
        r@ == workspace_name(
            match file_name {
                Some(name) => Some(name@),
                None => None,
            },
        ),
{
    match file_name {
        Some(name) => if name.is_empty() {
            "workspace"
        } else {
            name
        },
        None => "workspace",
    }
}

/// The request that opens a session.
pub fn initialize_message(
    request_id: i64,
    process_id: u32,
    root_uri: &str,
    folder_name: &str,
) -> (r: Json)
    ensures
        r@ == initialize_request(request_id, process_id, root_uri@, folder_name@),
{
    let folder = Json::object().with("uri", Json::text(root_uri)).with(
        "name",
        Json::text(folder_name),
    );
    let params = Json::object().with("processId", Json::integer(process_id as i64)).with(
        "clientInfo",
        Json::object().with("name", Json::text("codex-lsp")),
    ).with("rootUri", Json::text(root_uri)).with("workspaceFolders", single(folder)).with(
        "capabilities",
        capabilities(),
    );
    Json::object().with("jsonrpc", Json::text("2.0")).with("id", Json::integer(request_id)).with(
        "method",
        Json::text("initialize"),
    ).with("params", params)
}

/// The request that closes a session.
pub fn shutdown_message(request_id: i64) -> (r: Json)
    ensures
        r@ == shutdown_request(request_id),
{
    Json::object().with("jsonrpc", Json::text("2.0")).with("id", Json::integer(request_id)).with(
        "method",
        Json::text("shutdown"),
    ).with("params", Json::Null)
}

/// The notification of a document's text.
pub fn document_message(language_id: &str, uri: &str, version: i32, file_content: &str) -> (r: Json)
    ensures
        r@ == document_notification(language_id@, uri@, version, file_content@),
{
    if version == 1 {
        let document = Json::object().with("uri", Json::text(uri)).with(
            "languageId",
            Json::text(language_id),
        ).with("version", Json::integer(version as i64)).with("text", Json::text(file_content));
        Json::object().with("jsonrpc", Json::text("2.0")).with(
            "method",
            Json::text("textDocument/didOpen"),
        ).with("params", Json::object().with("textDocument", document))
    } else {
        let document = Json::object().with("uri", Json::text(uri)).with(
            "version",
            Json::integer(version as i64),
        );
        let change = Json::object().with("text", Json::text(file_content));
        Json::object().with("jsonrpc", Json::text("2.0")).with(
            "method",
            Json::text("textDocument/didChange"),
        ).with(
            "params",
            Json::object().with("textDocument", document).with("contentChanges", single(change)),
        )
    }
}

/// A list of `count` nulls.
fn nulls(count: usize) -> (r: Json)
    ensures
        r@ == JsonView::Array(Seq::new(count as nat, |i: int| JsonView::Null)),
{
    let mut items: Vec<Json> = Vec::new();
    while items.len() < count
        invariant
            items@.len() <= count,
            forall|i: int| 0 <= i < items@.len() ==> (#[trigger] items@[i])@ == JsonView::Null,
        decreases count - items@.len(),
    {
        items.push(Json::Null);
    }
    assert(json::contents(items@) =~= Seq::new(count as nat, |i: int| JsonView::Null));
    Json::Array(items)
}

/// The answer to a request of the server.
pub fn server_request_response(method: &str, id: &Json, params: Option<&Json>) -> (r: Json)
    ensures
        r@ == request_response(method@, id@, json::seen(params)),
{
    let answer = Json::object().with("jsonrpc", Json::text("2.0")).with("id", id.clone());
    if same_text(method, "workspace/configuration") {
        let count: usize = match get_items(get_member(params, "items")) {
            Some(items) => items.len(),
            None => 0,
        };
        answer.with("result", nulls(count))
    } else if same_text(method, "client/registerCapability") || same_text(
        method,
        "client/unregisterCapability",
    ) || same_text(method, "window/workDoneProgress/create") {
        answer.with("result", Json::Null)
    } else {
        let mut text = "unsupported server request: ".to_owned();
        text.append(method);
        let error = Json::object().with("code", Json::integer(METHOD_NOT_FOUND)).with(
            "message",
            Json::String(text),
        );
        answer.with("error", error)
    }
}

/// Whether a message is the answer to a request of the client.
pub fn is_response_for(message: &Json, request_id: i64) -> (r: bool)
    ensures
        r == responds_to(message@, request_id),
{
    if message.get("method").is_some() {
        return false;
    }
    match get_signed(message.get("id")) {
        Some(id) => id == request_id && (message.get("result").is_some() || message.get(
            "error",
        ).is_some()),
        None => false,
    }
}

/// Checks that an answer reports no error.
pub fn assert_successful_response(exchange: Exchange, response: &Json) -> (r: Result<
    (),
    SessionError,
>)
    ensures
        match r {
            Ok(()) => json::field(response@, "error"@) is None,
            Err(failure) => json::field(response@, "error"@) matches Some(error) && failure@ == (
            SessionErrorView::Failed { exchange, error }),
        },
{
    match response.get("error") {
        Some(error) => Err(SessionError::Failed { exchange, error: error.clone() }),
        None => Ok(()),
    }
}

/// The answer that a message calls for, if it is a request of the server.
pub fn handle_auxiliary_message(message: &Json) -> (r: Option<Json>)
    ensures
        match r {
            Some(reply) => auxiliary_response(message@) == Some(reply@),
            None => auxiliary_response(message@) is None,
        },
{
    let method = match get_text(message.get("method")) {
        Some(method) => method,
        None => {
            return None;
        },
    };
    match message.get("id") {
        Some(id) => Some(server_request_response(method, id, message.get("params"))),
        None => None,
    }
}

/// What to do next in an exchange whose request has the given id.
pub fn wait_for_response(exchange: Exchange, request_id: i64, event: &Event) -> (r: ExchangeStep)
    ensures
        r@ == exchange_step(exchange, request_id, event@),
{
    match event {
        Event::Closed => ExchangeStep::Fail(SessionError::ClosedBeforeResponse),
        Event::TimedOut => ExchangeStep::Fail(SessionError::TimedOut(exchange)),
        Event::Message(message) => {
            if is_response_for(message, request_id) {
                match assert_successful_response(exchange, message) {
                    Ok(()) => ExchangeStep::Finish(exchange.closing_message()),
                    Err(error) => ExchangeStep::Fail(error),
                }
            } else {
                match handle_auxiliary_message(message) {
                    Some(reply) => ExchangeStep::Reply(reply),
                    None => ExchangeStep::Wait,
                }
            }
        },
    }
}

/// What to do next while the diagnostics of a version of a document are awaited.
pub fn wait_for_diagnostics(uri: &str, version: i32, event: &Event) -> (r: DiagnosticsStep)
    ensures
        r@ == diagnostics_step(uri@, version, event@),
        event@ matches EventView::Message(message) ==> (json::signed_of(
            json::member(json::field(message, "params"@), "version"@),
        ) matches Some(named) ==> named < version ==> r@ !is Published),
{
    match event {
        Event::Closed => DiagnosticsStep::Fail(SessionError::ClosedBeforeDiagnostics),
        Event::TimedOut => DiagnosticsStep::NotPublished,
        Event::Message(message) => {
            if is_publish_diagnostics_for(message, uri) && !is_stale_publication(message, version) {
                DiagnosticsStep::Published(parse_diagnostics(message))
            } else {
                match handle_auxiliary_message(message) {
                    Some(reply) => DiagnosticsStep::Reply(reply),
                    None => DiagnosticsStep::Wait,
                }
            }
        },
    }
}

/// A client's side of the conversation with one server.
pub struct LspSession<R, W> {
    reader: MessageReader<R>,
    writer: W,
    diagnostics_timeout: Duration,
    next_request_id: i64,
    open_documents: StringHashMap<i32>,
}

impl<R, W> LspSession<R, W> {
    /// What the session reads from.
    pub closed spec fn source(self) -> MessageReader<R> {
        self.reader
    }

    /// What the session writes to.
    pub closed spec fn sink(self) -> W {
        self.writer
    }

    /// How long the session waits for diagnostics.
    pub closed spec fn timeout(self) -> Duration {
        self.diagnostics_timeout
    }

    /// The id of the next request.
    pub closed spec fn next_request(self) -> i64 {
        self.next_request_id
    }

    /// The version of each open document.
    pub closed spec fn versions(self) -> Map<Seq<char>, i32> {
        self.open_documents@
    }

    /// Requests count from one, and so do the versions of a document.
    pub open spec fn well_formed(self) -> bool {
        &&& self.next_request() >= 1
        &&& forall|uri: Seq<char>| #[trigger]
            self.versions().contains_key(uri) ==> self.versions()[uri] >= 1
    }

    pub fn new(reader: R, writer: W, diagnostics_timeout: Duration) -> (r: Self)
        ensures
            r.well_formed(),
            r.source().source() == reader,
            r.source().buffered() == Seq::<u8>::empty(),
            r.sink() == writer,
            r.timeout() == diagnostics_timeout,
            r.next_request() == 1,
            r.versions() == Map::<Seq<char>, i32>::empty(),
    {
        LspSession {
            reader: MessageReader::new(reader),
            writer,
            diagnostics_timeout,
            next_request_id: 1,
            open_documents: StringHashMap::new(),
        }
    }

    /// What the session reads from.
    pub fn reader_mut(&mut self) -> (r: &mut MessageReader<R>)
        ensures
            *r == old(self).source(),
            final(self).source() == *final(r),
            final(self).sink() == old(self).sink(),
            final(self).timeout() == old(self).timeout(),
            final(self).next_request() == old(self).next_request(),
            final(self).versions() == old(self).versions(),
    {
        &mut self.reader
    }

    /// What the session writes to.
    pub fn writer_mut(&mut self) -> (r: &mut W)
        ensures
            *r == old(self).sink(),
            final(self).sink() == *final(r),
            final(self).source() == old(self).source(),
            final(self).timeout() == old(self).timeout(),
            final(self).next_request() == old(self).next_request(),
            final(self).versions() == old(self).versions(),
    {
        &mut self.writer
    }

    /// How long the session waits for diagnostics.
    pub fn diagnostics_timeout(&self) -> (r: Duration)
        ensures
            r == self.timeout(),
    {
        self.diagnostics_timeout
    }

    /// An id for a request: no two are equal.
    pub fn next_id(&mut self) -> (r: i64)
        requires
            old(self).well_formed(),
            old(self).next_request() < i64::MAX,
        ensures
            r == old(self).next_request(),
            final(self).well_formed(),
            final(self).next_request() == r + 1,
            final(self).source() == old(self).source(),
            final(self).sink() == old(self).sink(),
            final(self).timeout() == old(self).timeout(),
            final(self).versions() == old(self).versions(),
    {
        let id: i64 = self.next_request_id;
        self.next_request_id = id + 1;
        assert(self.versions() == old(self).versions());
        id
    }

    /// Begins to open the session: the id of the request, and the request.
    pub fn initialize(
        &mut self,
        process_id: u32,
        root_uri: &str,
        file_name: Option<&str>,
    ) -> (r: (i64, Json))
        requires
            old(self).well_formed(),
            old(self).next_request() < i64::MAX,
        ensures
            r.0 == old(self).next_request(),
            r.1@ == initialize_request(
                r.0,
                process_id,
                root_uri@,
                workspace_name(
                    match file_name {
                        Some(name) => Some(name@),
                        None => None,
                    },
                ),
            ),
            json::field(r.1@, "id"@) == Some(JsonView::Integer(r.0 as int)),
            json::member(json::field(r.1@, "params"@), "rootUri"@) == Some(
                JsonView::String(root_uri@),
            ),
            json::member(json::field(r.1@, "params"@), "processId"@) == Some(
                JsonView::Integer(process_id as int),
            ),
            final(self).well_formed(),
            final(self).next_request() == r.0 + 1,
            final(self).source() == old(self).source(),
            final(self).sink() == old(self).sink(),
            final(self).timeout() == old(self).timeout(),
            final(self).versions() == old(self).versions(),
    {
        let id: i64 = self.next_id();
        let name = workspace_folder_name(file_name);
        proof {
            laws::client::law_initialize_request(id, process_id, root_uri@, name@);
        }
        (id, initialize_message(id, process_id, root_uri, name))
    }

    /// Begins to close the session: the id of the request, and the request.
    pub fn shutdown(&mut self) -> (r: (i64, Json))
        requires
            old(self).well_formed(),
            old(self).next_request() < i64::MAX,
        ensures
            r.0 == old(self).next_request(),
            r.1@ == shutdown_request(r.0),
            final(self).well_formed(),
            final(self).next_request() == r.0 + 1,
            final(self).source() == old(self).source(),
            final(self).sink() == old(self).sink(),
            final(self).timeout() == old(self).timeout(),
            final(self).versions() == old(self).versions(),
    {
        let id: i64 = self.next_id();
        (id, shutdown_message(id))
    }

    /// Whether an id is left for a request.
    pub fn can_request(&self) -> (r: bool)
        ensures
            r == (self.next_request() < i64::MAX),
    {
        self.next_request_id < i64::MAX
    }

    /// Whether a document can still be updated: its version has room to grow.
    pub fn can_update(&self, uri: &str) -> (r: bool)
        ensures
            r == (next_version(self.versions(), uri@) <= i32::MAX),
    {
        match self.open_documents.get(uri) {
            Some(version) => *version < i32::MAX,
            None => true,
        }
    }

    /// Begins to update a document: its next version, and the notification of its text.
    pub fn diagnostics_for_uri(&self, language_id: &str, uri: &str, file_content: &str) -> (r: (
        i32,
        Json,
    ))
        requires
            self.well_formed(),
            next_version(self.versions(), uri@) <= i32::MAX,
        ensures
            r.0 == next_version(self.versions(), uri@),
            r.0 == 1 <==> !self.versions().contains_key(uri@),
            r.1@ == document_notification(language_id@, uri@, r.0, file_content@),
            json::member(
                json::member(json::field(r.1@, "params"@), "textDocument"@),
                "uri"@,
            ) == Some(JsonView::String(uri@)),
            json::member(
                json::member(json::field(r.1@, "params"@), "textDocument"@),
                "version"@,
            ) == Some(JsonView::Integer(r.0 as int)),
            r.0 == 1 ==> json::member(
                json::member(json::field(r.1@, "params"@), "textDocument"@),
                "text"@,
            ) == Some(JsonView::String(file_content@)),
    {
        let version: i32 = match self.open_documents.get(uri) {
            Some(version) => *version + 1,
            None => 1,
        };
        proof {
            laws::client::law_document_notification(language_id@, uri@, version, file_content@);
        }
        (version, document_message(language_id, uri, version, file_content))
    }

    /// Notes that a version of a document was sent.
    pub fn record_version(&mut self, uri: &str, version: i32)
        requires
            old(self).well_formed(),
            version >= 1,
        ensures
            final(self).well_formed(),
            final(self).versions() == old(self).versions().insert(uri@, version),
            final(self).next_request() == old(self).next_request(),
            final(self).source() == old(self).source(),
            final(self).sink() == old(self).sink(),
            final(self).timeout() == old(self).timeout(),
    {
        self.open_documents.insert(uri.to_owned(), version);
        assert(self.versions() == old(self).versions().insert(uri@, version));
    }
}

/// A request of the server is answered: the answer bears the request's id, and holds either a
/// result or an error, an error exactly where the client does not support the method. What is
/// no request of the server gets no answer.
pub proof fn law_server_requests_are_answered(message: JsonView)
    ensures
        match (json::text_of(json::field(message, "method"@)), json::field(message, "id"@)) {
            (Some(method), Some(id)) => {
                let supported = supported_result(method, json::field(message, "params"@));
                &&& auxiliary_response(message) matches Some(reply)
                &&& json::field(reply, "jsonrpc"@) == Some(JsonView::String("2.0"@))
                &&& json::field(reply, "id"@) == Some(id)
                &&& json::field(reply, "result"@) == supported
                &&& json::field(reply, "method"@) is None
                &&& json::field(reply, "error"@) is Some <==> supported is None
                &&& supported is None ==> json::member(json::field(reply, "error"@), "code"@)
                    == Some(JsonView::Integer(-32601))
            },
            _ => auxiliary_response(message) is None,
        },
{
    reveal_strlit("jsonrpc");
    reveal_strlit("id");
    reveal_strlit("result");
    reveal_strlit("error");
    reveal_strlit("method");
    reveal_strlit("code");
    reveal_strlit("message");
    assert("jsonrpc"@.len() == 7 && "id"@.len() == 2 && "code"@.len() == 4 && "error"@.len() == 5);
    assert("result"@.len() == 6 && "method"@.len() == 6 && "message"@.len() == 7);
    assert("result"@[0] != "method"@[0]);
}

/// The answer to a request of the client answers no other of its requests, and calls for no
/// answer itself.
pub proof fn law_a_response_is_for_one_request(message: JsonView, request_id: i64, other_id: i64)
    requires
        responds_to(message, request_id),
    ensures
        responds_to(message, other_id) ==> other_id == request_id,
        auxiliary_response(message) is None,
{
}

/// What comes of waiting in an exchange for events, one after the other: the answers that are
/// sent, and how the wait ends, if it does.
pub open spec fn exchange_run(
    exchange: Exchange,
    request_id: i64,
    events: Seq<EventView>,
) -> (Seq<JsonView>, Option<ExchangeStepView>)
    decreases events.len(),
{
    if events.len() == 0 {
        (Seq::empty(), None)
    } else {
        let rest = exchange_run(exchange, request_id, events.skip(1));
        match exchange_step(exchange, request_id, events[0]) {
            ExchangeStepView::Reply(reply) => (seq![reply] + rest.0, rest.1),
            ExchangeStepView::Wait => rest,
            end => (Seq::empty(), Some(end)),
        }
    }
}

/// What comes of waiting for diagnostics, in the same way.
pub open spec fn diagnostics_run(
    uri: Seq<char>,
    version: i32,
    events: Seq<EventView>,
) -> (Seq<JsonView>, Option<DiagnosticsStepView>)
    decreases events.len(),
{
    if events.len() == 0 {
        (Seq::empty(), None)
    } else {
        let rest = diagnostics_run(uri, version, events.skip(1));
        match diagnostics_step(uri, version, events[0]) {
            DiagnosticsStepView::Reply(reply) => (seq![reply] + rest.0, rest.1),
            DiagnosticsStepView::Wait => rest,
            end => (Seq::empty(), Some(end)),
        }
    }
}

/// The answers that messages call for, in order.
pub open spec fn answers(messages: Seq<JsonView>) -> Seq<JsonView>
    decreases messages.len(),
{
    if messages.len() == 0 {
        Seq::empty()
    } else {
        match auxiliary_response(messages[0]) {
            Some(reply) => seq![reply] + answers(messages.skip(1)),
            None => answers(messages.skip(1)),
        }
    }
}

/// The events that messages are, one after the other.
pub open spec fn arrivals(messages: Seq<JsonView>) -> Seq<EventView> {
    Seq::new(messages.len(), |i: int| EventView::Message(messages[i]))
}

/// Whether a message publishes the diagnostics of a version of a document, or of a later one.
pub open spec fn is_current(message: JsonView, uri: Seq<char>, version: i32) -> bool {
    publication::publishes_for(message, uri) && !publication::is_stale(message, version)
}

/// Whatever else comes before, stale publications, notifications and requests of the server
/// among it, a wait for diagnostics goes on until the first current publication, the end of
/// the input or the end of the time. Every request of the server on the way is answered, in
/// order.
pub proof fn law_diagnostics_wait(
    uri: Seq<char>,
    version: i32,
    before: Seq<JsonView>,
    last: EventView,
    later: Seq<EventView>,
)
    requires
        forall|i: int| 0 <= i < before.len() ==> !is_current(#[trigger] before[i], uri, version),
    ensures
        diagnostics_run(uri, version, arrivals(before)) == (
            answers(before),
            None::<DiagnosticsStepView>,
        ),
        match last {
            EventView::Message(message) => is_current(message, uri, version) ==> diagnostics_run(
                uri,
                version,
                arrivals(before) + seq![last] + later,
            ) == (
                answers(before),
                Some(DiagnosticsStepView::Published(publication::published(message))),
            ),
            EventView::TimedOut => diagnostics_run(
                uri,
                version,
                arrivals(before) + seq![last] + later,
            ) == (answers(before), Some(DiagnosticsStepView::NotPublished)),
            EventView::Closed => diagnostics_run(
                uri,
                version,
                arrivals(before) + seq![last] + later,
            ) == (
                answers(before),
                Some(DiagnosticsStepView::Fail(SessionErrorView::ClosedBeforeDiagnostics)),
            ),
        },
    decreases before.len(),
{
    let all = arrivals(before) + seq![last] + later;
    if before.len() > 0 {
        let rest = before.skip(1);
        assert(all.skip(1) =~= arrivals(rest) + seq![last] + later);
        assert(arrivals(before).skip(1) =~= arrivals(rest));
        assert forall|i: int| 0 <= i < rest.len() implies !is_current(
            #[trigger] rest[i],
            uri,
            version,
        ) by {
            assert(rest[i] == before[i + 1]);
        }
        law_diagnostics_wait(uri, version, rest, last, later);
        assert(!is_current(before[0], uri, version));
        assert(all[0] == EventView::Message(before[0]));
    } else {
        assert(all[0] == last);
        assert(arrivals(before) =~= Seq::empty());
    }
}

/// Whatever else comes before, an exchange goes on until the answer to its request, the end of
/// the input or the end of the time. It succeeds exactly where the answer reports no error.
/// Every request of the server on the way is answered, in order.
pub proof fn law_exchange_wait(
    exchange: Exchange,
    request_id: i64,
    before: Seq<JsonView>,
    last: EventView,
    later: Seq<EventView>,
)
    requires
        forall|i: int| 0 <= i < before.len() ==> !responds_to(#[trigger] before[i], request_id),
    ensures
        exchange_run(exchange, request_id, arrivals(before)) == (
            answers(before),
            None::<ExchangeStepView>,
        ),
        match last {
            EventView::Message(message) => responds_to(message, request_id) ==> exchange_run(
                exchange,
                request_id,
                arrivals(before) + seq![last] + later,
            ) == (
                answers(before),
                match json::field(message, "error"@) {
                    None => Some(ExchangeStepView::Finish(closing_notification(exchange))),
                    Some(error) => Some(
                        ExchangeStepView::Fail(SessionErrorView::Failed { exchange, error }),
                    ),
                },
            ),
            EventView::TimedOut => exchange_run(
                exchange,
                request_id,
                arrivals(before) + seq![last] + later,
            ) == (
                answers(before),
                Some(ExchangeStepView::Fail(SessionErrorView::TimedOut(exchange))),
            ),
            EventView::Closed => exchange_run(
                exchange,
                request_id,
                arrivals(before) + seq![last] + later,
            ) == (
                answers(before),
                Some(ExchangeStepView::Fail(SessionErrorView::ClosedBeforeResponse)),
            ),
        },
    decreases before.len(),
{
    let all = arrivals(before) + seq![last] + later;
    if before.len() > 0 {
        let rest = before.skip(1);
        assert(all.skip(1) =~= arrivals(rest) + seq![last] + later);
        assert(arrivals(before).skip(1) =~= arrivals(rest));
        assert forall|i: int| 0 <= i < rest.len() implies !responds_to(
            #[trigger] rest[i],
            request_id,
        ) by {
            assert(rest[i] == before[i + 1]);
        }
        law_exchange_wait(exchange, request_id, rest, last, later);
        assert(!responds_to(before[0], request_id));
        assert(all[0] == EventView::Message(before[0]));
    } else {
        assert(all[0] == last);
        assert(arrivals(before) =~= Seq::empty());
    }
}

/// The versions of the open documents once the given documents were sent, one after the other.
pub open spec fn versions_after(uris: Seq<Seq<char>>) -> Map<Seq<char>, i32>
    decreases uris.len(),
{
    if uris.len() == 0 {
        Map::empty()
    } else {
        let before = versions_after(uris.drop_last());
        before.insert(uris.last(), next_version(before, uris.last()) as i32)
    }
}

/// How many of the given documents are the one with the given URI.
pub open spec fn times_sent(uris: Seq<Seq<char>>, uri: Seq<char>) -> nat
    decreases uris.len(),
{
    if uris.len() == 0 {
        0
    } else {
        times_sent(uris.drop_last(), uri) + if uris.last() == uri {
            1nat
        } else {
            0nat
        }
    }
}

/// The version of a document is the number of times that it was sent, whatever other documents
/// were sent in between: it is opened once, by the first notification, and changed by each
/// later one.
pub proof fn law_documents_are_opened_once(
    uris: Seq<Seq<char>>,
    uri: Seq<char>,
    language_id: Seq<char>,
    text: Seq<char>,
)
    requires
        times_sent(uris, uri) < i32::MAX,
    ensures
        next_version(versions_after(uris), uri) == times_sent(uris, uri) + 1,
        json::field(
            document_notification(
                language_id,
                uri,
                next_version(versions_after(uris), uri) as i32,
                text,
            ),
            "method"@,
        ) == Some(
            JsonView::String(
                if times_sent(uris, uri) == 0 {
                    "textDocument/didOpen"@
                } else {
                    "textDocument/didChange"@
                },
            ),
        ),
{
    lemma_version_counts(uris, uri);
    reveal_strlit("jsonrpc");
    reveal_strlit("method");
    reveal_strlit("params");
    assert("params"@[0] != "method"@[0]);
}

proof fn lemma_version_counts(uris: Seq<Seq<char>>, uri: Seq<char>)
    requires
        times_sent(uris, uri) < i32::MAX,
    ensures
        next_version(versions_after(uris), uri) == times_sent(uris, uri) + 1,
    decreases uris.len(),
{
    if uris.len() > 0 {
        lemma_version_counts(uris.drop_last(), uri);
    }
}

/// Everything that the client says of its own accord is read back as it was written.
pub proof fn law_client_messages_read_back(
    exchange: Exchange,
    request_id: i64,
    process_id: u32,
    root_uri: Seq<char>,
    folder_name: Seq<char>,
    language_id: Seq<char>,
    uri: Seq<char>,
    version: i32,
    text: Seq<char>,
)
    ensures
        codec::reads_back(
            initialize_request(request_id, process_id, root_uri, folder_name),
            codec::MAX_DEPTH as nat,
        ),
        codec::reads_back(shutdown_request(request_id), codec::MAX_DEPTH as nat),
        codec::reads_back(closing_notification(exchange), codec::MAX_DEPTH as nat),
        codec::reads_back(
            document_notification(language_id, uri, version, text),
            codec::MAX_DEPTH as nat,
        ),
{
    reveal_with_fuel(codec::reads_back, 7);
}

/// An answer to a request of the server is read back as it was written, where the request's id
/// is one that is.
pub proof fn law_answers_read_back(method: Seq<char>, id: JsonView, params: Option<JsonView>)
    requires
        codec::reads_back(id, (codec::MAX_DEPTH - 1) as nat),
    ensures
        codec::reads_back(request_response(method, id, params), codec::MAX_DEPTH as nat),
{
    reveal_with_fuel(codec::reads_back, 4);
}

} // verus!
