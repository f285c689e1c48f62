//! What comes of calls that are made one after the other.

use std::time::Duration;

use vstd::prelude::*;
use vstd::slice::slice_subrange;

use crate::client;
use crate::client::{
    wait_for_diagnostics, wait_for_response, DiagnosticsStep, Event, EventView, Exchange,
    ExchangeStep, LspSession,
};
use crate::codec;
use crate::config;
use crate::config::{LspConfig, LspServerConfig};
use crate::json;
use crate::json::{Json, JsonView};
use crate::laws;
use crate::option_duration_ms::{deserialize, serialize};
use crate::protocol;
use crate::protocol::{encode_message, MessageReader, ReadStep};

verus! {

/// What is written is read by a reader that waits for it, and nothing is left.
pub fn write_then_read<R>(reader: &mut MessageReader<R>, value: &Json) -> (r: Option<Json>)
    requires
        old(reader).buffered().len() == 0,
    ensures
        codec::reads_back(value@, 127) && codec::json_bytes(value@).len() <= 16777216 ==> {
            &&& r matches Some(read) && read@ == value@
            &&& final(reader).buffered().len() == 0
        },
        codec::json_bytes(value@).len() > 16777216 ==> r is None,
{
    match encode_message(value) {
        Ok(bytes) => {
            proof {
                protocol::law_frame_reads_back(codec::json_bytes(value@), Seq::empty());
                assert(old(reader).buffered() + bytes@ =~= bytes@ + Seq::<u8>::empty());
            }
            match reader.receive(bytes.as_slice()) {
                Ok(ReadStep::Message(message)) => Some(message),
                _ => None,
            }
        },
        Err(_) => None,
    }
}

/// What is written is read too where it comes in two pieces, wherever it is cut.
pub fn write_then_read_in_two<R>(reader: &mut MessageReader<R>, value: &Json, cut: usize) -> (r:
    Option<Json>)
    requires
        old(reader).buffered().len() == 0,
        0 < cut < protocol::frame(codec::json_bytes(value@)).len(),
    ensures
        codec::reads_back(value@, 127) && codec::json_bytes(value@).len() <= 16777216 ==> {
            &&& r matches Some(read) && read@ == value@
            &&& final(reader).buffered().len() == 0
        },
{
    match encode_message(value) {
        Ok(bytes) => {
            let first = slice_subrange(bytes.as_slice(), 0, cut);
            let second = slice_subrange(bytes.as_slice(), cut, bytes.len());
            proof {
                assert(old(reader).buffered() + first@ =~= first@);
                assert(first@ + second@ =~= bytes@ + Seq::<u8>::empty());
                if codec::reads_back(value@, 127) {
                    protocol::law_reads_may_be_given_up(first@, second@);
                }
            }
            match reader.receive(first) {
                Ok(ReadStep::Read) => match reader.receive(second) {
                    Ok(ReadStep::Message(message)) => Some(message),
                    _ => None,
                },
                _ => None,
            }
        },
        Err(_) => None,
    }
}

/// Input that ends is clean if and only if it ends between two messages.
pub fn ends_clean<R>(reader: &mut MessageReader<R>) -> (r: bool)
    ensures
        r == (old(reader).buffered().len() == 0),
        final(reader).buffered() == old(reader).buffered(),
{
    let nothing: Vec<u8> = Vec::new();
    match reader.receive(nothing.as_slice()) {
        Ok(ReadStep::Closed) => true,
        _ => false,
    }
}

/// A session that is opened and closed asks with the ids 1 and 2, for the root and the folder
/// that were given.
pub fn open_then_close<R, W>(
    reader: R,
    writer: W,
    timeout: Duration,
    process_id: u32,
    root_uri: &str,
    directory: &str,
) -> (r: (Json, Json))
    requires
        directory@.len() > 0,
    ensures
        json::field(r.0@, "method"@) == Some(JsonView::String("initialize"@)),
        json::field(r.0@, "id"@) == Some(JsonView::Integer(1)),
        json::member(json::field(r.0@, "params"@), "processId"@) == Some(
            JsonView::Integer(process_id as int),
        ),
        json::member(json::field(r.0@, "params"@), "rootUri"@) == Some(JsonView::String(root_uri@)),
        json::member(json::field(r.0@, "params"@), "workspaceFolders"@) matches Some(
            JsonView::Array(folders),
        ) && folders.len() == 1 && json::field(folders[0], "uri"@) == Some(
            JsonView::String(root_uri@),
        ) && json::field(folders[0], "name"@) == Some(JsonView::String(directory@)),
        json::field(r.1@, "method"@) == Some(JsonView::String("shutdown"@)),
        json::field(r.1@, "id"@) == Some(JsonView::Integer(2)),
{
    let mut session = LspSession::new(reader, writer, timeout);
    let (_first, opening) = session.initialize(process_id, root_uri, Some(directory));
    let (_second, closing) = session.shutdown();
    proof {
        laws::client::law_initialize_request(1, process_id, root_uri@, directory@);
        laws::client::law_workspace_name(directory@);
        laws::client::law_closing_messages(2);
    }
    (opening, closing)
}

/// A new document that is sent twice is opened with all of its first text, and then changed to
/// all of its second.
pub fn send_twice<R, W>(
    session: &mut LspSession<R, W>,
    language_id: &str,
    uri: &str,
    first: &str,
    second: &str,
) -> (r: (Json, Json))
    requires
        old(session).well_formed(),
        !old(session).versions().contains_key(uri@),
    ensures
        final(session).well_formed(),
        final(session).versions() == old(session).versions().insert(uri@, 2),
        json::field(r.0@, "method"@) == Some(JsonView::String("textDocument/didOpen"@)),
        ({
            let opened = json::member(json::field(r.0@, "params"@), "textDocument"@);
            &&& json::member(opened, "uri"@) == Some(JsonView::String(uri@))
            &&& json::member(opened, "languageId"@) == Some(JsonView::String(language_id@))
            &&& json::member(opened, "version"@) == Some(JsonView::Integer(1))
            &&& json::member(opened, "text"@) == Some(JsonView::String(first@))
        }),
        json::field(r.1@, "method"@) == Some(JsonView::String("textDocument/didChange"@)),
        ({
            let changed = json::member(json::field(r.1@, "params"@), "textDocument"@);
            &&& json::member(changed, "uri"@) == Some(JsonView::String(uri@))
            &&& json::member(changed, "version"@) == Some(JsonView::Integer(2))
        }),
        json::member(json::field(r.1@, "params"@), "contentChanges"@) matches Some(
            JsonView::Array(changes),
        ) && changes.len() == 1 && json::field(changes[0], "text"@) == Some(
            JsonView::String(second@),
        ),
{
    let (version, opened) = session.diagnostics_for_uri(language_id, uri, first);
    session.record_version(uri, version);
    let (next, changed) = session.diagnostics_for_uri(language_id, uri, second);
    session.record_version(uri, next);
    proof {
        laws::client::law_document_notification(language_id@, uri@, 1, first@);
        laws::client::law_document_notification(language_id@, uri@, 2, second@);
        assert(session.versions() =~= old(session).versions().insert(uri@, 2));
    }
    (opened, changed)
}

/// The events of a sequence, as they are seen.
pub open spec fn seen_events(events: Seq<Event>) -> Seq<EventView> {
    Seq::new(events.len(), |i: int| events[i]@)
}

/// The documents of a sequence, as they are seen.
pub open spec fn seen_documents(documents: Seq<Json>) -> Seq<JsonView> {
    Seq::new(documents.len(), |i: int| documents[i]@)
}

/// Waits for diagnostics over events that are all there: the answers to send, and how the wait
/// ends.
pub fn diagnostics_over(uri: &str, version: i32, events: &Vec<Event>) -> (r: (
    Vec<Json>,
    Option<DiagnosticsStep>,
))
    ensures
        seen_documents(r.0@) == client::diagnostics_run(uri@, version, seen_events(events@)).0,
        match r.1 {
            Some(end) => client::diagnostics_run(uri@, version, seen_events(events@)).1 == Some(
                end@,
            ),
            None => client::diagnostics_run(uri@, version, seen_events(events@)).1 is None,
        },
{
    let ghost all = client::diagnostics_run(uri@, version, seen_events(events@));
    let mut replies: Vec<Json> = Vec::new();
    let mut n: usize = 0;
    assert(seen_events(events@).skip(0) =~= seen_events(events@));
    assert(seen_documents(replies@) + all.0 =~= all.0);
    while n < events.len()
        invariant
            n <= events@.len(),
            all == client::diagnostics_run(uri@, version, seen_events(events@)),
            seen_documents(replies@) + client::diagnostics_run(
                uri@,
                version,
                seen_events(events@).skip(n as int),
            ).0 == all.0,
            client::diagnostics_run(uri@, version, seen_events(events@).skip(n as int)).1 == all.1,
        decreases events@.len() - n,
    {
        let ghost rest = seen_events(events@).skip(n as int);
        let ghost before = replies@;
        assert(rest[0] == events@[n as int]@);
        assert(rest.skip(1) =~= seen_events(events@).skip(n + 1));
        match wait_for_diagnostics(uri, version, &events[n]) {
            DiagnosticsStep::Reply(reply) => {
                replies.push(reply);
                assert(seen_documents(replies@) =~= seen_documents(before) + seq![reply@]);
                assert(seen_documents(replies@) + client::diagnostics_run(
                    uri@,
                    version,
                    rest.skip(1),
                ).0 =~= seen_documents(before) + client::diagnostics_run(uri@, version, rest).0);
            },
            DiagnosticsStep::Wait => {},
            end => {
                assert(seen_documents(replies@) + Seq::<JsonView>::empty() =~= seen_documents(
                    replies@,
                ));
                return (replies, Some(end));
            },
        }
        n = n + 1;
    }
    assert(seen_events(events@).skip(n as int) =~= Seq::empty());
    assert(seen_documents(replies@) + Seq::<JsonView>::empty() =~= seen_documents(replies@));
    (replies, None)
}

/// Waits in an exchange over events that are all there: the answers to send, and how the wait
/// ends.
pub fn exchange_over(exchange: Exchange, request_id: i64, events: &Vec<Event>) -> (r: (
    Vec<Json>,
    Option<ExchangeStep>,
))
    ensures
        seen_documents(r.0@) == client::exchange_run(exchange, request_id, seen_events(events@)).0,
        match r.1 {
            Some(end) => client::exchange_run(exchange, request_id, seen_events(events@)).1 == Some(
                end@,
            ),
            None => client::exchange_run(exchange, request_id, seen_events(events@)).1 is None,
        },
{
    let ghost all = client::exchange_run(exchange, request_id, seen_events(events@));
    let mut replies: Vec<Json> = Vec::new();
    let mut n: usize = 0;
    assert(seen_events(events@).skip(0) =~= seen_events(events@));
    assert(seen_documents(replies@) + all.0 =~= all.0);
    while n < events.len()
        invariant
            n <= events@.len(),
            all == client::exchange_run(exchange, request_id, seen_events(events@)),
            seen_documents(replies@) + client::exchange_run(
                exchange,
                request_id,
                seen_events(events@).skip(n as int),
            ).0 == all.0,
            client::exchange_run(exchange, request_id, seen_events(events@).skip(n as int)).1
                == all.1,
        decreases events@.len() - n,
    {
        let ghost rest = seen_events(events@).skip(n as int);
        let ghost before = replies@;
        assert(rest[0] == events@[n as int]@);
        assert(rest.skip(1) =~= seen_events(events@).skip(n + 1));
        match wait_for_response(exchange, request_id, &events[n]) {
            ExchangeStep::Reply(reply) => {
                replies.push(reply);
                assert(seen_documents(replies@) =~= seen_documents(before) + seq![reply@]);
                assert(seen_documents(replies@) + client::exchange_run(
                    exchange,
                    request_id,
                    rest.skip(1),
                ).0 =~= seen_documents(before) + client::exchange_run(
                    exchange,
                    request_id,
                    rest,
                ).0);
            },
            ExchangeStep::Wait => {},
            end => {
                assert(seen_documents(replies@) + Seq::<JsonView>::empty() =~= seen_documents(
                    replies@,
                ));
                return (replies, Some(end));
            },
        }
        n = n + 1;
    }
    assert(seen_events(events@).skip(n as int) =~= Seq::empty());
    assert(seen_documents(replies@) + Seq::<JsonView>::empty() =~= seen_documents(replies@));
    (replies, None)
}

/// There is a server for a language if and only if some server lists it, whether the
/// configuration is switched on or not.
pub fn has_server_for(configuration: &LspConfig, language_id: &str) -> (r: bool)
    ensures
        r <==> exists|label: Seq<char>, i: int|
            #![trigger configuration.servers@[label].languages@[i]]
            configuration.servers@.contains_key(label) && 0 <= i
                < configuration.servers@[label].languages@.len()
                && configuration.servers@[label].languages@[i]@ == language_id@,
{
    let found = configuration.servers_for_language(language_id);
    proof {
        let servers = configuration.servers@;
        if found@.len() > 0 {
            laws::config::law_servers_for_language(
                found@,
                servers,
                language_id@,
                found@[0].0@,
                0,
            );
            let i = choose|i: int|
                0 <= i < found@[0].1.languages@.len() && (#[trigger] found@[0].1.languages@[i])@
                    == language_id@;
            assert(servers[found@[0].0@].languages@[i]@ == language_id@);
        } else {
            assert forall|label: Seq<char>, i: int|
                #![trigger servers[label].languages@[i]]
                servers.contains_key(label) && 0 <= i < servers[label].languages@.len() implies
                servers[label].languages@[i]@ != language_id@ by {
                if servers[label].languages@[i]@ == language_id@ {
                    laws::config::law_servers_for_language(
                        found@,
                        servers,
                        language_id@,
                        label,
                        i,
                    );
                }
            }
        }
    }
    found.len() > 0
}

/// A server that is made for a language handles it and no other.
pub fn server_for(command: &str, language_id: &str, other: &str) -> (r: (LspServerConfig, bool))
    ensures
        r.0.command@ == command@,
        r.0.args@.len() == 0,
        r.0.startup_timeout_ms is None,
        config::handles(r.0, language_id@),
        r.1 <==> other@ == language_id@,
{
    let server = LspServerConfig::new(command).with_language(language_id);
    assert(server.languages@[0]@ == language_id@);
    let handled = server.handles_language(other);
    (server, handled)
}

/// A number of milliseconds that is read as a timeout is written as the same number.
pub fn read_then_write(millis: Option<u64>) -> (r: Option<u64>)
    ensures
        r == millis,
{
    serialize(&deserialize(millis))
}

} // verus!
