//! Publications of diagnostics: which document and version they are for, and what they say.

use vstd::prelude::*;

use crate::codec;
use crate::codec::json_to_string;
use crate::diagnostic;
use crate::diagnostic::{Diagnostic, DiagnosticSeverity, DiagnosticView};
use crate::json;
use crate::json::{
    get_items, get_member, get_number, get_signed, get_text, get_unsigned, is_text, Json,
    JsonNumber, JsonView,
};

verus! {

/// The most diagnostics that are taken from one publication.
pub const MAX_DIAGNOSTICS_PER_FILE: usize = 50;

/// What a publication says of one diagnostic, if it says where it stands and what it is.
pub open spec fn diagnostic_of(uri: Seq<char>, value: JsonView) -> Option<DiagnosticView> {
    let start = json::member(json::field(value, "range"@), "start"@);
    match (
        json::unsigned_of(json::member(start, "line"@)),
        json::unsigned_of(json::member(start, "character"@)),
        json::text_of(json::field(value, "message"@)),
    ) {
        (Some(line), Some(character), Some(message)) => if line <= u32::MAX && character
            <= u32::MAX {
            Some(
                DiagnosticView {
                    uri,
                    line: line as u32,
                    character: character as u32,
                    severity: severity_in(value),
                    message,
                    code: code_in(value),
                    source: json::text_of(json::field(value, "source"@)),
                },
            )
        } else {
            None
        },
        _ => None,
    }
}

/// The severity that a diagnostic gives: an error where it gives none.
pub open spec fn severity_in(value: JsonView) -> DiagnosticSeverity {
    match json::unsigned_of(json::field(value, "severity"@)) {
        Some(severity) => if severity <= u32::MAX {
            diagnostic::severity_of(severity as u32)
        } else {
            DiagnosticSeverity::Error
        },
        None => DiagnosticSeverity::Error,
    }
}

/// The code that a diagnostic gives, as text.
pub open spec fn code_in(value: JsonView) -> Option<Seq<char>> {
    match json::field(value, "code"@) {
        Some(JsonView::String(code)) => Some(code),
        Some(JsonView::Integer(code)) => Some(crate::text::decimal_integer(code)),
        Some(JsonView::Float(bits)) => Some(codec::json_display(JsonView::Float(bits))),
        _ => None,
    }
}

/// The diagnostics among the items of a publication, in order.
pub open spec fn diagnostics_of(uri: Seq<char>, items: Seq<JsonView>) -> Seq<DiagnosticView>
    decreases items.len(),
{
    if items.len() == 0 {
        Seq::empty()
    } else {
        let front = diagnostics_of(uri, items.drop_last());
        match diagnostic_of(uri, items.last()) {
            Some(found) => front.push(found),
            None => front,
        }
    }
}

/// At most the first `max` of a sequence.
pub open spec fn at_most<T>(all: Seq<T>, max: nat) -> Seq<T> {
    if all.len() <= max {
        all
    } else {
        all.take(max as int)
    }
}

/// The diagnostics that a publication publishes.
pub open spec fn published(message: JsonView) -> Seq<DiagnosticView> {
    let params = json::field(message, "params"@);
    let uri = match json::text_of(json::member(params, "uri"@)) {
        Some(uri) => uri,
        None => Seq::empty(),
    };
    let items = match json::items_of(json::member(params, "diagnostics"@)) {
        Some(items) => items,
        None => Seq::empty(),
    };
    at_most(diagnostics_of(uri, items), MAX_DIAGNOSTICS_PER_FILE as nat)
}

/// Whether a message publishes the diagnostics of a document.
pub open spec fn publishes_for(message: JsonView, uri: Seq<char>) -> bool {
    &&& json::text_of(json::field(message, "method"@)) == Some(
        "textDocument/publishDiagnostics"@,
    )
    &&& json::text_of(json::member(json::field(message, "params"@), "uri"@)) == Some(uri)
}

/// Whether a publication is for an older version of a document than the given one. One that
/// names no version is not.
pub open spec fn is_stale(message: JsonView, document_version: i32) -> bool {
    match json::signed_of(json::member(json::field(message, "params"@), "version"@)) {
        Some(version) => version < document_version,
        None => false,
    }
}

/// What diagnostics say.
pub open spec fn views(diagnostics: Seq<Diagnostic>) -> Seq<DiagnosticView> {
    Seq::new(diagnostics.len(), |i: int| diagnostics[i]@)
}

/// Whether a message publishes the diagnostics of a document.
pub fn is_publish_diagnostics_for(message: &Json, uri: &str) -> (r: bool)
    ensures
        r == publishes_for(message@, uri@),
{
    is_text(message.get("method"), "textDocument/publishDiagnostics") && is_text(
        get_member(message.get("params"), "uri"),
        uri,
    )
}

/// Whether a publication is for an older version of a document than the given one.
pub fn is_stale_publication(message: &Json, document_version: i32) -> (r: bool)
    ensures
        r == is_stale(message@, document_version),
{
    match get_signed(get_member(message.get("params"), "version")) {
        Some(version) => version < document_version as i64,
        None => false,
    }
}

/// Reads one diagnostic.
pub fn parse_one(uri: &str, value: &Json) -> (r: Option<Diagnostic>)
    ensures
        match r {
            Some(found) => diagnostic_of(uri@, value@) == Some(found@),
            None => diagnostic_of(uri@, value@) is None,
        },
{
    let start = get_member(value.get("range"), "start");
    let line: u64 = match get_unsigned(get_member(start, "line")) {
        Some(line) => line,
        None => {
            return None;
        },
    };
    let character: u64 = match get_unsigned(get_member(start, "character")) {
        Some(character) => character,
        None => {
            return None;
        },
    };
    let message = match get_text(value.get("message")) {
        Some(message) => message,
        None => {
            return None;
        },
    };
    if line > u32::MAX as u64 || character > u32::MAX as u64 {
        return None;
    }
    let severity = match get_unsigned(value.get("severity")) {
        Some(severity) => if severity <= u32::MAX as u64 {
            DiagnosticSeverity::from_lsp(severity as u32)
        } else {
            DiagnosticSeverity::Error
        },
        None => DiagnosticSeverity::Error,
    };
    let given = value.get("code");
    let code = match (get_text(given), get_number(given)) {
        (Some(code), _) => Some(code.to_owned()),
        (None, Some(number)) => Some(number_text(number)),
        (None, None) => None,
    };
    let source = match get_text(value.get("source")) {
        Some(source) => Some(source.to_owned()),
        None => None,
    };
    Some(
        Diagnostic {
            uri: uri.to_owned(),
            line: line as u32,
            character: character as u32,
            severity,
            message: message.to_owned(),
            code,
            source,
        },
    )
}

/// A number as text.
fn number_text(number: &JsonNumber) -> (r: String)
    ensures
        r@ == codec::json_display(number.content()),
        number.content() matches JsonView::Integer(i) ==> r@ == crate::text::decimal_integer(i),
{
    json_to_string(&Json::Numeric(number.clone()))
}

/// The diagnostics of the first items come first.
proof fn lemma_diagnostics_of_front(uri: Seq<char>, items: Seq<JsonView>, n: int)
    requires
        0 <= n <= items.len(),
    ensures
        diagnostics_of(uri, items.take(n)).len() <= diagnostics_of(uri, items).len(),
        diagnostics_of(uri, items).take(diagnostics_of(uri, items.take(n)).len() as int)
            == diagnostics_of(uri, items.take(n)),
    decreases items.len(),
{
    if n == items.len() {
        assert(items.take(n) =~= items);
        assert(diagnostics_of(uri, items).take(diagnostics_of(uri, items).len() as int)
            =~= diagnostics_of(uri, items));
    } else {
        let front = items.drop_last();
        lemma_diagnostics_of_front(uri, front, n);
        assert(front.take(n) =~= items.take(n));
        assert(diagnostics_of(uri, items).take(diagnostics_of(uri, items.take(n)).len() as int)
            =~= diagnostics_of(uri, front).take(
            diagnostics_of(uri, items.take(n)).len() as int,
        ));
    }
}

/// Reads the diagnostics of a publication.
pub fn parse_diagnostics(message: &Json) -> (r: Vec<Diagnostic>)
    ensures
        views(r@) == published(message@),
{
    let params = message.get("params");
    let uri = match get_text(get_member(params, "uri")) {
        Some(uri) => uri,
        None => "",
    };
    proof {
        reveal_strlit("");
        assert(""@ =~= Seq::<char>::empty());
    }
    let mut found: Vec<Diagnostic> = Vec::new();
    let items = match get_items(get_member(params, "diagnostics")) {
        Some(items) => items,
        None => {
            assert(views(found@) =~= Seq::empty());
            return found;
        },
    };
    let ghost documents = json::contents(items@);
    let mut i: usize = 0;
    assert(views(found@) =~= diagnostics_of(uri@, documents.take(0)));
    while i < items.len() && found.len() < MAX_DIAGNOSTICS_PER_FILE
        invariant
            i <= items@.len(),
            documents == json::contents(items@),
            found@.len() <= MAX_DIAGNOSTICS_PER_FILE,
            views(found@) == diagnostics_of(uri@, documents.take(i as int)),
        decreases items@.len() - i,
    {
        let ghost before = found@;
        let item = parse_one(uri, &items[i]);
        assert(documents.take(i + 1).drop_last() =~= documents.take(i as int));
        if let Some(diagnostic) = item {
            found.push(diagnostic);
        }
        i = i + 1;
        assert(views(found@) =~= diagnostics_of(uri@, documents.take(i as int)));
    }
    proof {
        lemma_diagnostics_of_front(uri@, documents, i as int);
        if i == items@.len() {
            assert(documents.take(i as int) =~= documents);
        }
        assert(views(found@).len() == found@.len());
        assert(views(found@) =~= at_most(
            diagnostics_of(uri@, documents),
            MAX_DIAGNOSTICS_PER_FILE as nat,
        ));
    }
    found
}

/// Each diagnostic of a list belongs to the list's document.
proof fn lemma_diagnostics_of_uri(uri: Seq<char>, items: Seq<JsonView>)
    ensures
        forall|i: int|
            0 <= i < diagnostics_of(uri, items).len() ==> (#[trigger] diagnostics_of(
                uri,
                items,
            )[i]).uri == uri,
    decreases items.len(),
{
    if items.len() > 0 {
        lemma_diagnostics_of_uri(uri, items.drop_last());
    }
}

/// A publication for a document publishes at most fifty diagnostics, all of that document.
pub proof fn law_publication_is_bounded(message: JsonView, uri: Seq<char>)
    ensures
        published(message).len() <= 50,
        publishes_for(message, uri) ==> forall|i: int|
            0 <= i < published(message).len() ==> (#[trigger] published(message)[i]).uri == uri,
{
    if publishes_for(message, uri) {
        if let Some(items) = json::items_of(
            json::member(json::field(message, "params"@), "diagnostics"@),
        ) {
            lemma_diagnostics_of_uri(uri, items);
        }
    }
}

} // verus!
