//! Publications of diagnostics.

use vstd::prelude::*;

use crate::codec;
use crate::diagnostic::{Diagnostic, DiagnosticSeverity, DiagnosticView};
use crate::json;
use crate::json::JsonView;
use crate::publication;
use crate::text;

verus! {

/// Where a diagnostic starts.
pub open spec fn start_of(item: JsonView) -> Option<JsonView> {
    json::member(json::field(item, "range"@), "start"@)
}

/// Whether a value is there and is an integer from 0 up to the largest `u32`.
pub open spec fn is_place(value: Option<JsonView>) -> bool {
    value matches Some(JsonView::Integer(i)) && 0 <= i < 0x1_0000_0000
}

/// Whether a diagnostic says where it starts and what it is.
pub open spec fn readable(item: JsonView) -> bool {
    &&& is_place(json::member(start_of(item), "line"@))
    &&& is_place(json::member(start_of(item), "character"@))
    &&& json::field(item, "message"@) matches Some(JsonView::String(_))
}

/// The severity that a number stands for, where there is one.
pub open spec fn severity_named(value: Option<JsonView>) -> DiagnosticSeverity {
    match value {
        Some(JsonView::Integer(i)) => if i == 2 {
            DiagnosticSeverity::Warning
        } else if i == 3 {
            DiagnosticSeverity::Information
        } else if i == 0 || 4 <= i < 0x1_0000_0000 {
            DiagnosticSeverity::Hint
        } else {
            DiagnosticSeverity::Error
        },
        _ => DiagnosticSeverity::Error,
    }
}

/// Whether what was read is what an item of a publication for `uri` says.
pub open spec fn says(read: DiagnosticView, uri: Seq<char>, item: JsonView) -> bool {
    &&& read.uri == uri
    &&& json::member(start_of(item), "line"@) == Some(JsonView::Integer(read.line as int))
    &&& json::member(start_of(item), "character"@) == Some(JsonView::Integer(read.character as int))
    &&& json::field(item, "message"@) == Some(JsonView::String(read.message))
    &&& read.severity == severity_named(json::field(item, "severity"@))
    &&& match json::field(item, "code"@) {
        Some(JsonView::String(code)) => read.code == Some(code),
        Some(JsonView::Integer(code)) => read.code == Some(text::decimal_integer(code)),
        Some(JsonView::Float(bits)) => read.code == Some(
            codec::json_display(JsonView::Float(bits)),
        ),
        _ => read.code is None,
    }
    &&& match json::field(item, "source"@) {
        Some(JsonView::String(source)) => read.source == Some(source),
        _ => read.source is None,
    }
}

/// The document and the items of a publication.
pub open spec fn lists(message: JsonView, uri: Seq<char>, items: Seq<JsonView>) -> bool {
    &&& json::member(json::field(message, "params"@), "uri"@) == Some(JsonView::String(uri))
    &&& json::member(json::field(message, "params"@), "diagnostics"@) == Some(
        JsonView::Array(items),
    )
}

/// A diagnostic is read if and only if it says where it starts and what it is, and what was
/// read is what it says.
pub proof fn law_diagnostic_is_read(uri: Seq<char>, item: JsonView)
    ensures
        match publication::diagnostic_of(uri, item) {
            Some(read) => readable(item) && says(read, uri, item),
            None => !readable(item),
        },
{
}

/// Items are read one by one, in order, and those that cannot be read are left out.
pub proof fn law_items_are_read_in_order(
    uri: Seq<char>,
    item: JsonView,
    first: Seq<JsonView>,
    second: Seq<JsonView>,
)
    ensures
        publication::diagnostics_of(uri, first + second) == publication::diagnostics_of(uri, first)
            + publication::diagnostics_of(uri, second),
        readable(item) ==> publication::diagnostics_of(uri, seq![item]).len() == 1 && says(
            publication::diagnostics_of(uri, seq![item])[0],
            uri,
            item,
        ),
        !readable(item) ==> publication::diagnostics_of(uri, seq![item]).len() == 0,
        publication::diagnostics_of(uri, Seq::empty()).len() == 0,
    decreases second.len(),
{
    law_diagnostic_is_read(uri, item);
    assert(seq![item].drop_last() =~= Seq::<JsonView>::empty());
    reveal_with_fuel(publication::diagnostics_of, 2);
    if second.len() == 0 {
        assert(first + second =~= first);
        assert(publication::diagnostics_of(uri, first) + publication::diagnostics_of(uri, second)
            =~= publication::diagnostics_of(uri, first));
    } else {
        let all = first + second;
        assert(all.drop_last() =~= first + second.drop_last());
        assert(all.last() == second.last());
        law_items_are_read_in_order(uri, item, first, second.drop_last());
        assert(publication::diagnostics_of(uri, all) =~= publication::diagnostics_of(uri, first)
            + publication::diagnostics_of(uri, second));
    }
}

proof fn lemma_every_item(uri: Seq<char>, items: Seq<JsonView>)
    requires
        forall|i: int| 0 <= i < items.len() ==> readable(#[trigger] items[i]),
    ensures
        publication::diagnostics_of(uri, items).len() == items.len(),
        forall|i: int|
            0 <= i < items.len() ==> says(
                #[trigger] publication::diagnostics_of(uri, items)[i],
                uri,
                items[i],
            ),
    decreases items.len(),
{
    if items.len() > 0 {
        let front = items.drop_last();
        assert forall|i: int| 0 <= i < front.len() implies readable(#[trigger] front[i]) by {
            assert(front[i] == items[i]);
        }
        lemma_every_item(uri, front);
        assert(readable(items[items.len() - 1]));
        law_diagnostic_is_read(uri, items.last());
        assert forall|i: int| 0 <= i < items.len() implies says(
            #[trigger] publication::diagnostics_of(uri, items)[i],
            uri,
            items[i],
        ) by {
            if i < front.len() {
                assert(publication::diagnostics_of(uri, items)[i] == publication::diagnostics_of(
                    uri,
                    front,
                )[i]);
                assert(front[i] == items[i]);
            }
        }
    }
}

/// Where every item can be read and there are at most fifty, every item is published, in order,
/// as what it says, however bad it is.
pub proof fn law_every_item_is_published(
    message: JsonView,
    uri: Seq<char>,
    items: Seq<JsonView>,
)
    requires
        lists(message, uri, items),
        items.len() <= 50,
        forall|i: int| 0 <= i < items.len() ==> readable(#[trigger] items[i]),
    ensures
        publication::published(message).len() == items.len(),
        forall|i: int|
            0 <= i < items.len() ==> says(
                #[trigger] publication::published(message)[i],
                uri,
                items[i],
            ),
{
    lemma_every_item(uri, items);
}

/// Of the items that can be read the first fifty are published, and all where there are fewer.
pub proof fn law_first_fifty_are_published(
    message: JsonView,
    uri: Seq<char>,
    items: Seq<JsonView>,
)
    requires
        lists(message, uri, items),
    ensures
        publication::diagnostics_of(uri, items).len() <= 50 ==> publication::published(message)
            == publication::diagnostics_of(uri, items),
        publication::diagnostics_of(uri, items).len() > 50 ==> publication::published(message)
            == publication::diagnostics_of(uri, items).subrange(0, 50),
{
}

/// A publication without a list publishes nothing, and one without a document publishes
/// diagnostics of no document.
pub proof fn law_incomplete_publications(message: JsonView, items: Seq<JsonView>)
    ensures
        !(json::member(json::field(message, "params"@), "diagnostics"@) matches Some(
            JsonView::Array(_),
        )) ==> publication::published(message).len() == 0,
        json::member(json::field(message, "params"@), "diagnostics"@) == Some(
            JsonView::Array(items),
        ) && !(json::member(json::field(message, "params"@), "uri"@) matches Some(
            JsonView::String(_),
        )) && publication::diagnostics_of(Seq::empty(), items).len() <= 50
            ==> publication::published(message) == publication::diagnostics_of(
            Seq::empty(),
            items,
        ),
{
}

/// A publication is for a document if and only if it has that method and names that document.
pub proof fn law_publications(message: JsonView, uri: Seq<char>)
    ensures
        publication::publishes_for(message, uri) <==> json::field(message, "method"@) == Some(
            JsonView::String("textDocument/publishDiagnostics"@),
        ) && json::member(json::field(message, "params"@), "uri"@) == Some(JsonView::String(uri)),
{
}

/// A publication for a version is stale if and only if that version is older. One that names
/// no version is not stale.
pub proof fn law_stale_publications(message: JsonView, version: i64, document_version: i32)
    ensures
        json::member(json::field(message, "params"@), "version"@) == Some(
            JsonView::Integer(version as int),
        ) ==> (publication::is_stale(message, document_version) <==> (version as int) < (
        document_version as int)),
        !(json::member(json::field(message, "params"@), "version"@) matches Some(
            JsonView::Integer(_),
        )) ==> !publication::is_stale(message, document_version),
        json::member(json::field(message, "params"@), "version"@) matches Some(
            JsonView::Integer(large),
        ) && large >= 0x8000_0000_0000_0000 ==> !publication::is_stale(message, document_version),
{
}

/// What diagnostics say they say one by one.
pub proof fn law_views(found: Seq<Diagnostic>, i: int)
    requires
        0 <= i < found.len(),
    ensures
        publication::views(found).len() == found.len(),
        publication::views(found)[i] == found[i]@,
{
}

} // verus!
