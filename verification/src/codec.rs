//! JSON text: documents to bytes and back, through `serde_json`.

use vstd::prelude::*;

use crate::entries;
use crate::entries::put_entry;
use crate::json;
use crate::json::{Float, Json, JsonNumber, JsonView};

verus! {

/// `serde_json::Value`, the document type of the outside parser and writer.
#[verifier::external_type_specification]
#[verifier::external_body]
pub struct ExValue(serde_json::Value);

/// What a `serde_json::Value` holds. An object is read as the map of its members, whatever
/// the order in which they are kept.
pub uninterp spec fn value_content(value: serde_json::Value) -> JsonView;

/// `serde_json::Error`, which says why a text is not a document.
#[verifier::external_type_specification]
#[verifier::external_body]
pub struct ExError(serde_json::Error);

/// The text that `serde_json::to_vec` gives for a document.
pub uninterp spec fn json_bytes(value: JsonView) -> Seq<u8>;

/// The text that the `Display` of `serde_json::Error` gives.
pub uninterp spec fn error_display(error: serde_json::Error) -> Seq<char>;

/// What `serde_json::from_slice` reads: the document that the bytes are, or else the text of
/// the error.
pub uninterp spec fn parsed_json(bytes: Seq<u8>) -> Result<JsonView, Seq<char>>;

/// Whether bytes are read as a document.
pub open spec fn reads_as(bytes: Seq<u8>, document: JsonView) -> bool {
    parsed_json(bytes) == Ok::<JsonView, Seq<char>>(document)
}

/// The text that the `Display` of `serde_json::Value` gives for a document.
pub uninterp spec fn json_display(value: JsonView) -> Seq<char>;

/// A `serde_json::Value` taken apart by one level.
pub enum Node {
    Null,
    Bool(bool),
    Numeric(serde_json::Number),
    String(String),
    Array(Vec<serde_json::Value>),
    Object(Vec<(String, serde_json::Value)>),
}

/// The documents that values hold.
pub open spec fn value_contents(values: Seq<serde_json::Value>) -> Seq<JsonView> {
    Seq::new(values.len(), |i: int| value_content(values[i]))
}

/// The map of the documents that named values hold.
pub open spec fn member_value_contents(members: Seq<(String, serde_json::Value)>) -> Map<
    Seq<char>,
    JsonView,
> {
    entries::entries_map(members).map_values(|value: serde_json::Value| value_content(value))
}

impl Node {
    pub open spec fn content(self) -> JsonView {
        match self {
            Node::Null => JsonView::Null,
            Node::Bool(flag) => JsonView::Bool(flag),
            Node::Numeric(number) => json::number_content(number),
            Node::String(text) => JsonView::String(text@),
            Node::Array(values) => JsonView::Array(value_contents(values@)),
            Node::Object(members) => JsonView::Object(member_value_contents(members@)),
        }
    }

    /// No two members of an object have one name.
    pub open spec fn well_formed(self) -> bool {
        match self {
            Node::Object(members) => entries::distinct_keys(members@),
            _ => true,
        }
    }
}

/// Whether reading gives back what writing wrote: every number is an integer, and containers
/// stand at most `depth` deep in each other.
pub open spec fn reads_back(value: JsonView, depth: nat) -> bool
    decreases depth,
{
    match value {
        JsonView::Float(_) => false,
        JsonView::Array(items) => depth > 0 && forall|i: int|
            0 <= i < items.len() ==> reads_back(#[trigger] items[i], (depth - 1) as nat),
        JsonView::Object(members) => depth > 0 && forall|name: Seq<char>| #[trigger]
            members.contains_key(name) ==> reads_back(members[name], (depth - 1) as nat),
        _ => true,
    }
}

/// The deepest nesting that `serde_json` reads.
pub const MAX_DEPTH: u8 = 127;

/// The variants of `serde_json::Value`, told apart. `Map::into_iter` gives each member of an
/// object once.
#[verifier::external_body]
fn open_value(value: serde_json::Value) -> (r: Node)
    ensures
        r.content() == value_content(value),
        r.well_formed(),
{
    match value {
        serde_json::Value::Null => Node::Null,
        serde_json::Value::Bool(flag) => Node::Bool(flag),
        serde_json::Value::Number(number) => Node::Numeric(number),
        serde_json::Value::String(text) => Node::String(text),
        serde_json::Value::Array(values) => Node::Array(values),
        serde_json::Value::Object(members) => Node::Object(members.into_iter().collect()),
    }
}

/// The variants of `serde_json::Value`, put together. Collecting members into a `Map` holds each
/// of them under its name.
#[verifier::external_body]
fn close_value(node: Node) -> (r: serde_json::Value)
    requires
        node.well_formed(),
    ensures
        value_content(r) == node.content(),
{
    match node {
        Node::Null => serde_json::Value::Null,
        Node::Bool(flag) => serde_json::Value::Bool(flag),
        Node::Numeric(number) => serde_json::Value::Number(number),
        Node::String(text) => serde_json::Value::String(text),
        Node::Array(values) => serde_json::Value::Array(values),
        Node::Object(members) => serde_json::Value::Object(members.into_iter().collect()),
    }
}

/// `serde_json::Number::from` of a `u64` holds that integer.
#[verifier::external_body]
fn unsigned_number(n: u64) -> (r: serde_json::Number)
    ensures
        json::number_content(r) == JsonView::Integer(n as int),
{
    serde_json::Number::from(n)
}

/// `serde_json::Number::from` of an `i64` holds that integer.
#[verifier::external_body]
fn signed_number(n: i64) -> (r: serde_json::Number)
    ensures
        json::number_content(r) == JsonView::Integer(n as int),
{
    serde_json::Number::from(n)
}

/// `serde_json::from_slice`: the document that the bytes are the text of, or an error that the
/// bytes decide.
#[verifier::external_body]
fn parse_value(bytes: &[u8]) -> (r: Result<serde_json::Value, serde_json::Error>)
    ensures
        match r {
            Ok(value) => parsed_json(bytes@) == Ok::<JsonView, Seq<char>>(value_content(value)),
            Err(error) => parsed_json(bytes@) == Err::<JsonView, Seq<char>>(error_display(error)),
        },
{
    serde_json::from_slice(bytes)
}

/// The `Display` of `serde_json::Error`.
#[verifier::external_body]
fn error_to_string(error: &serde_json::Error) -> (r: String)
    ensures
        r@ == error_display(*error),
{
    error.to_string()
}

/// `serde_json::to_vec`, which always succeeds on a `serde_json::Value`: object names are
/// texts, and writing to a vector does not fail. Reading the text gives the document back,
/// unless a number in it is not an integer (such a number may change in its last digit) or
/// containers stand deeper in each other than the reader goes.
#[verifier::external_body]
fn value_to_vec(value: &serde_json::Value) -> (r: Result<Vec<u8>, serde_json::Error>)
    ensures
        r is Ok,
        r->Ok_0@ == json_bytes(value_content(*value)),
        reads_back(value_content(*value), MAX_DEPTH as nat) ==> reads_as(
            r->Ok_0@,
            value_content(*value),
        ),
{
    serde_json::to_vec(value)
}

/// The `Display` of `serde_json::Value`: its compact text. That of an integer is its decimal
/// numeral.
#[verifier::external_body]
fn value_to_string(value: &serde_json::Value) -> (r: String)
    ensures
        r@ == json_display(value_content(*value)),
        value_content(*value) matches JsonView::Integer(i) ==> r@
            == crate::text::decimal_integer(i),
{
    value.to_string()
}

/// What a number holds.
fn from_number(number: serde_json::Number) -> (r: JsonNumber)
    ensures
        r.content() == json::number_content(number),
{
    match (number.as_u64(), number.as_i64()) {
        (Some(n), _) => JsonNumber::Unsigned(n),
        (None, Some(n)) => JsonNumber::Signed(n),
        (None, None) => JsonNumber::Float(Float::carry(number)),
    }
}

/// A number that holds the given one.
fn to_number(number: &JsonNumber) -> (r: serde_json::Number)
    ensures
        json::number_content(r) == number.content(),
{
    match number {
        JsonNumber::Unsigned(n) => unsigned_number(*n),
        JsonNumber::Signed(n) => signed_number(*n),
        JsonNumber::Float(float) => float.carried(),
    }
}

/// The document that a value holds.
fn from_value(value: serde_json::Value) -> (r: Json)
    ensures
        r@ == value_content(value),
    decreases value_content(value),
{
    let ghost whole = value_content(value);
    match open_value(value) {
        Node::Null => Json::Null,
        Node::Bool(flag) => Json::Bool(flag),
        Node::Numeric(number) => Json::Numeric(from_number(number)),
        Node::String(text) => Json::String(text),
        Node::Array(values) => {
            let ghost documents = value_contents(values@);
            let mut items: Vec<Json> = Vec::new();
            for item in iter: values
                invariant
                    iter.seq() == values@,
                    documents == value_contents(values@),
                    whole == JsonView::Array(documents),
                    whole == value_content(value),
                    items@.len() == iter.index(),
                    json::contents(items@) == documents.take(iter.index()),
            {
                assert(decreases_to!(whole => whole->Array_0));
                assert(decreases_to!(documents => documents[iter.index()]));
                items.push(from_value(item));
                assert(json::contents(items@) =~= documents.take(iter.index() + 1));
            }
            assert(json::contents(items@) =~= documents);
            Json::Array(items)
        },
        Node::Object(named) => {
            let ghost documents = member_value_contents(named@);
            let mut members: Vec<(String, Json)> = Vec::new();
            assert(json::member_contents(members@) =~= member_value_contents(named@.take(0)));
            for entry in iter: named
                invariant
                    iter.seq() == named@,
                    entries::distinct_keys(named@),
                    documents == member_value_contents(named@),
                    whole == JsonView::Object(documents),
                    whole == value_content(value),
                    json::member_contents(members@) == member_value_contents(
                        named@.take(iter.index()),
                    ),
            {
                let ghost i = iter.index();
                let ghost before = members@;
                proof {
                    lemma_member_is_smaller(named@, i);
                    assert(decreases_to!(whole => whole->Object_0));
                }
                let (name, held) = entry;
                members.push((name, from_value(held)));
                proof {
                    assert(members@.drop_last() == before);
                    assert(named@.take(i + 1).drop_last() == named@.take(i));
                    assert(json::member_contents(members@) =~= member_value_contents(
                        named@.take(i + 1),
                    ));
                }
            }
            assert(named@.take(named@.len() as int) == named@);
            Json::Object(members)
        },
    }
}

/// What a member holds is a part of what the object holds.
proof fn lemma_member_is_smaller(members: Seq<(String, serde_json::Value)>, i: int)
    requires
        entries::distinct_keys(members),
        0 <= i < members.len(),
    ensures
        decreases_to!(member_value_contents(members) => value_content(members[i].1)),
{
    let documents = member_value_contents(members);
    entries::lemma_distinct_entry(members, i);
    entries::lemma_keys_come_from_entries(members);
    assert(documents.dom() =~= entries::entries_map(members).dom());
    assert(documents[members[i].0@] == value_content(members[i].1));
    assert(decreases_to!(documents => documents[members[i].0@]));
}

/// A value that holds a document.
fn to_value(document: &Json) -> (r: serde_json::Value)
    ensures
        value_content(r) == document@,
    decreases document,
{
    match document {
        Json::Null => close_value(Node::Null),
        Json::Bool(flag) => close_value(Node::Bool(*flag)),
        Json::Numeric(number) => close_value(Node::Numeric(to_number(number))),
        Json::String(text) => close_value(Node::String(text.clone())),
        Json::Array(items) => {
            let mut values: Vec<serde_json::Value> = Vec::new();
            let mut i: usize = 0;
            while i < items.len()
                invariant
                    i <= items@.len(),
                    values@.len() == i,
                    value_contents(values@) == json::contents(items@).take(i as int),
                    decreases_to!(document => items@),
                decreases items@.len() - i,
            {
                let value = to_value(&items[i]);
                values.push(value);
                i = i + 1;
                assert(value_contents(values@) =~= json::contents(items@).take(i as int));
            }
            assert(value_contents(values@) =~= json::contents(items@));
            close_value(Node::Array(values))
        },
        Json::Object(members) => {
            let mut named: Vec<(String, serde_json::Value)> = Vec::new();
            let mut i: usize = 0;
            assert(member_value_contents(named@) =~= json::member_contents(members@.take(0)));
            while i < members.len()
                invariant
                    i <= members@.len(),
                    entries::distinct_keys(named@),
                    member_value_contents(named@) == json::member_contents(
                        members@.take(i as int),
                    ),
                    decreases_to!(document => members@),
                decreases members@.len() - i,
            {
                let value = to_value(&members[i].1);
                let ghost before = named@;
                put_entry(&mut named, members[i].0.clone(), value);
                proof {
                    assert(members@.take(i + 1).drop_last() == members@.take(i as int));
                    assert(member_value_contents(named@) =~= json::member_contents(
                        members@.take(i + 1),
                    ));
                }
                i = i + 1;
            }
            assert(members@.take(i as int) == members@);
            close_value(Node::Object(named))
        },
    }
}

/// Reads a document from its text. The error is the text of why it is none.
pub fn parse_json(bytes: &[u8]) -> (r: Result<Json, String>)
    ensures
        match r {
            Ok(document) => parsed_json(bytes@) == Ok::<JsonView, Seq<char>>(document@),
            Err(cause) => parsed_json(bytes@) == Err::<JsonView, Seq<char>>(cause@),
        },
{
    match parse_value(bytes) {
        Ok(value) => Ok(from_value(value)),
        Err(error) => Err(error_to_string(&error)),
    }
}

/// Writes a document as text.
pub fn json_to_bytes(document: &Json) -> (r: Vec<u8>)
    ensures
        r@ == json_bytes(document@),
        reads_back(document@, MAX_DEPTH as nat) ==> reads_as(r@, document@),
{
    value_to_vec(&to_value(document)).unwrap()
}

/// A document as it is shown to people.
pub fn json_to_string(document: &Json) -> (r: String)
    ensures
        r@ == json_display(document@),
        document@ matches JsonView::Integer(i) ==> r@ == crate::text::decimal_integer(i),
{
    value_to_string(&to_value(document))
}

} // verus!
