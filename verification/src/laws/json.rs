//! JSON documents and their parts.

use vstd::prelude::*;

use crate::codec;
use crate::json;
use crate::json::{Json, JsonNumber, JsonView};

verus! {

/// A member of an object is found by its name; what is no object has none.
pub proof fn law_members(
    members: Map<Seq<char>, JsonView>,
    name: Seq<char>,
    other: Seq<char>,
    value: JsonView,
    no_object: JsonView,
)
    requires
        other != name,
        no_object !is Object,
    ensures
        json::field(JsonView::Object(members.insert(name, value)), name) == Some(value),
        json::field(JsonView::Object(members.remove(name)), name) is None,
        json::field(JsonView::Object(members.insert(name, value)), other) == json::field(
            JsonView::Object(members),
            other,
        ),
        members.contains_key(name) ==> json::field(JsonView::Object(members), name) == Some(
            members[name],
        ),
        json::field(no_object, name) is None,
        json::member(Some(JsonView::Object(members)), name) == json::field(
            JsonView::Object(members),
            name,
        ),
        json::member(Some(no_object), name) is None,
        json::member(None, name) is None,
{
}

/// A value is read as what it is, and as nothing else.
pub proof fn law_values(text: Seq<char>, items: Seq<JsonView>, i: int, value: JsonView)
    ensures
        json::text_of(Some(JsonView::String(text))) == Some(text),
        json::text_of(None) is None,
        value !is String ==> json::text_of(Some(value)) is None,
        json::items_of(Some(JsonView::Array(items))) == Some(items),
        json::items_of(None) is None,
        value !is Array ==> json::items_of(Some(value)) is None,
        0 <= i < 0x1_0000_0000_0000_0000 ==> json::unsigned_of(Some(JsonView::Integer(i))) == Some(
            i as u64,
        ),
        !(0 <= i < 0x1_0000_0000_0000_0000) ==> json::unsigned_of(
            Some(JsonView::Integer(i)),
        ) is None,
        -0x8000_0000_0000_0000 <= i < 0x8000_0000_0000_0000 ==> json::signed_of(
            Some(JsonView::Integer(i)),
        ) == Some(i as i64),
        !(-0x8000_0000_0000_0000 <= i < 0x8000_0000_0000_0000) ==> json::signed_of(
            Some(JsonView::Integer(i)),
        ) is None,
        json::unsigned_of(None) is None,
        json::signed_of(None) is None,
        value !is Integer ==> json::unsigned_of(Some(value)) is None && json::signed_of(
            Some(value),
        ) is None,
{
}

/// A document stands for what it holds: a list for its items in order, and an object for its
/// members, of which the later with one name counts.
pub proof fn law_documents(
    flag: bool,
    unsigned: u64,
    signed: i64,
    string: String,
    items: Vec<Json>,
    none: Vec<(String, Json)>,
    one: Vec<(String, Json)>,
    more: Vec<(String, Json)>,
    entry: (String, Json),
)
    requires
        none@.len() == 0,
        more@ == one@.push(entry),
    ensures
        Json::Null@ == JsonView::Null,
        Json::Bool(flag)@ == JsonView::Bool(flag),
        Json::Numeric(JsonNumber::Unsigned(unsigned))@ == JsonView::Integer(unsigned as int),
        Json::Numeric(JsonNumber::Signed(signed))@ == JsonView::Integer(signed as int),
        Json::String(string)@ == JsonView::String(string@),
        Json::Array(items)@ matches JsonView::Array(seen) && seen.len() == items@.len()
            && forall|i: int| 0 <= i < seen.len() ==> #[trigger] seen[i] == items@[i]@,
        Json::Object(none)@ == JsonView::Object(Map::empty()),
        Json::Object(one)@ matches JsonView::Object(before) && Json::Object(more)@
            == JsonView::Object(before.insert(entry.0@, entry.1@)),
{
    assert(more@.drop_last() == one@);
}

/// What may be there is seen as it is.
pub proof fn law_seen(value: &Json)
    ensures
        json::seen(Some(value)) == Some(value@),
        json::seen(None) is None,
{
}

/// What is read back as it was written: everything but floats, in containers that stand at most
/// so deep in each other.
pub proof fn law_read_back(
    scalar: JsonView,
    items: Seq<JsonView>,
    members: Map<Seq<char>, JsonView>,
    bits: u64,
    depth: nat,
)
    requires
        scalar is Null || scalar is Bool || scalar is Integer || scalar is String,
    ensures
        codec::reads_back(scalar, depth),
        !codec::reads_back(JsonView::Float(bits), depth),
        !codec::reads_back(JsonView::Array(items), 0),
        !codec::reads_back(JsonView::Object(members), 0),
        codec::reads_back(JsonView::Array(items), depth + 1) <==> forall|i: int|
            0 <= i < items.len() ==> codec::reads_back(#[trigger] items[i], depth),
        codec::reads_back(JsonView::Object(members), depth + 1) <==> forall|name: Seq<char>|
            #[trigger] members.contains_key(name) ==> codec::reads_back(members[name], depth),
        codec::MAX_DEPTH == 127,
{
    let more: nat = depth + 1;
    assert((more - 1) as nat == depth);
    let list = JsonView::Array(items);
    let object = JsonView::Object(members);
    if codec::reads_back(list, more) {
        assert forall|i: int| 0 <= i < items.len() implies codec::reads_back(
            #[trigger] items[i],
            depth,
        ) by {
            assert(list->Array_0[i] == items[i]);
        }
    } else {
        assert(exists|i: int|
            0 <= i < items.len() && !codec::reads_back(#[trigger] items[i], (more - 1) as nat));
    }
    if codec::reads_back(object, more) {
        assert forall|name: Seq<char>| #[trigger] members.contains_key(name) implies
            codec::reads_back(members[name], depth) by {
            assert(object->Object_0.contains_key(name));
        }
    } else {
        assert(exists|name: Seq<char>| #[trigger]
            members.contains_key(name) && !codec::reads_back(members[name], (more - 1) as nat));
    }
}

} // verus!
