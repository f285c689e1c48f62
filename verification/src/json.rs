//! JSON documents as plain values.

use vstd::prelude::*;

use crate::entries;
use crate::entries::find_entry;
use crate::text::same_text;

verus! {

/// The document that a [`Json`] stands for.
pub enum JsonView {
    Null,
    Bool(bool),
    Integer(int),
    /// A number that is not held as an integer, by its IEEE 754 bit pattern.
    Float(u64),
    String(Seq<char>),
    Array(Seq<JsonView>),
    Object(Map<Seq<char>, JsonView>),
}

/// `serde_json::Number`, a number as the outside parser and writer hold it.
#[verifier::external_type_specification]
#[verifier::external_body]
pub struct ExNumber(serde_json::Number);

/// What a `serde_json::Number` holds.
pub uninterp spec fn number_content(number: serde_json::Number) -> JsonView;

/// `serde_json::Number::clone` gives a number that holds the same.
pub assume_specification[ <serde_json::Number as Clone>::clone ](
    number: &serde_json::Number,
) -> (r: serde_json::Number)
    ensures
        number_content(r) == number_content(*number),
;

/// `serde_json::Number::as_u64` gives the integer that is held, where a `u64` can hold it.
pub assume_specification[ serde_json::Number::as_u64 ](number: &serde_json::Number) -> (r: Option<
    u64,
>)
    ensures
        r == unsigned_of(Some(number_content(*number))),
;

/// `serde_json::Number::as_i64` gives the integer that is held, where an `i64` can hold it. A
/// number is held as an integer of one of the ranges of `i64` and `u64`, or as a float.
pub assume_specification[ serde_json::Number::as_i64 ](number: &serde_json::Number) -> (r: Option<
    i64,
>)
    ensures
        match number_content(*number) {
            JsonView::Integer(i) => i64::MIN <= i <= u64::MAX && r == signed_of(
                Some(number_content(*number)),
            ),
            JsonView::Float(_) => r is None,
            _ => false,
        },
;

/// A number that is not held as an integer. It is carried as the outside parser gave it.
#[derive(Debug)]
pub struct Float {
    number: serde_json::Number,
}

impl Float {
    #[verifier::type_invariant]
    spec fn holds_float(self) -> bool {
        number_content(self.number) is Float
    }

    pub closed spec fn content(self) -> JsonView {
        number_content(self.number)
    }

    /// Carries a number that is not held as an integer.
    pub(crate) fn carry(number: serde_json::Number) -> (r: Float)
        requires
            number_content(number) is Float,
        ensures
            r.content() == number_content(number),
    {
        Float { number }
    }

    /// The number that is carried.
    pub(crate) fn carried(&self) -> (r: serde_json::Number)
        ensures
            number_content(r) == self.content(),
    {
        self.number.clone()
    }
}

#[derive(Debug)]
pub enum JsonNumber {
    Unsigned(u64),
    Signed(i64),
    Float(Float),
}

/// A JSON document. Of two members of an object with one name the later counts.
#[derive(Debug)]
pub enum Json {
    Null,
    Bool(bool),
    Numeric(JsonNumber),
    String(String),
    Array(Vec<Json>),
    Object(Vec<(String, Json)>),
}

impl JsonNumber {
    pub open spec fn content(self) -> JsonView {
        match self {
            JsonNumber::Unsigned(n) => JsonView::Integer(n as int),
            JsonNumber::Signed(n) => JsonView::Integer(n as int),
            JsonNumber::Float(float) => float.content(),
        }
    }
}

impl Json {
    pub open spec fn content(self) -> JsonView
        decreases self,
    {
        match self {
            Json::Null => JsonView::Null,
            Json::Bool(flag) => JsonView::Bool(flag),
            Json::Numeric(number) => number.content(),
            Json::String(text) => JsonView::String(text@),
            Json::Array(items) => JsonView::Array(contents(items@)),
            Json::Object(members) => JsonView::Object(member_contents(members@)),
        }
    }
}

impl View for Json {
    type V = JsonView;

    open spec fn view(&self) -> JsonView {
        self.content()
    }
}

/// The documents that a sequence of items stands for.
pub open spec fn contents(items: Seq<Json>) -> Seq<JsonView>
    decreases items,
{
    Seq::new(
        items.len(),
        |i: int|
            if 0 <= i < items.len() {
                items[i].content()
            } else {
                JsonView::Null
            },
    )
}

/// The map that the members of an object stand for.
pub open spec fn member_contents(members: Seq<(String, Json)>) -> Map<Seq<char>, JsonView>
    decreases members,
{
    if members.len() == 0 {
        Map::empty()
    } else {
        member_contents(members.drop_last()).insert(
            members.last().0@,
            members.last().1.content(),
        )
    }
}

/// The member of an object with the given name.
pub open spec fn field(value: JsonView, name: Seq<char>) -> Option<JsonView> {
    match value {
        JsonView::Object(members) => if members.contains_key(name) {
            Some(members[name])
        } else {
            None
        },
        _ => None,
    }
}

/// The member with the given name of what may be there.
pub open spec fn member(value: Option<JsonView>, name: Seq<char>) -> Option<JsonView> {
    match value {
        Some(value) => field(value, name),
        None => None,
    }
}

/// The text that may be there.
pub open spec fn text_of(value: Option<JsonView>) -> Option<Seq<char>> {
    match value {
        Some(JsonView::String(text)) => Some(text),
        _ => None,
    }
}

/// The array that may be there.
pub open spec fn items_of(value: Option<JsonView>) -> Option<Seq<JsonView>> {
    match value {
        Some(JsonView::Array(items)) => Some(items),
        _ => None,
    }
}

/// The integer that may be there, where a `u64` can hold it.
pub open spec fn unsigned_of(value: Option<JsonView>) -> Option<u64> {
    match value {
        Some(JsonView::Integer(i)) => if 0 <= i <= u64::MAX {
            Some(i as u64)
        } else {
            None
        },
        _ => None,
    }
}

/// The integer that may be there, where an `i64` can hold it.
pub open spec fn signed_of(value: Option<JsonView>) -> Option<i64> {
    match value {
        Some(JsonView::Integer(i)) => if i64::MIN <= i <= i64::MAX {
            Some(i as i64)
        } else {
            None
        },
        _ => None,
    }
}

/// The document that may be there.
pub open spec fn seen(value: Option<&Json>) -> Option<JsonView> {
    match value {
        Some(value) => Some(value@),
        None => None,
    }
}

/// The members of an object, as a map of their documents.
pub proof fn lemma_member_contents(members: Seq<(String, Json)>)
    ensures
        member_contents(members) == entries::entries_map(members).map_values(
            |value: Json| value.content(),
        ),
    decreases members.len(),
{
    if members.len() > 0 {
        lemma_member_contents(members.drop_last());
    }
    assert(member_contents(members) =~= entries::entries_map(members).map_values(
        |value: Json| value.content(),
    ));
}

impl Clone for Float {
    fn clone(&self) -> (r: Self)
        ensures
            r.content() == self.content(),
    {
        proof {
            use_type_invariant(self);
        }
        Float { number: self.number.clone() }
    }
}

impl Clone for JsonNumber {
    fn clone(&self) -> (r: Self)
        ensures
            r.content() == self.content(),
    {
        match self {
            JsonNumber::Unsigned(n) => JsonNumber::Unsigned(*n),
            JsonNumber::Signed(n) => JsonNumber::Signed(*n),
            JsonNumber::Float(float) => JsonNumber::Float(float.clone()),
        }
    }
}

impl Clone for Json {
    fn clone(&self) -> (r: Self)
        ensures
            r@ == self@,
        decreases self,
    {
        match self {
            Json::Null => Json::Null,
            Json::Bool(flag) => Json::Bool(*flag),
            Json::Numeric(number) => Json::Numeric(number.clone()),
            Json::String(text) => Json::String(text.clone()),
            Json::Array(items) => {
                let mut copies: Vec<Json> = Vec::new();
                let mut i: usize = 0;
                while i < items.len()
                    invariant
                        i <= items@.len(),
                        copies@.len() == i,
                        contents(copies@) == contents(items@).take(i as int),
                        decreases_to!(self => items@),
                    decreases items@.len() - i,
                {
                    let copy = items[i].clone();
                    copies.push(copy);
                    i = i + 1;
                    assert(contents(copies@) =~= contents(items@).take(i as int));
                }
                assert(contents(copies@) =~= contents(items@));
                Json::Array(copies)
            },
            Json::Object(members) => {
                let mut copies: Vec<(String, Json)> = Vec::new();
                let mut i: usize = 0;
                while i < members.len()
                    invariant
                        i <= members@.len(),
                        member_contents(copies@) == member_contents(members@.take(i as int)),
                        decreases_to!(self => members@),
                    decreases members@.len() - i,
                {
                    let name = members[i].0.clone();
                    let copy = members[i].1.clone();
                    let ghost before = copies@;
                    copies.push((name, copy));
                    assert(copies@.drop_last() == before);
                    assert(members@.take(i + 1).drop_last() == members@.take(i as int));
                    i = i + 1;
                }
                assert(members@.take(i as int) == members@);
                Json::Object(copies)
            },
        }
    }
}

impl Json {
    /// A text.
    pub fn text(text: &str) -> (r: Json)
        ensures
            r@ == JsonView::String(text@),
    {
        Json::String(String::from(text))
    }

    /// An integer.
    pub fn integer(i: i64) -> (r: Json)
        ensures
            r@ == JsonView::Integer(i as int),
    {
        Json::Numeric(JsonNumber::Signed(i))
    }

    /// An object without members.
    pub fn object() -> (r: Json)
        ensures
            r@ == JsonView::Object(Map::empty()),
    {
        Json::Object(Vec::new())
    }

    /// An object with one more member, or another value for a member.
    pub fn with(self, name: &str, value: Json) -> (r: Json)
        requires
            self@ is Object,
        ensures
            r@ == JsonView::Object(self@->Object_0.insert(name@, value@)),
    {
        match self {
            Json::Object(members) => {
                let mut members = members;
                let ghost before = members@;
                members.push((name.to_owned(), value));
                assert(members@.drop_last() == before);
                Json::Object(members)
            },
            Json::Numeric(JsonNumber::Float(float)) => {
                proof {
                    use_type_invariant(&float);
                }
                Json::Numeric(JsonNumber::Float(float))
            },
            other => other,
        }
    }

    /// The member of an object with the given name.
    pub fn get(&self, name: &str) -> (r: Option<&Json>)
        ensures
            seen(r) == field(self@, name@),
    {
        match self {
            Json::Object(members) => {
                proof {
                    lemma_member_contents(members@);
                }
                match find_entry(members, name) {
                    Some(i) => Some(&members[i].1),
                    None => None,
                }
            },
            Json::Numeric(JsonNumber::Float(float)) => {
                proof {
                    use_type_invariant(float);
                }
                None
            },
            _ => None,
        }
    }
}

/// The member with the given name of what may be there.
pub fn get_member<'a>(value: Option<&'a Json>, name: &str) -> (r: Option<&'a Json>)
    ensures
        seen(r) == member(seen(value), name@),
{
    match value {
        Some(value) => value.get(name),
        None => None,
    }
}

/// The text that may be there.
pub fn get_text<'a>(value: Option<&'a Json>) -> (r: Option<&'a str>)
    ensures
        match r {
            Some(text) => text_of(seen(value)) == Some(text@),
            None => text_of(seen(value)) is None,
        },
{
    match value {
        Some(Json::String(text)) => Some(text.as_str()),
        Some(Json::Numeric(JsonNumber::Float(float))) => {
            proof {
                use_type_invariant(float);
            }
            None
        },
        _ => None,
    }
}

/// The items of the array that may be there.
pub fn get_items<'a>(value: Option<&'a Json>) -> (r: Option<&'a Vec<Json>>)
    ensures
        match r {
            Some(items) => items_of(seen(value)) == Some(contents(items@)),
            None => items_of(seen(value)) is None,
        },
{
    match value {
        Some(Json::Array(items)) => Some(items),
        Some(Json::Numeric(JsonNumber::Float(float))) => {
            proof {
                use_type_invariant(float);
            }
            None
        },
        _ => None,
    }
}

/// The integer that may be there, where a `u64` can hold it.
pub fn get_unsigned(value: Option<&Json>) -> (r: Option<u64>)
    ensures
        r == unsigned_of(seen(value)),
{
    match value {
        Some(Json::Numeric(JsonNumber::Unsigned(n))) => Some(*n),
        Some(Json::Numeric(JsonNumber::Signed(n))) => if *n >= 0 {
            Some(*n as u64)
        } else {
            None
        },
        Some(Json::Numeric(JsonNumber::Float(float))) => {
            proof {
                use_type_invariant(float);
            }
            None
        },
        _ => None,
    }
}

/// The integer that may be there, where an `i64` can hold it.
pub fn get_signed(value: Option<&Json>) -> (r: Option<i64>)
    ensures
        r == signed_of(seen(value)),
{
    match value {
        Some(Json::Numeric(JsonNumber::Unsigned(n))) => if *n <= i64::MAX as u64 {
            Some(*n as i64)
        } else {
            None
        },
        Some(Json::Numeric(JsonNumber::Signed(n))) => Some(*n),
        Some(Json::Numeric(JsonNumber::Float(float))) => {
            proof {
                use_type_invariant(float);
            }
            None
        },
        _ => None,
    }
}

/// The number that may be there.
pub fn get_number<'a>(value: Option<&'a Json>) -> (r: Option<&'a JsonNumber>)
    ensures
        match r {
            Some(number) => {
                &&& seen(value) == Some(number.content())
                &&& number.content() is Integer || number.content() is Float
            },
            None => !(seen(value) matches Some(JsonView::Integer(_))) && !(seen(
                value,
            ) matches Some(JsonView::Float(_))),
        },
{
    match value {
        Some(Json::Numeric(number)) => {
            if let JsonNumber::Float(float) = number {
                proof {
                    use_type_invariant(float);
                }
            }
            Some(number)
        },
        _ => None,
    }
}

/// Whether a text is there and is the given one.
pub fn is_text(value: Option<&Json>, text: &str) -> (r: bool)
    ensures
        r == (text_of(seen(value)) == Some(text@)),
{
    match get_text(value) {
        Some(held) => same_text(held, text),
        None => false,
    }
}

} // verus!
