//! JSON documents: how one is read, and the parts of it that are asked for.
use vstd::prelude::*;

use crate::text::same_text;

verus! {

/// A JSON document. A number that is no unsigned 64-bit integer is kept as the
/// parser writes it out; the members of an object that was parsed stand in the
/// order of the parser's map.
#[derive(Debug, PartialEq, Eq)]
pub enum Json {
    Null,
    Bool(bool),
    Unsigned(u64),
    Decimal(String),
    Text(String),
    Array(Vec<Json>),
    Object(Vec<(String, Json)>),
}

/// What a JSON document says.
pub enum JsonView {
    Null,
    Bool(bool),
    Unsigned(u64),
    Decimal(Seq<char>),
    Text(Seq<char>),
    Array(Seq<JsonView>),
    Object(Seq<(Seq<char>, JsonView)>),
}

/// What each of some documents says.
pub open spec fn elements_said(items: Seq<Json>) -> Seq<JsonView>
    decreases items,
{
    Seq::new(
        items.len(),
        |i: int|
            if 0 <= i < items.len() {
                said(items[i])
            } else {
                JsonView::Null
            },
    )
}

/// What each member of an object says.
pub open spec fn members_said(members: Seq<(String, Json)>) -> Seq<(Seq<char>, JsonView)>
    decreases members,
{
    Seq::new(
        members.len(),
        |i: int|
            if 0 <= i < members.len() {
                (members[i].0@, said(members[i].1))
            } else {
                (Seq::empty(), JsonView::Null)
            },
    )
}

/// What a document says.
pub open spec fn said(json: Json) -> JsonView
    decreases json,
{
    match json {
        Json::Null => JsonView::Null,
        Json::Bool(flag) => JsonView::Bool(flag),
        Json::Unsigned(n) => JsonView::Unsigned(n),
        Json::Decimal(digits) => JsonView::Decimal(digits@),
        Json::Text(text) => JsonView::Text(text@),
        Json::Array(items) => JsonView::Array(elements_said(items@)),
        Json::Object(members) => JsonView::Object(members_said(members@)),
    }
}

impl View for Json {
    type V = JsonView;

    open spec fn view(&self) -> JsonView {
        said(*self)
    }
}

/// The member of an object under a key: the first, where there are more.
pub open spec fn member_of(members: Seq<(Seq<char>, JsonView)>, key: Seq<char>) -> Option<JsonView>
    decreases members.len(),
{
    if members.len() == 0 {
        None
    } else if members[0].0 == key {
        Some(members[0].1)
    } else {
        member_of(members.skip(1), key)
    }
}

/// The first member under a key is the one that is found.
pub proof fn lemma_member_found(members: Seq<(Seq<char>, JsonView)>, key: Seq<char>, i: int)
    requires
        0 <= i < members.len(),
        members[i].0 == key,
        forall|k: int| 0 <= k < i ==> (#[trigger] members[k]).0 != key,
    ensures
        member_of(members, key) == Some(members[i].1),
    decreases i,
{
    if i > 0 {
        let rest = members.skip(1);
        assert(members[0].0 != key);
        assert forall|k: int| 0 <= k < i - 1 implies (#[trigger] rest[k]).0 != key by {
            assert(rest[k] == members[k + 1]);
        }
        lemma_member_found(rest, key, i - 1);
    }
}

/// Where no member stands under a key, none is found.
pub proof fn lemma_member_missing(members: Seq<(Seq<char>, JsonView)>, key: Seq<char>)
    requires
        forall|k: int| 0 <= k < members.len() ==> (#[trigger] members[k]).0 != key,
    ensures
        member_of(members, key) is None,
    decreases members.len(),
{
    if members.len() > 0 {
        let rest = members.skip(1);
        assert(members[0].0 != key);
        assert forall|k: int| 0 <= k < rest.len() implies (#[trigger] rest[k]).0 != key by {
            assert(rest[k] == members[k + 1]);
        }
        lemma_member_missing(rest, key);
    }
}

/// The member of a document under a key; only an object has any.
pub open spec fn member(doc: Option<JsonView>, key: Seq<char>) -> Option<JsonView> {
    match doc {
        Some(JsonView::Object(members)) => member_of(members, key),
        _ => None,
    }
}

/// The elements of an array.
pub open spec fn elements(doc: Option<JsonView>) -> Option<Seq<JsonView>> {
    match doc {
        Some(JsonView::Array(items)) => Some(items),
        _ => None,
    }
}

/// The first element of an array.
pub open spec fn first_element(doc: Option<JsonView>) -> Option<JsonView> {
    match elements(doc) {
        Some(items) if items.len() > 0 => Some(items[0]),
        _ => None,
    }
}

/// The characters of a JSON string.
pub open spec fn text_in(doc: Option<JsonView>) -> Option<Seq<char>> {
    match doc {
        Some(JsonView::Text(text)) => Some(text),
        _ => None,
    }
}

/// The value of an unsigned number.
pub open spec fn unsigned_in(doc: Option<JsonView>) -> Option<u64> {
    match doc {
        Some(JsonView::Unsigned(n)) => Some(n),
        _ => None,
    }
}

/// The value of a boolean.
pub open spec fn flag_in(doc: Option<JsonView>) -> Option<bool> {
    match doc {
        Some(JsonView::Bool(flag)) => Some(flag),
        _ => None,
    }
}

/// The characters of a JSON string, none where there is no string.
pub open spec fn text_or_empty(doc: Option<JsonView>) -> Seq<char> {
    match text_in(doc) {
        Some(text) => text,
        None => Seq::empty(),
    }
}

/// What a document says, where there is one.
pub open spec fn said_by(doc: Option<&Json>) -> Option<JsonView> {
    match doc {
        Some(json) => Some(json@),
        None => None,
    }
}

/// The member of a document under a key.
pub fn get<'a>(doc: Option<&'a Json>, key: &str) -> (found: Option<&'a Json>)
    ensures
        said_by(found) == member(said_by(doc), key@),
{
    match doc {
        Some(Json::Object(members)) => {
            let ghost all = members_said(members@);
            assert(all.skip(0) =~= all);
            let total: usize = members.len();
            let mut i: usize = 0;
            while i < total
                invariant
                    i <= total,
                    total == members@.len(),
                    doc == Some(&Json::Object(*members)),
                    all == members_said(members@),
                    member_of(all, key@) == member_of(all.skip(i as int), key@),
                decreases total - i,
            {
                assert(all.skip(i as int)[0] == all[i as int]);
                assert(all.skip(i as int).skip(1) =~= all.skip(i + 1));
                if same_text(members[i].0.as_str(), key) {
                    return Some(&members[i].1);
                }
                i = i + 1;
            }
            None
        },
        _ => None,
    }
}

/// The elements of an array.
pub fn as_array<'a>(doc: Option<&'a Json>) -> (items: Option<&'a Vec<Json>>)
    ensures
        elements(said_by(doc)) == match items {
            Some(items) => Some(elements_said(items@)),
            None => None,
        },
{
    match doc {
        Some(Json::Array(items)) => Some(items),
        _ => None,
    }
}

/// The first element of an array.
pub fn first<'a>(doc: Option<&'a Json>) -> (found: Option<&'a Json>)
    ensures
        said_by(found) == first_element(said_by(doc)),
{
    match doc {
        Some(Json::Array(items)) => if items.len() > 0 {
            Some(&items[0])
        } else {
            None
        },
        _ => None,
    }
}

/// The characters of a JSON string.
pub fn as_str<'a>(doc: Option<&'a Json>) -> (text: Option<&'a str>)
    ensures
        text_in(said_by(doc)) == match text {
            Some(text) => Some(text@),
            None => None,
        },
{
    match doc {
        Some(Json::Text(text)) => Some(text.as_str()),
        _ => None,
    }
}

/// The characters of a JSON string, none where there is no string.
pub fn str_or_empty(doc: Option<&Json>) -> (text: String)
    ensures
        text@ == text_or_empty(said_by(doc)),
{
    match doc {
        Some(Json::Text(text)) => text.clone(),
        _ => String::new(),
    }
}

/// The value of an unsigned number.
pub fn as_u64(doc: Option<&Json>) -> (n: Option<u64>)
    ensures
        n == unsigned_in(said_by(doc)),
{
    match doc {
        Some(Json::Unsigned(n)) => Some(*n),
        _ => None,
    }
}

/// The value of a boolean.
pub fn as_bool(doc: Option<&Json>) -> (flag: Option<bool>)
    ensures
        flag == flag_in(said_by(doc)),
{
    match doc {
        Some(Json::Bool(flag)) => Some(*flag),
        _ => None,
    }
}

impl Clone for Json {
    fn clone(&self) -> (copy: Self)
        ensures
            copy@ == self@,
        decreases self,
    {
        match self {
            Json::Null => Json::Null,
            Json::Bool(flag) => Json::Bool(*flag),
            Json::Unsigned(n) => Json::Unsigned(*n),
            Json::Decimal(digits) => Json::Decimal(digits.clone()),
            Json::Text(text) => Json::Text(text.clone()),
            Json::Array(items) => {
                let total: usize = items.len();
                let mut copies: Vec<Json> = Vec::new();
                let mut i: usize = 0;
                while i < total
                    invariant
                        i <= total,
                        total == items@.len(),
                        copies@.len() == i,
                        *self == Json::Array(*items),
                        forall|k: int| 0 <= k < i ==> said(#[trigger] copies@[k]) == said(items@[k]),
                    decreases total - i,
                {
                    assert(decreases_to!(*self => self->Array_0@[i as int]));
                    let copy = items[i].clone();
                    copies.push(copy);
                    i = i + 1;
                }
                assert(elements_said(copies@) =~= elements_said(items@));
                Json::Array(copies)
            },
            Json::Object(members) => {
                let total: usize = members.len();
                let mut copies: Vec<(String, Json)> = Vec::new();
                let mut i: usize = 0;
                while i < total
                    invariant
                        i <= total,
                        total == members@.len(),
                        copies@.len() == i,
                        *self == Json::Object(*members),
                        forall|k: int|
                            0 <= k < i ==> (#[trigger] copies@[k]).0@ == members@[k].0@ && said(
                                copies@[k].1,
                            ) == said(members@[k].1),
                    decreases total - i,
                {
                    assert(decreases_to!(*self => self->Object_0@[i as int].1));
                    let copy = (members[i].0.clone(), members[i].1.clone());
                    copies.push(copy);
                    i = i + 1;
                }
                assert(members_said(copies@) =~= members_said(members@));
                Json::Object(copies)
            },
        }
    }
}

/// What reading a text as JSON gives: the document, or what is wrong with it.
pub uninterp spec fn parsed_json(text: Seq<char>) -> Result<JsonView, Seq<char>>;

/// What a value of `serde_json` holds.
pub uninterp spec fn value_held(value: serde_json::Value) -> JsonView;

#[verifier::external_type_specification]
#[verifier::external_body]
pub struct ExJsonValue(serde_json::Value);

/// `serde_json::from_str` into a `serde_json::Value`: the value, or the words
/// of the error; which of them, and what they say, depends on the text alone.
#[verifier::external_body]
fn parse_value(text: &str) -> (r: Result<serde_json::Value, String>)
    ensures
        parsed_json(text@) == match r {
            Ok(value) => Ok::<JsonView, Seq<char>>(value_held(value)),
            Err(error) => Err::<JsonView, Seq<char>>(error@),
        },
{
    serde_json::from_str(text).map_err(|error: serde_json::Error| error.to_string())
}

/// A `serde_json::Value` part by part: null, booleans, strings, arrays and
/// objects as they are, an object's members in the order the map gives them,
/// and a number as its `as_u64` or, where it has none, as it is displayed.
#[verifier::external_body]
fn json_of(value: serde_json::Value) -> (json: Json)
    ensures
        json@ == value_held(value),
{
    match value {
        serde_json::Value::Null => Json::Null,
        serde_json::Value::Bool(flag) => Json::Bool(flag),
        serde_json::Value::Number(n) => match n.as_u64() {
            Some(n) => Json::Unsigned(n),
            None => Json::Decimal(n.to_string()),
        },
        serde_json::Value::String(text) => Json::Text(text),
        serde_json::Value::Array(items) => Json::Array(items.into_iter().map(json_of).collect()),
        serde_json::Value::Object(map) => Json::Object(
            map.into_iter().map(|(key, value)| (key, json_of(value))).collect(),
        ),
    }
}

/// Reads a text as JSON.
pub fn parse_json(text: &str) -> (r: Result<Json, String>)
    ensures
        parsed_json(text@) == match r {
            Ok(json) => Ok::<JsonView, Seq<char>>(json@),
            Err(error) => Err::<JsonView, Seq<char>>(error@),
        },
{
    match parse_value(text) {
        Ok(value) => Ok(json_of(value)),
        Err(error) => Err(error),
    }
}

/// What stands under a key of an object is what its first member of that name
/// holds; an object without such a member has nothing there, and neither has
/// any other document.
pub proof fn law_first_members_are_found(
    before: Seq<(Seq<char>, JsonView)>,
    key: Seq<char>,
    value: JsonView,
    behind: Seq<(Seq<char>, JsonView)>,
    doc: JsonView,
)
    requires
        forall|k: int| 0 <= k < before.len() ==> (#[trigger] before[k]).0 != key,
    ensures
        member(Some(JsonView::Object(before)), key) is None,
        member(Some(JsonView::Object(before.push((key, value)) + behind)), key) == Some(value),
        !(doc is Object) ==> member(Some(doc), key) is None,
        member(None, key) is None,
{
    let all = before.push((key, value)) + behind;
    lemma_member_missing(before, key);
    assert forall|k: int| 0 <= k < before.len() implies (#[trigger] all[k]).0 != key by {
        assert(all[k] == before[k]);
    }
    lemma_member_found(all, key, before.len() as int);
}

/// A document is read as what it is and as nothing else: strings as their
/// characters, numbers, booleans and arrays as they stand.
pub proof fn law_documents_are_read_as_they_are(
    doc: JsonView,
    text: Seq<char>,
    n: u64,
    flag: bool,
    items: Seq<JsonView>,
)
    ensures
        text_in(Some(JsonView::Text(text))) == Some(text),
        text_or_empty(Some(JsonView::Text(text))) == text,
        unsigned_in(Some(JsonView::Unsigned(n))) == Some(n),
        flag_in(Some(JsonView::Bool(flag))) == Some(flag),
        elements(Some(JsonView::Array(items))) == Some(items),
        items.len() > 0 ==> first_element(Some(JsonView::Array(items))) == Some(items[0]),
        items.len() == 0 ==> first_element(Some(JsonView::Array(items))) is None,
        !(doc is Text) ==> text_in(Some(doc)) is None && text_or_empty(Some(doc)).len() == 0,
        !(doc is Unsigned) ==> unsigned_in(Some(doc)) is None,
        !(doc is Bool) ==> flag_in(Some(doc)) is None,
        !(doc is Array) ==> elements(Some(doc)) is None && first_element(Some(doc)) is None,
        text_in(None) is None,
        text_or_empty(None).len() == 0,
        unsigned_in(None) is None,
        flag_in(None) is None,
        elements(None) is None,
        first_element(None) is None,
{
}

/// A document says what its parts say, one for one and in order.
pub proof fn law_documents_say_their_parts(
    json: Json,
    text: String,
    items: Vec<Json>,
    members: Vec<(String, Json)>,
)
    ensures
        Json::Text(text)@ == JsonView::Text(text@),
        Json::Decimal(text)@ == JsonView::Decimal(text@),
        json matches Json::Unsigned(n) ==> json@ == JsonView::Unsigned(n),
        json matches Json::Bool(flag) ==> json@ == JsonView::Bool(flag),
        json is Null ==> json@ is Null,
        Json::Array(items)@ matches JsonView::Array(all) && all.len() == items@.len() && forall|
            i: int,
        |
            0 <= i < items@.len() ==> #[trigger] all[i] == items@[i]@,
        Json::Object(members)@ matches JsonView::Object(all) && all.len() == members@.len()
            && forall|i: int|
            0 <= i < members@.len() ==> #[trigger] all[i] == (members@[i].0@, members@[i].1@),
{
}

} // verus!
