//! JSON documents as plain values.

use serde_json::Value;
use vstd::prelude::*;
use vstd::string::*;

verus! {

/// A JSON value.
#[derive(Debug, PartialEq, Eq)]
pub enum Json {
    Null,
    Bool(bool),
    /// A number that is a 64-bit integer.
    Number(i64),
    /// Any other number.
    Real,
    Text(String),
    List(Vec<Json>),
    /// The fields of an object, each key once.
    Object(Vec<(String, Json)>),
}

/// What a JSON value holds.
pub enum JsonView {
    Null,
    Bool(bool),
    Number(i64),
    Real,
    Text(Seq<char>),
    List(Seq<JsonView>),
    Object(Seq<(Seq<char>, JsonView)>),
}

/// What a value holds.
pub open spec fn json_view(j: Json) -> JsonView
    decreases j, 1int,
{
    match j {
        Json::Null => JsonView::Null,
        Json::Bool(b) => JsonView::Bool(b),
        Json::Number(n) => JsonView::Number(n),
        Json::Real => JsonView::Real,
        Json::Text(s) => JsonView::Text(s@),
        Json::List(items) => JsonView::List(list_views(items@)),
        Json::Object(fields) => JsonView::Object(field_views(fields@)),
    }
}

/// What the items of a list hold, item by item.
pub open spec fn list_views(items: Seq<Json>) -> Seq<JsonView>
    decreases items, 0int,
{
    if items.len() == 0 {
        Seq::empty()
    } else {
        list_views(items.drop_last()).push(json_view(items.last()))
    }
}

/// What the fields of an object hold, field by field.
pub open spec fn field_views(fields: Seq<(String, Json)>) -> Seq<(Seq<char>, JsonView)>
    decreases fields, 0int,
{
    if fields.len() == 0 {
        Seq::empty()
    } else {
        field_views(fields.drop_last()).push((fields.last().0@, json_view(fields.last().1)))
    }
}

impl View for Json {
    type V = JsonView;

    open spec fn view(&self) -> JsonView {
        json_view(*self)
    }
}

/// The views of the items of a list stand at the places of the items.
pub proof fn lemma_list_views(items: Seq<Json>)
    ensures
        list_views(items).len() == items.len(),
        forall|i: int|
            0 <= i < items.len() ==> list_views(items)[i] == json_view(#[trigger] items[i]),
    decreases items.len(),
{
    if items.len() > 0 {
        let front = items.drop_last();
        lemma_list_views(front);
        assert forall|i: int| 0 <= i < items.len() implies list_views(items)[i] == json_view(
            #[trigger] items[i],
        ) by {
            if i < front.len() {
                assert(front[i] == items[i]);
            }
        }
    }
}

/// The views of the fields of an object stand at the places of the fields.
pub proof fn lemma_field_views(fields: Seq<(String, Json)>)
    ensures
        field_views(fields).len() == fields.len(),
        forall|i: int|
            0 <= i < fields.len() ==> field_views(fields)[i] == ((#[trigger] fields[i]).0@, json_view(
                fields[i].1,
            )),
    decreases fields.len(),
{
    if fields.len() > 0 {
        let front = fields.drop_last();
        lemma_field_views(front);
        assert forall|i: int| 0 <= i < fields.len() implies field_views(fields)[i] == (
            (#[trigger] fields[i]).0@,
            json_view(fields[i].1),
        ) by {
            if i < front.len() {
                assert(front[i] == fields[i]);
            }
        }
    }
}

/// The value of the first field with the key, from the place `from` on.
pub open spec fn find_field(fields: Seq<(Seq<char>, JsonView)>, key: Seq<char>, from: int) -> Option<
    JsonView,
>
    decreases fields.len() - from,
{
    if from < 0 || from >= fields.len() {
        None
    } else if fields[from].0 == key {
        Some(fields[from].1)
    } else {
        find_field(fields, key, from + 1)
    }
}

impl JsonView {
    /// The items, if the value is a list.
    pub open spec fn items(self) -> Option<Seq<JsonView>> {
        match self {
            JsonView::List(items) => Some(items),
            _ => None,
        }
    }

    /// The text, if the value is a string.
    pub open spec fn text(self) -> Option<Seq<char>> {
        match self {
            JsonView::Text(text) => Some(text),
            _ => None,
        }
    }

    /// The number, if the value is an integer.
    pub open spec fn number(self) -> Option<i64> {
        match self {
            JsonView::Number(n) => Some(n),
            _ => None,
        }
    }

    /// The value of a field, if the value is an object that has the field.
    pub open spec fn field(self, key: Seq<char>) -> Option<JsonView> {
        match self {
            JsonView::Object(fields) => find_field(fields, key, 0),
            _ => None,
        }
    }
}

/// What a value that may be absent holds.
pub open spec fn option_view(j: Option<&Json>) -> Option<JsonView> {
    match j {
        Some(j) => Some(j@),
        None => None,
    }
}

impl Json {
    /// The items, if the value is a list.
    pub fn items(&self) -> (r: Option<&Vec<Json>>)
        ensures
            match r {
                Some(items) => self@.items() == Some(list_views(items@)),
                None => self@.items() is None,
            },
    {
        match self {
            Json::List(items) => Some(items),
            _ => None,
        }
    }

    /// The text, if the value is a string.
    pub fn text(&self) -> (r: Option<&String>)
        ensures
            match r {
                Some(text) => self@.text() == Some(text@),
                None => self@.text() is None,
            },
    {
        match self {
            Json::Text(text) => Some(text),
            _ => None,
        }
    }

    /// The number, if the value is an integer.
    pub fn number(&self) -> (r: Option<i64>)
        ensures
            r == self@.number(),
    {
        match self {
            Json::Number(n) => Some(*n),
            _ => None,
        }
    }

    /// The value of a field, if the value is an object that has the field.
    pub fn field(&self, key: &str) -> (r: Option<&Json>)
        ensures
            option_view(r) == self@.field(key@),
    {
        match self {
            Json::Object(fields) => {
                let wanted = String::from_str(key);
                let ghost views = field_views(fields@);
                proof {
                    lemma_field_views(fields@);
                }
                let mut i: usize = 0;
                while i < fields.len()
                    invariant
                        i <= fields@.len(),
                        wanted@ == key@,
                        views == field_views(fields@),
                        views.len() == fields@.len(),
                        forall|k: int|
                            0 <= k < fields@.len() ==> views[k] == ((#[trigger] fields@[k]).0@, json_view(
                                fields@[k].1,
                            )),
                        self@.field(key@) == find_field(views, key@, i as int),
                    decreases fields@.len() - i,
                {
                    assert(views[i as int] == (fields@[i as int].0@, json_view(fields@[i as int].1)));
                    if fields[i].0 == wanted {
                        return Some(&fields[i].1);
                    }
                    i = i + 1;
                }
                None
            },
            _ => None,
        }
    }
}

/// The value of `serde_json`.
#[verifier::external_type_specification]
#[verifier::external_body]
pub struct ExValue(Value);

/// What a value of `serde_json` holds.
pub uninterp spec fn value_view(value: Value) -> JsonView;

/// What a text holds that is a JSON document.
pub uninterp spec fn json_document(text: Seq<char>) -> Option<JsonView>;

/// `serde_json::from_str` for a value: what the text holds, or the failure
/// of a text that is no JSON document. The outcome depends on the text
/// alone.
#[verifier::external_body]
fn read_value(text: &str) -> (r: Result<Value, serde_json::Error>)
    ensures
        match r {
            Ok(value) => json_document(text@) == Some(value_view(value)),
            Err(_) => json_document(text@) is None,
        },
{
    serde_json::from_str(text)
}

/// `serde_json::Value`, taken apart variant by variant, with
/// `Number::as_i64` for a number and `Map::iter` for an object: what the
/// value holds. A number comes as an integer where `as_i64` gives one; the
/// fields of an object come in the order in which the map hands them out.
#[verifier::external_body]
fn plain_value(value: &Value) -> (j: Json)
    ensures
        j@ == value_view(*value),
{
    match value {
        Value::Null => Json::Null,
        Value::Bool(b) => Json::Bool(*b),
        Value::Number(n) => n.as_i64().map_or(Json::Real, Json::Number),
        Value::String(s) => Json::Text(s.clone()),
        Value::Array(items) => Json::List(items.iter().map(plain_value).collect()),
        Value::Object(map) => Json::Object(
            map.iter().map(|(key, item)| (key.clone(), plain_value(item))).collect(),
        ),
    }
}

/// Reads a JSON document.
pub fn parse_json(text: &str) -> (r: Option<Json>)
    ensures
        match r {
            Some(j) => json_document(text@) == Some(j@),
            None => json_document(text@) is None,
        },
{
    match read_value(text) {
        Ok(value) => Some(plain_value(&value)),
        Err(_) => None,
    }
}

} // verus!
