//! JSON values.

use crate::text;
use vstd::prelude::*;

verus! {

#[derive(Debug, PartialEq)]
pub enum Json {
    Null,
    Bool(bool),
    Integer(i128),
    /// A number that is not an integer, as it is written.
    Decimal(String),
    Text(String),
    Array(Vec<Json>),
    Object(Vec<(String, Json)>),
}

#[verifier::ext_equal]
pub enum JsonView {
    Null,
    Bool(bool),
    Integer(int),
    Decimal(Seq<char>),
    Text(Seq<char>),
    Array(Seq<JsonView>),
    Object(Seq<(Seq<char>, JsonView)>),
}

impl Json {
    pub open spec fn deep(self) -> JsonView
        decreases self,
    {
        match self {
            Json::Null => JsonView::Null,
            Json::Bool(b) => JsonView::Bool(b),
            Json::Integer(n) => JsonView::Integer(n as int),
            Json::Decimal(s) => JsonView::Decimal(s@),
            Json::Text(s) => JsonView::Text(s@),
            Json::Array(items) => JsonView::Array(
                Seq::new(
                    items@.len(),
                    |i: int|
                        if 0 <= i < items@.len() {
                            items@[i].deep()
                        } else {
                            JsonView::Null
                        },
                ),
            ),
            Json::Object(fields) => JsonView::Object(
                Seq::new(
                    fields@.len(),
                    |i: int|
                        if 0 <= i < fields@.len() {
                            (fields@[i].0@, fields@[i].1.deep())
                        } else {
                            (Seq::empty(), JsonView::Null)
                        },
                ),
            ),
        }
    }
}

impl View for Json {
    type V = JsonView;

    open spec fn view(&self) -> JsonView {
        self.deep()
    }
}

pub open spec fn field_views(fields: Seq<(String, Json)>) -> Seq<(Seq<char>, JsonView)> {
    fields.map_values(|f: (String, Json)| (f.0@, f.1@))
}

pub open spec fn item_views(items: Seq<Json>) -> Seq<JsonView> {
    items.map_values(|item: Json| item@)
}

/// The value of the first field called `key`.
pub open spec fn lookup(fields: Seq<(Seq<char>, JsonView)>, key: Seq<char>) -> Option<JsonView>
    decreases fields.len(),
{
    if fields.len() == 0 {
        None
    } else if fields[0].0 == key {
        Some(fields[0].1)
    } else {
        lookup(fields.drop_first(), key)
    }
}

/// The view of an object or an array is made of the views of its parts.
pub proof fn lemma_parts(json: Json)
    ensures
        match json {
            Json::Object(fields) => json@ == JsonView::Object(field_views(fields@)),
            Json::Array(items) => json@ == JsonView::Array(item_views(items@)),
            _ => true,
        },
{
    match json {
        Json::Object(fields) => {
            assert(json@->Object_0 =~= field_views(fields@));
        },
        Json::Array(items) => {
            assert(json@->Array_0 =~= item_views(items@));
        },
        _ => {},
    }
}

/// Appends a field.
pub fn put(fields: &mut Vec<(String, Json)>, key: &str, value: Json)
    ensures
        field_views(final(fields)@) == field_views(old(fields)@).push((key@, value@)),
{
    fields.push((key.to_owned(), value));
    assert(field_views(fields@) =~= field_views(old(fields)@).push((key@, value@)));
}

/// Appends a field that holds text.
pub fn put_text(fields: &mut Vec<(String, Json)>, key: &str, value: &str)
    ensures
        field_views(final(fields)@) == field_views(old(fields)@).push(
            (key@, JsonView::Text(value@)),
        ),
{
    put(fields, key, Json::Text(value.to_owned()));
}

/// Appends a field that holds an integer.
pub fn put_integer(fields: &mut Vec<(String, Json)>, key: &str, value: i128)
    ensures
        field_views(final(fields)@) == field_views(old(fields)@).push(
            (key@, JsonView::Integer(value as int)),
        ),
{
    put(fields, key, Json::Integer(value));
}

/// An object of `fields`.
pub fn object(fields: Vec<(String, Json)>) -> (json: Json)
    ensures
        json@ == JsonView::Object(field_views(fields@)),
{
    proof {
        lemma_parts(Json::Object(fields));
    }
    Json::Object(fields)
}

/// An array of `items`.
pub fn array(items: Vec<Json>) -> (json: Json)
    ensures
        json@ == JsonView::Array(item_views(items@)),
{
    proof {
        lemma_parts(Json::Array(items));
    }
    Json::Array(items)
}

/// The value of the first field called `key`.
pub fn find_field<'a>(fields: &'a Vec<(String, Json)>, key: &str) -> (r: Option<&'a Json>)
    ensures
        match r {
            Some(json) => lookup(field_views(fields@), key@) == Some(json@),
            None => lookup(field_views(fields@), key@) is None,
        },
{
    let ghost all = field_views(fields@);
    let mut i: usize = 0;
    assert(all.skip(0) =~= all);
    while i < fields.len()
        invariant
            i <= fields.len(),
            all == field_views(fields@),
            lookup(all, key@) == lookup(all.skip(i as int), key@),
        decreases fields.len() - i,
    {
        assert(all.skip(i as int)[0] == (fields@[i as int].0@, fields@[i as int].1@));
        if text::is(&fields[i].0, key) {
            return Some(&fields[i].1);
        }
        assert(all.skip(i as int).drop_first() =~= all.skip(i + 1));
        i += 1;
    }
    None
}

impl Json {
    /// The field `key` of an object.
    pub fn get(&self, key: &str) -> (r: Option<&Json>)
        ensures
            match (r, self@) {
                (Some(json), JsonView::Object(fields)) => lookup(fields, key@) == Some(json@),
                (Some(_), _) => false,
                (None, JsonView::Object(fields)) => lookup(fields, key@) is None,
                (None, _) => true,
            },
    {
        proof {
            lemma_parts(*self);
        }
        match self {
            Json::Object(fields) => find_field(fields, key),
            _ => None,
        }
    }

    /// The item `i` of an array.
    pub fn item(&self, i: usize) -> (r: Option<&Json>)
        ensures
            match (r, self@) {
                (Some(json), JsonView::Array(items)) => i < items.len() && json@ == items[i as int],
                (Some(_), _) => false,
                (None, JsonView::Array(items)) => i >= items.len(),
                (None, _) => true,
            },
    {
        proof {
            lemma_parts(*self);
        }
        match self {
            Json::Array(items) => if i < items.len() {
                Some(&items[i])
            } else {
                None
            },
            _ => None,
        }
    }

    /// The text of a string.
    pub fn as_str(&self) -> (r: Option<&str>)
        ensures
            match (r, self@) {
                (Some(s), JsonView::Text(text)) => s@ == text,
                (Some(_), _) => false,
                (None, JsonView::Text(_)) => false,
                (None, _) => true,
            },
    {
        match self {
            Json::Text(s) => Some(s.as_str()),
            _ => None,
        }
    }
}

} // verus!
