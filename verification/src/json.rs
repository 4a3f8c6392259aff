//! JSON values as the library reads and builds them.

use crate::serde_value::{number_as_i64, number_clone, number_integer};
use vstd::prelude::*;

verus! {

/// What a JSON value is: the model over which every contract speaks of JSON.
///
/// Integers are integers, however they are stored. A number that is no integer
/// is carried as the number type of `serde_json` gives it. An object is a map
/// from its keys; the order in which its fields were written is no part of it.
#[verifier::ext_equal]
pub enum JsonView {
    Null,
    Bool(bool),
    Int(int),
    Float(serde_json::Number),
    Str(Seq<char>),
    Array(Seq<JsonView>),
    Object(Map<Seq<char>, JsonView>),
}

/// The map of an object without fields.
pub open spec fn no_fields() -> Map<Seq<char>, JsonView> {
    Map::empty()
}

/// The integer `i` as an `i64`, if there is one and it fits.
pub open spec fn i64_of(i: Option<int>) -> Option<i64> {
    match i {
        Some(i) => if i64::MIN <= i <= i64::MAX {
            Some(i as i64)
        } else {
            None
        },
        None => None,
    }
}

impl JsonView {
    /// The field `key` of an object.
    pub open spec fn get(self, key: Seq<char>) -> Option<JsonView> {
        match self {
            JsonView::Object(fields) => if fields.contains_key(key) {
                Some(fields[key])
            } else {
                None
            },
            _ => None,
        }
    }

    /// The field `inner` of the field `outer`.
    pub open spec fn get2(self, outer: Seq<char>, inner: Seq<char>) -> Option<JsonView> {
        match self.get(outer) {
            Some(value) => value.get(inner),
            None => None,
        }
    }
}

/// The text of a string value.
pub open spec fn as_str(value: Option<JsonView>) -> Option<Seq<char>> {
    match value {
        Some(JsonView::Str(s)) => Some(s),
        _ => None,
    }
}

/// The value of an integer that fits an `i64`.
pub open spec fn as_i64(value: Option<JsonView>) -> Option<i64> {
    match value {
        Some(JsonView::Int(i)) => i64_of(Some(i)),
        _ => None,
    }
}

/// A JSON value.
///
/// The fields of an object stand in the order in which they were set; where a
/// key occurs more than once, the last field with that key counts.
#[derive(Debug, PartialEq)]
pub enum Json {
    Null,
    Bool(bool),
    Int(i64),
    UInt(u64),
    Float(serde_json::Number),
    Str(String),
    Array(Vec<Json>),
    Object(Vec<(String, Json)>),
}

/// What a number of `serde_json` stands for.
pub open spec fn number_view(n: serde_json::Number) -> JsonView {
    match number_integer(n) {
        Some(i) => JsonView::Int(i),
        None => JsonView::Float(n),
    }
}

/// What a `Json` stands for.
pub open spec fn json_view(j: Json) -> JsonView
    decreases j,
{
    match j {
        Json::Null => JsonView::Null,
        Json::Bool(b) => JsonView::Bool(b),
        Json::Int(i) => JsonView::Int(i as int),
        Json::UInt(u) => JsonView::Int(u as int),
        Json::Float(n) => number_view(n),
        Json::Str(s) => JsonView::Str(s@),
        Json::Array(items) => JsonView::Array(array_view(items@)),
        Json::Object(fields) => JsonView::Object(object_view(fields@)),
    }
}

/// What the items of an array stand for.
pub open spec fn array_view(items: Seq<Json>) -> Seq<JsonView>
    decreases items,
{
    Seq::new(
        items.len(),
        |i: int|
            if 0 <= i < items.len() {
                json_view(items[i])
            } else {
                JsonView::Null
            },
    )
}

/// What the fields of an object stand for: each is set in turn.
pub open spec fn object_view(fields: Seq<(String, Json)>) -> Map<Seq<char>, JsonView>
    decreases fields,
{
    if fields.len() == 0 {
        Map::empty()
    } else {
        object_view(fields.drop_last()).insert(fields.last().0@, json_view(fields.last().1))
    }
}

impl View for Json {
    type V = JsonView;

    open spec fn view(&self) -> JsonView {
        json_view(*self)
    }
}

/// What an optional value stands for.
pub open spec fn opt_view(value: Option<Json>) -> Option<JsonView> {
    match value {
        Some(j) => Some(j@),
        None => None,
    }
}

/// What an optional borrowed value stands for.
pub open spec fn opt_ref_view(value: Option<&Json>) -> Option<JsonView> {
    match value {
        Some(j) => Some(j@),
        None => None,
    }
}

/// What an optional borrowed text holds.
pub open spec fn opt_str_view(value: Option<&str>) -> Option<Seq<char>> {
    match value {
        Some(s) => Some(s@),
        None => None,
    }
}

/// One item more stands for one value more.
pub proof fn lemma_array_view_push(items: Seq<Json>, item: Json)
    ensures
        array_view(items.push(item)) == array_view(items).push(item@),
{
}

/// Setting one more field sets it in the map.
pub proof fn lemma_object_view_push(fields: Seq<(String, Json)>, key: String, value: Json)
    ensures
        object_view(fields.push((key, value))) == object_view(fields).insert(key@, value@),
{
    assert(fields.push((key, value)).drop_last() =~= fields);
}

impl Clone for Json {
    /// The copy stands for the same value.
    fn clone(&self) -> (r: Self)
        ensures
            r@ == self@,
        decreases self,
    {
        match self {
            Json::Null => Json::Null,
            Json::Bool(b) => Json::Bool(*b),
            Json::Int(i) => Json::Int(*i),
            Json::UInt(u) => Json::UInt(*u),
            Json::Float(n) => Json::Float(number_clone(n)),
            Json::Str(s) => Json::Str(s.clone()),
            Json::Array(items) => Json::Array(clone_items(items)),
            Json::Object(fields) => Json::Object(clone_fields(fields)),
        }
    }
}

/// A copy of the items of an array.
fn clone_items(items: &Vec<Json>) -> (r: Vec<Json>)
    ensures
        array_view(r@) == array_view(items@),
    decreases items,
{
    let mut copy: Vec<Json> = Vec::new();
    for i in 0..items.len()
        invariant
            array_view(copy@) == array_view(items@.take(i as int)),
    {
        let item = items[i].clone();
        proof {
            lemma_array_view_push(copy@, item);
            lemma_array_view_push(items@.take(i as int), items@[i as int]);
            assert(items@.take(i + 1) =~= items@.take(i as int).push(items@[i as int]));
        }
        copy.push(item);
    }
    assert(items@.take(items@.len() as int) =~= items@);
    copy
}

/// A copy of the fields of an object.
fn clone_fields(fields: &Vec<(String, Json)>) -> (r: Vec<(String, Json)>)
    ensures
        object_view(r@) == object_view(fields@),
    decreases fields,
{
    let mut copy: Vec<(String, Json)> = Vec::new();
    for i in 0..fields.len()
        invariant
            object_view(copy@) == object_view(fields@.take(i as int)),
    {
        let key = fields[i].0.clone();
        let value = fields[i].1.clone();
        proof {
            lemma_object_view_push(copy@, key, value);
            lemma_object_view_push(fields@.take(i as int), fields@[i as int].0, fields@[i as int].1);
            assert(fields@.take(i + 1) =~= fields@.take(i as int).push(fields@[i as int]));
        }
        copy.push((key, value));
    }
    assert(fields@.take(fields@.len() as int) =~= fields@);
    copy
}

impl Json {
    /// The field `key`, where this is an object that has it.
    pub fn get(&self, key: &str) -> (r: Option<&Json>)
        ensures
            opt_ref_view(r) == self@.get(key@),
    {
        match self {
            Json::Object(fields) => {
                let mut i: usize = fields.len();
                assert(fields@.take(i as int) =~= fields@);
                while i > 0
                    invariant
                        i <= fields.len(),
                        *self == Json::Object(*fields),
                        JsonView::Object(object_view(fields@)).get(key@) == JsonView::Object(
                            object_view(fields@.take(i as int)),
                        ).get(key@),
                    decreases i,
                {
                    assert(fields@.take(i as int).drop_last() =~= fields@.take(i - 1));
                    i = i - 1;
                    if fields[i].0.as_str().eq(key) {
                        return Some(&fields[i].1);
                    }
                }
                None
            },
            _ => None,
        }
    }

    /// The text, where this is a string.
    pub fn as_str(&self) -> (r: Option<&str>)
        ensures
            opt_str_view(r) == as_str(Some(self@)),
    {
        match self {
            Json::Str(s) => Some(s.as_str()),
            _ => None,
        }
    }

    /// The value, where this is an integer that fits.
    pub fn as_i64(&self) -> (r: Option<i64>)
        ensures
            r == as_i64(Some(self@)),
    {
        match self {
            Json::Int(i) => Some(*i),
            Json::UInt(u) => if *u <= i64::MAX as u64 {
                Some(*u as i64)
            } else {
                None
            },
            Json::Float(n) => number_as_i64(n),
            _ => None,
        }
    }

    /// The text of the field `key`.
    pub fn get_str(&self, key: &str) -> (r: Option<&str>)
        ensures
            opt_str_view(r) == as_str(self@.get(key@)),
    {
        match self.get(key) {
            Some(value) => value.as_str(),
            None => None,
        }
    }

    /// The value of the integer field `key`.
    pub fn get_i64(&self, key: &str) -> (r: Option<i64>)
        ensures
            r == as_i64(self@.get(key@)),
    {
        match self.get(key) {
            Some(value) => value.as_i64(),
            None => None,
        }
    }

    /// The text of the field `inner` of the field `outer`.
    pub fn get2_str(&self, outer: &str, inner: &str) -> (r: Option<&str>)
        ensures
            opt_str_view(r) == as_str(self@.get2(outer@, inner@)),
    {
        match self.get(outer) {
            Some(value) => value.get_str(inner),
            None => None,
        }
    }

    /// The value of the integer field `inner` of the field `outer`.
    pub fn get2_i64(&self, outer: &str, inner: &str) -> (r: Option<i64>)
        ensures
            r == as_i64(self@.get2(outer@, inner@)),
    {
        match self.get(outer) {
            Some(value) => value.get_i64(inner),
            None => None,
        }
    }

    /// A string value.
    pub fn text(text: &str) -> (r: Json)
        ensures
            r@ == JsonView::Str(text@),
    {
        Json::Str(text.to_owned())
    }
}

/// The fields of an object under construction.
pub struct Fields {
    fields: Vec<(String, Json)>,
}

impl View for Fields {
    type V = Map<Seq<char>, JsonView>;

    closed spec fn view(&self) -> Map<Seq<char>, JsonView> {
        object_view(self.fields@)
    }
}

impl Fields {
    /// No fields.
    pub fn new() -> (r: Fields)
        ensures
            r@ == no_fields(),
    {
        Fields { fields: Vec::new() }
    }

    /// One field more.
    pub fn with(self, key: &str, value: Json) -> (r: Fields)
        ensures
            r@ == self@.insert(key@, value@),
    {
        let mut fields = self.fields;
        let key = key.to_owned();
        proof {
            lemma_object_view_push(fields@, key, value);
        }
        fields.push((key, value));
        Fields { fields }
    }

    /// One field more, which holds a string.
    pub fn with_str(self, key: &str, text: &str) -> (r: Fields)
        ensures
            r@ == self@.insert(key@, JsonView::Str(text@)),
    {
        self.with(key, Json::text(text))
    }

    /// The object with these fields.
    pub fn object(self) -> (r: Json)
        ensures
            r@ == JsonView::Object(self@),
    {
        Json::Object(self.fields)
    }
}

} // verus!
