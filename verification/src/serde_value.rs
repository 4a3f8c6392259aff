//! The passage between `Json` and the value type of `serde_json`, and the calls
//! into that crate.

use crate::json::{
    array_view, i64_of, lemma_array_view_push, lemma_object_view_push, no_fields, number_view,
    object_view, opt_view, Json, JsonView,
};
use vstd::prelude::*;

verus! {

/// A number of `serde_json`.
#[verifier::external_type_specification]
#[verifier::external_body]
pub struct ExNumber(serde_json::Number);

/// A value of `serde_json`.
#[verifier::external_type_specification]
#[verifier::external_body]
pub struct ExValue(serde_json::Value);

/// The map behind an object of `serde_json`.
#[verifier::external_type_specification]
#[verifier::external_body]
#[verifier::reject_recursive_types(K)]
#[verifier::reject_recursive_types(V)]
pub struct ExMap<K, V>(serde_json::Map<K, V>);

/// The integer that a number holds; `None` where it holds a float.
pub uninterp spec fn number_integer(n: serde_json::Number) -> Option<int>;

/// What a value holds.
pub uninterp spec fn value_tree(v: serde_json::Value) -> JsonView;

/// What a map holds: what each of its values holds, by key.
pub uninterp spec fn map_tree(
    m: serde_json::Map<String, serde_json::Value>,
) -> Map<Seq<char>, JsonView>;

/// `serde_json::Number::as_i64`: the integer, where the number holds one that
/// fits an `i64`.
#[verifier::external_body]
pub(crate) fn number_as_i64(n: &serde_json::Number) -> (r: Option<i64>)
    ensures
        r == i64_of(number_integer(*n)),
{
    n.as_i64()
}

/// `serde_json::Number::as_u64`: the integer, where the number holds one that is
/// not negative. A number holds no integer beyond the range of `u64`.
#[verifier::external_body]
pub(crate) fn number_as_u64(n: &serde_json::Number) -> (r: Option<u64>)
    ensures
        r == u64_of(number_integer(*n)),
{
    n.as_u64()
}

/// The integer `i` as a `u64`, if there is one and it fits.
pub open spec fn u64_of(i: Option<int>) -> Option<u64> {
    match i {
        Some(i) => if 0 <= i <= u64::MAX {
            Some(i as u64)
        } else {
            None
        },
        None => None,
    }
}

/// `serde_json::Number::from` for an `i64`: a number that holds that integer.
#[verifier::external_body]
pub(crate) fn number_from_i64(i: i64) -> (r: serde_json::Number)
    ensures
        number_integer(r) == Some(i as int),
{
    serde_json::Number::from(i)
}

/// `serde_json::Number::from` for a `u64`: a number that holds that integer.
#[verifier::external_body]
pub(crate) fn number_from_u64(u: u64) -> (r: serde_json::Number)
    ensures
        number_integer(r) == Some(u as int),
{
    serde_json::Number::from(u)
}

/// `serde_json::Number::clone`: the same number.
#[verifier::external_body]
pub(crate) fn number_clone(n: &serde_json::Number) -> (r: serde_json::Number)
    ensures
        r == *n,
{
    n.clone()
}

/// The variants of a value of `serde_json`, with what each holds.
pub(crate) enum Node {
    Null,
    Bool(bool),
    Number(serde_json::Number),
    Str(String),
    Array(Vec<serde_json::Value>),
    Object(serde_json::Map<String, serde_json::Value>),
}

/// What the values in a sequence hold.
pub open spec fn value_trees(values: Seq<serde_json::Value>) -> Seq<JsonView> {
    values.map_values(|v: serde_json::Value| value_tree(v))
}

/// What the values of a sequence of fields hold, by key.
pub open spec fn field_trees(fields: Seq<(String, serde_json::Value)>) -> Map<
    Seq<char>,
    JsonView,
>
    decreases fields.len(),
{
    if fields.len() == 0 {
        Map::empty()
    } else {
        field_trees(fields.drop_last()).insert(fields.last().0@, value_tree(fields.last().1))
    }
}

/// What a value holds, told from its variant.
pub(crate) open spec fn node_tree(n: Node) -> JsonView {
    match n {
        Node::Null => JsonView::Null,
        Node::Bool(b) => JsonView::Bool(b),
        Node::Number(n) => number_view(n),
        Node::Str(s) => JsonView::Str(s@),
        Node::Array(values) => JsonView::Array(value_trees(values@)),
        Node::Object(map) => JsonView::Object(map_tree(map)),
    }
}

/// The variants of `serde_json::Value`, told apart.
#[verifier::external_body]
fn open_value(v: serde_json::Value) -> (n: Node)
    ensures
        node_tree(n) == value_tree(v),
{
    match v {
        serde_json::Value::Null => Node::Null,
        serde_json::Value::Bool(b) => Node::Bool(b),
        serde_json::Value::Number(n) => Node::Number(n),
        serde_json::Value::String(s) => Node::Str(s),
        serde_json::Value::Array(values) => Node::Array(values),
        serde_json::Value::Object(map) => Node::Object(map),
    }
}

/// The variants of `serde_json::Value`, built.
#[verifier::external_body]
fn close_value(n: Node) -> (v: serde_json::Value)
    ensures
        value_tree(v) == node_tree(n),
{
    match n {
        Node::Null => serde_json::Value::Null,
        Node::Bool(b) => serde_json::Value::Bool(b),
        Node::Number(n) => serde_json::Value::Number(n),
        Node::Str(s) => serde_json::Value::String(s),
        Node::Array(values) => serde_json::Value::Array(values),
        Node::Object(map) => serde_json::Value::Object(map),
    }
}

/// `serde_json::Map::new`: a map that holds nothing.
#[verifier::external_body]
fn map_new() -> (m: serde_json::Map<String, serde_json::Value>)
    ensures
        map_tree(m) == no_fields(),
{
    serde_json::Map::new()
}

/// `serde_json::Map::insert`: the key is set, whether or not it was there. The
/// value that it had before is let go.
#[verifier::external_body]
fn map_insert(m: &mut serde_json::Map<String, serde_json::Value>, key: String, v: serde_json::Value)
    ensures
        map_tree(*final(m)) == map_tree(*old(m)).insert(key@, value_tree(v)),
{
    m.insert(key, v);
}

/// `serde_json::Map::into_iter`: each key once, with its value. The order in
/// which the keys come is left open.
#[verifier::external_body]
fn map_into_fields(m: serde_json::Map<String, serde_json::Value>) -> (r: Vec<
    (String, serde_json::Value),
>)
    ensures
        field_trees(r@) == map_tree(m),
        forall|i: int, j: int| 0 <= i < j < r@.len() ==> r@[i].0@ != r@[j].0@,
{
    m.into_iter().collect()
}

/// The value that a JSON text denotes under `serde_json::from_str`; `None` where
/// that call fails.
pub uninterp spec fn parsed_text(text: Seq<char>) -> Option<JsonView>;

/// `serde_json::from_str`: what the text denotes depends on the text alone.
#[verifier::external_body]
fn value_from_text(text: &str) -> (r: Option<serde_json::Value>)
    ensures
        match r {
            Some(v) => parsed_text(text@) == Some(value_tree(v)),
            None => parsed_text(text@) is None,
        },
{
    serde_json::from_str::<serde_json::Value>(text).ok()
}

/// The value that the bytes of a JSON text denote under `serde_json::from_slice`,
/// or, where that call fails, the message of its error.
pub uninterp spec fn parsed_bytes(bytes: Seq<u8>) -> Result<JsonView, Seq<char>>;

/// `serde_json::from_slice`: what the bytes denote, or the message of the error,
/// depends on the bytes alone.
#[verifier::external_body]
fn value_from_bytes(bytes: &[u8]) -> (r: Result<serde_json::Value, String>)
    ensures
        match r {
            Ok(v) => parsed_bytes(bytes@) == Ok::<JsonView, Seq<char>>(value_tree(v)),
            Err(message) => parsed_bytes(bytes@) == Err::<JsonView, Seq<char>>(message@),
        },
{
    serde_json::from_slice::<serde_json::Value>(bytes).map_err(|e| e.to_string())
}

/// The compact JSON text that `serde_json::Value` displays as.
pub uninterp spec fn printed(value: JsonView) -> Seq<char>;

/// Whether a text holds no line break.
pub open spec fn single_line(text: Seq<char>) -> bool {
    forall|i: int| 0 <= i < text.len() ==> text[i] != '\n' && text[i] != '\r'
}

/// Whether a text stands in curly brackets.
pub open spec fn in_braces(text: Seq<char>) -> bool {
    text.len() >= 2 && text[0] == '{' && text.last() == '}'
}

/// The key that `serde_json` keeps for itself: in an object whose text starts with
/// it, its parser sees the JSON text of another value.
pub open spec fn reserved_key() -> Seq<char> {
    "$serde_json::private::RawValue"@
}

/// Whether a key comes before another: by its characters, as their numbers order
/// them, which is how the bytes of UTF-8 order them too.
pub open spec fn comes_before(a: Seq<char>, b: Seq<char>) -> bool
    decreases a.len(),
{
    b.len() > 0 && (a.len() == 0 || a[0] < b[0] || (a[0] == b[0] && comes_before(
        a.skip(1),
        b.skip(1),
    )))
}

/// Whether the first key of an object is the reserved one.
pub open spec fn starts_reserved(fields: Map<Seq<char>, JsonView>) -> bool {
    &&& fields.contains_key(reserved_key())
    &&& forall|key: Seq<char>| #[trigger]
        fields.contains_key(key) ==> !comes_before(key, reserved_key())
}

/// Whether a value nests at most so many levels, holds no number but integers, and
/// has no object whose first key is the reserved one.
pub open spec fn readable(value: JsonView, levels: nat) -> bool
    decreases levels,
{
    match value {
        JsonView::Float(_) => false,
        JsonView::Array(items) => levels > 0 && forall|i: int|
            0 <= i < items.len() ==> readable(#[trigger] items[i], (levels - 1) as nat),
        JsonView::Object(fields) => {
            &&& levels > 0
            &&& !starts_reserved(fields)
            &&& forall|key: Seq<char>|
                fields.contains_key(key) ==> readable(#[trigger] fields[key], (levels - 1) as nat)
        },
        _ => true,
    }
}

/// Whether the text of a value denotes that value.
pub open spec fn reads_back(value: JsonView) -> bool {
    parsed_text(printed(value)) == Some(value)
}

/// `serde_json::Value::to_string`: the text depends on what the value holds
/// alone, for the fields of an object are written in the order of their keys.
/// The compact form puts nothing between the tokens, and within strings every
/// control character is escaped: the text is a single line. That of an object
/// stands in curly brackets. `serde_json::from_str` reads the same value from it,
/// unless a float is rounded on the way, the value nests beyond the 127 levels that
/// the parser allows, or the first key of an object is the one that the parser
/// keeps for itself: on any later key it makes no difference.
#[verifier::external_body]
fn value_to_text(v: &serde_json::Value) -> (r: String)
    ensures
        r@ == printed(value_tree(*v)),
        single_line(r@),
        value_tree(*v) is Object ==> in_braces(r@),
        readable(value_tree(*v), 127) ==> parsed_text(r@) == Some(value_tree(*v)),
{
    v.to_string()
}

/// The values in a sequence, as `Json`.
fn items_from_values(values: Vec<serde_json::Value>) -> (r: Vec<Json>)
    ensures
        array_view(r@) == value_trees(values@),
    decreases value_trees(values@), 0nat,
{
    let ghost all = values@;
    let mut items: Vec<Json> = Vec::new();
    for value in it: values
        invariant
            it.seq() == all,
            array_view(items@) == value_trees(all.take(it.index() as int)),
    {
        let ghost i = it.index() as int;
        assert(value_trees(all)[i] == value_tree(value));
        let item = Json::from_value(value);
        proof {
            lemma_array_view_push(items@, item);
            assert(all.take(i + 1) =~= all.take(i).push(value));
            assert(value_trees(all.take(i + 1)) =~= value_trees(all.take(i)).push(value_tree(value)));
        }
        items.push(item);
    }
    assert(all.take(all.len() as int) =~= all);
    items
}

/// Where no key occurs twice, each field is found under its key.
proof fn lemma_field_trees(fields: Seq<(String, serde_json::Value)>)
    requires
        forall|i: int, j: int| 0 <= i < j < fields.len() ==> fields[i].0@ != fields[j].0@,
    ensures
        field_trees(fields).dom().finite(),
        forall|i: int|
            #![trigger fields[i]]
            0 <= i < fields.len() ==> field_trees(fields).contains_key(fields[i].0@)
                && field_trees(fields)[fields[i].0@] == value_tree(fields[i].1),
    decreases fields.len(),
{
    if fields.len() > 0 {
        let init = fields.drop_last();
        lemma_field_trees(init);
        assert forall|i: int|
            #![trigger fields[i]]
            0 <= i < fields.len() implies field_trees(
            fields,
        ).contains_key(fields[i].0@) && field_trees(fields)[fields[i].0@] == value_tree(
            fields[i].1,
        ) by {
            if i < init.len() {
                assert(init[i] == fields[i]);
            }
        }
    }
}

/// The fields of a map, as fields of a `Json`.
fn fields_from_map(map: serde_json::Map<String, serde_json::Value>) -> (r: Vec<(String, Json)>)
    ensures
        object_view(r@) == map_tree(map),
    decreases map_tree(map), 0nat,
{
    let ghost tree = map_tree(map);
    let fields = map_into_fields(map);
    let ghost all = fields@;
    proof {
        lemma_field_trees(all);
    }
    let mut r: Vec<(String, Json)> = Vec::new();
    for field in it: fields
        invariant
            it.seq() == all,
            tree == map_tree(map),
            tree.dom().finite(),
            forall|i: int|
                #![trigger all[i]]
                0 <= i < all.len() ==> tree.contains_key(all[i].0@) && tree[all[i].0@]
                    == value_tree(all[i].1),
            object_view(r@) == field_trees(all.take(it.index() as int)),
    {
        let ghost i = it.index() as int;
        let ghost f = field;
        let (key, value) = field;
        assert(f == all[i]);
        assert(decreases_to!(tree => tree[key@]));
        let item = Json::from_value(value);
        proof {
            lemma_object_view_push(r@, key, item);
            assert(all.take(i + 1).drop_last() =~= all.take(i));
            assert(all.take(i + 1).last() == f);
        }
        r.push((key, item));
    }
    assert(all.take(all.len() as int) =~= all);
    r
}

impl Json {
    /// A value of `serde_json` as a `Json`.
    pub fn from_value(v: serde_json::Value) -> (r: Json)
        ensures
            r@ == value_tree(v),
        decreases value_tree(v), 0nat,
    {
        let ghost tree = value_tree(v);
        match open_value(v) {
            Node::Null => Json::Null,
            Node::Bool(b) => Json::Bool(b),
            Node::Number(n) => match number_as_i64(&n) {
                Some(i) => Json::Int(i),
                None => match number_as_u64(&n) {
                    Some(u) => Json::UInt(u),
                    None => Json::Float(n),
                },
            },
            Node::Str(s) => Json::Str(s),
            Node::Array(values) => {
                assert(decreases_to!(tree => tree->Array_0));
                Json::Array(items_from_values(values))
            },
            Node::Object(map) => {
                assert(decreases_to!(tree => tree->Object_0));
                Json::Object(fields_from_map(map))
            },
        }
    }

    /// This value as a value of `serde_json`.
    pub fn to_value(&self) -> (r: serde_json::Value)
        ensures
            value_tree(r) == self@,
        decreases self,
    {
        match self {
            Json::Null => close_value(Node::Null),
            Json::Bool(b) => close_value(Node::Bool(*b)),
            Json::Int(i) => close_value(Node::Number(number_from_i64(*i))),
            Json::UInt(u) => close_value(Node::Number(number_from_u64(*u))),
            Json::Float(n) => close_value(Node::Number(number_clone(n))),
            Json::Str(s) => close_value(Node::Str(s.clone())),
            Json::Array(items) => close_value(Node::Array(values_from_items(items))),
            Json::Object(fields) => close_value(Node::Object(map_from_fields(fields))),
        }
    }

    /// The value that a JSON text denotes; `None` where it denotes none.
    pub fn parse(text: &str) -> (r: Option<Json>)
        ensures
            opt_view(r) == parsed_text(text@),
    {
        match value_from_text(text) {
            Some(v) => Some(Json::from_value(v)),
            None => None,
        }
    }

    /// The value that the bytes of a JSON text denote, or why they denote none.
    pub fn parse_bytes(bytes: &[u8]) -> (r: Result<Json, String>)
        ensures
            match r {
                Ok(j) => parsed_bytes(bytes@) == Ok::<JsonView, Seq<char>>(j@),
                Err(message) => parsed_bytes(bytes@) == Err::<JsonView, Seq<char>>(message@),
            },
    {
        match value_from_bytes(bytes) {
            Ok(v) => Ok(Json::from_value(v)),
            Err(message) => Err(message),
        }
    }

    /// The compact JSON text of this value, a single line, and that of an object in
    /// curly brackets. What it denotes is this value again, unless the value holds a
    /// float, nests too deeply, or has an object whose first key is the reserved one.
    pub fn to_text(&self) -> (r: String)
        ensures
            r@ == printed(self@),
            single_line(r@),
            self@ is Object ==> in_braces(r@),
            readable(self@, 127) ==> reads_back(self@),
    {
        value_to_text(&self.to_value())
    }
}

/// The items of an array, as values of `serde_json`.
fn values_from_items(items: &Vec<Json>) -> (r: Vec<serde_json::Value>)
    ensures
        value_trees(r@) == array_view(items@),
    decreases items,
{
    let mut values: Vec<serde_json::Value> = Vec::new();
    for i in 0..items.len()
        invariant
            value_trees(values@) == array_view(items@.take(i as int)),
    {
        let value = items[i].to_value();
        proof {
            lemma_array_view_push(items@.take(i as int), items@[i as int]);
            assert(items@.take(i + 1) =~= items@.take(i as int).push(items@[i as int]));
            assert(value_trees(values@.push(value)) =~= value_trees(values@).push(
                value_tree(value),
            ));
        }
        values.push(value);
    }
    assert(items@.take(items@.len() as int) =~= items@);
    values
}

/// The fields of an object, as a map of `serde_json`.
fn map_from_fields(fields: &Vec<(String, Json)>) -> (r: serde_json::Map<String, serde_json::Value>)
    ensures
        map_tree(r) == object_view(fields@),
    decreases fields,
{
    let mut map = map_new();
    for i in 0..fields.len()
        invariant
            map_tree(map) == object_view(fields@.take(i as int)),
    {
        let key = fields[i].0.clone();
        let value = fields[i].1.to_value();
        proof {
            lemma_object_view_push(fields@.take(i as int), fields@[i as int].0, fields@[i as int].1);
            assert(fields@.take(i + 1) =~= fields@.take(i as int).push(fields@[i as int]));
        }
        map_insert(&mut map, key, value);
    }
    assert(fields@.take(fields@.len() as int) =~= fields@);
    map
}

} // verus!
