//! JSON values as the client reads and writes them, and their passage through
//! `serde_json`.

use serde_json::{Number, Value};
use vstd::prelude::*;

use crate::text::same_text;

verus! {

/// A JSON value.
///
/// An object is a row of fields. Where a name occurs twice, the later field is
/// the one that counts.
#[derive(Debug, PartialEq)]
pub enum Json {
    Null,
    Bool(bool),
    Number(Number),
    Text(String),
    Array(Vec<Json>),
    Object(Vec<(String, Json)>),
}

/// What a JSON value means: numbers as integers where they are whole, text as
/// characters, arrays as sequences, objects as maps from names to values.
pub enum JsonView {
    Null,
    Bool(bool),
    Integer(int),
    Fraction(Number),
    Text(Seq<char>),
    Array(Seq<JsonView>),
    Object(Map<Seq<char>, JsonView>),
}

/// `serde_json::Number`, carried through as it is: which integer it is, if it is
/// one, is told by [`whole_number`].
#[verifier::external_type_specification]
#[verifier::external_body]
pub struct ExNumber(Number);

/// `serde_json::Value`, opaque: what it holds is told by [`value_contents`].
#[verifier::external_type_specification]
#[verifier::external_body]
pub struct ExValue(Value);

/// `serde_json::Map`, opaque: what it holds is told by [`map_contents`].
#[verifier::external_type_specification]
#[verifier::external_body]
#[verifier::reject_recursive_types(K)]
#[verifier::reject_recursive_types(V)]
pub struct ExValueMap<K, V>(serde_json::Map<K, V>);

/// `serde_json::Error`, carried through as it is.
#[verifier::external_type_specification]
#[verifier::external_body]
pub struct ExJsonError(serde_json::Error);

/// The integer that a `serde_json::Number` holds, if it holds one and not a
/// floating-point number: what `Number::as_i128` gives.
pub uninterp spec fn whole_number(number: Number) -> Option<int>;

/// What a number means.
pub open spec fn number_view(number: Number) -> JsonView {
    match whole_number(number) {
        Some(integer) => JsonView::Integer(integer),
        None => JsonView::Fraction(number),
    }
}

/// What a `serde_json::Value` holds.
pub uninterp spec fn value_contents(value: Value) -> JsonView;

/// What a `serde_json::Map` holds.
pub uninterp spec fn map_contents(map: serde_json::Map<String, Value>) -> Map<
    Seq<char>,
    JsonView,
>;

pub open spec fn json_view(json: Json) -> JsonView
    decreases json,
{
    match json {
        Json::Null => JsonView::Null,
        Json::Bool(b) => JsonView::Bool(b),
        Json::Number(n) => number_view(n),
        Json::Text(s) => JsonView::Text(s@),
        Json::Array(items) => JsonView::Array(items_view(items@)),
        Json::Object(fields) => JsonView::Object(fields_view(fields@)),
    }
}

pub open spec fn items_view(items: Seq<Json>) -> Seq<JsonView>
    decreases items,
{
    if items.len() == 0 {
        Seq::empty()
    } else {
        items_view(items.drop_last()).push(json_view(items.last()))
    }
}

pub open spec fn fields_view(fields: Seq<(String, Json)>) -> Map<Seq<char>, JsonView>
    decreases fields,
{
    if fields.len() == 0 {
        Map::empty()
    } else {
        fields_view(fields.drop_last()).insert(fields.last().0@, json_view(fields.last().1))
    }
}

/// What an array holds, item by item.
pub proof fn lemma_items_view(items: Seq<Json>)
    ensures
        items_view(items).len() == items.len(),
        forall|i: int| 0 <= i < items.len() ==> #[trigger] items_view(items)[i] == items[i]@,
    decreases items.len(),
{
    if items.len() > 0 {
        lemma_items_view(items.drop_last());
    }
}

/// One more field at the end: its name now stands for its value.
pub proof fn lemma_fields_view_push(fields: Seq<(String, Json)>, field: (String, Json))
    ensures
        fields_view(fields.push(field)) == fields_view(fields).insert(field.0@, field.1@),
{
    assert(fields.push(field).drop_last() == fields);
}

/// What the field of that name holds, in an object that has one.
pub open spec fn field_of(json: JsonView, name: Seq<char>) -> Option<JsonView> {
    match json {
        JsonView::Object(fields) => if fields.contains_key(name) {
            Some(fields[name])
        } else {
            None
        },
        _ => None,
    }
}

impl View for Json {
    type V = JsonView;

    open spec fn view(&self) -> JsonView {
        json_view(*self)
    }
}

/// One layer of a `serde_json::Value`: what is directly inside it.
pub(crate) enum Layer {
    Null,
    Bool(bool),
    Number(Number),
    Text(String),
    Array(Vec<Value>),
    Object(serde_json::Map<String, Value>),
}

pub(crate) open spec fn values_contents(values: Seq<Value>) -> Seq<JsonView> {
    values.map_values(|value: Value| value_contents(value))
}

pub(crate) open spec fn layer_contents(layer: Layer) -> JsonView {
    match layer {
        Layer::Null => JsonView::Null,
        Layer::Bool(b) => JsonView::Bool(b),
        Layer::Number(n) => number_view(n),
        Layer::Text(s) => JsonView::Text(s@),
        Layer::Array(values) => JsonView::Array(values_contents(values@)),
        Layer::Object(map) => JsonView::Object(map_contents(map)),
    }
}

/// Takes a `serde_json::Value` apart by its variants. Claimed: the parts hold
/// what the value held.
#[verifier::external_body]
pub(crate) fn open_value(value: Value) -> (layer: Layer)
    ensures
        layer_contents(layer) == value_contents(value),
{
    match value {
        Value::Null => Layer::Null,
        Value::Bool(b) => Layer::Bool(b),
        Value::Number(n) => Layer::Number(n),
        Value::String(s) => Layer::Text(s),
        Value::Array(values) => Layer::Array(values),
        Value::Object(map) => Layer::Object(map),
    }
}

/// Puts a `serde_json::Value` together by its variants. Claimed: the value holds
/// what the parts held.
#[verifier::external_body]
pub(crate) fn close_value(layer: Layer) -> (value: Value)
    ensures
        value_contents(value) == layer_contents(layer),
{
    match layer {
        Layer::Null => Value::Null,
        Layer::Bool(b) => Value::Bool(b),
        Layer::Number(n) => Value::Number(n),
        Layer::Text(s) => Value::String(s),
        Layer::Array(values) => Value::Array(values),
        Layer::Object(map) => Value::Object(map),
    }
}

/// What a row of entries holds, the later of two entries of one name counting.
pub(crate) open spec fn entries_contents(entries: Seq<(String, Value)>) -> Map<
    Seq<char>,
    JsonView,
>
    decreases entries.len(),
{
    if entries.len() == 0 {
        Map::empty()
    } else {
        entries_contents(entries.drop_last()).insert(
            entries.last().0@,
            value_contents(entries.last().1),
        )
    }
}

pub(crate) open spec fn distinct_names(entries: Seq<(String, Value)>) -> bool {
    forall|i: int, j: int|
        0 <= i < j < entries.len() ==> (#[trigger] entries[i]).0@ != (#[trigger] entries[j]).0@
}

/// Calls `serde_json::Map::new`. Claimed: the map is empty.
#[verifier::external_body]
pub(crate) fn new_map() -> (map: serde_json::Map<String, Value>)
    ensures
        map_contents(map).is_empty(),
{
    serde_json::Map::new()
}

/// Calls `serde_json::Map::insert`. Claimed: the name now stands for the value,
/// whatever it stood for before, and nothing else changes.
#[verifier::external_body]
pub(crate) fn insert_entry(map: &mut serde_json::Map<String, Value>, name: String, value: Value)
    ensures
        map_contents(*final(map)) == map_contents(*old(map)).insert(name@, value_contents(value)),
{
    map.insert(name, value);
}

/// Calls `serde_json::Map::into_iter`. Claimed: it hands out every entry of the
/// map once.
#[verifier::external_body]
pub(crate) fn map_entries(map: serde_json::Map<String, Value>) -> (entries: Vec<(String, Value)>)
    ensures
        entries_contents(entries@) == map_contents(map),
        distinct_names(entries@),
{
    map.into_iter().collect()
}

proof fn lemma_entry_in_contents(entries: Seq<(String, Value)>, i: int)
    requires
        0 <= i < entries.len(),
        distinct_names(entries),
    ensures
        entries_contents(entries).dom().finite(),
        entries_contents(entries).contains_key(entries[i].0@),
        entries_contents(entries)[entries[i].0@] == value_contents(entries[i].1),
    decreases entries.len(),
{
    let shorter = entries.drop_last();
    assert(shorter.len() == 0 ==> entries_contents(shorter).dom() == Set::<Seq<char>>::empty());
    if i < shorter.len() {
        lemma_entry_in_contents(shorter, i);
        assert(shorter[i] == entries[i]);
        assert(entries[i].0@ != entries[entries.len() - 1].0@);
    } else if shorter.len() > 0 {
        lemma_entry_in_contents(shorter, 0);
    }
}

/// The JSON value that a `serde_json::Value` holds.
pub fn import_value(value: Value) -> (json: Json)
    ensures
        json@ == value_contents(value),
    decreases value_contents(value),
{
    let ghost whole = value_contents(value);
    match open_value(value) {
        Layer::Null => Json::Null,
        Layer::Bool(b) => Json::Bool(b),
        Layer::Number(n) => Json::Number(n),
        Layer::Text(s) => Json::Text(s),
        Layer::Array(values) => {
            let ghost row = values@;
            let mut items: Vec<Json> = Vec::new();
            for inner in it: values
                invariant
                    it.seq() == row,
                    items_view(items@) == values_contents(row.take(it.index() as int)),
                    whole == value_contents(value),
                    whole == JsonView::Array(values_contents(row)),
            {
                let ghost i = it.index() as int;
                assert(values_contents(row)[i] == value_contents(row[i]));
                assert(decreases_to!(whole => whole->Array_0));
                assert(decreases_to!(whole->Array_0 => whole->Array_0[i]));
                let item = import_value(inner);
                let ghost before = items@;
                items.push(item);
                assert(items@.drop_last() == before);
                assert(values_contents(row.take(i + 1)) == values_contents(row.take(i)).push(
                    value_contents(row[i]),
                ));
            }
            assert(row.take(row.len() as int) == row);
            Json::Array(items)
        },
        Layer::Object(map) => {
            let entries = map_entries(map);
            let ghost row = entries@;
            let mut fields: Vec<(String, Json)> = Vec::new();
            for entry in it: entries
                invariant
                    it.seq() == row,
                    distinct_names(row),
                    fields_view(fields@) == entries_contents(row.take(it.index() as int)),
                    whole == value_contents(value),
                    whole == JsonView::Object(entries_contents(row)),
            {
                let ghost i = it.index() as int;
                proof {
                    lemma_entry_in_contents(row, i);
                    let contents = entries_contents(row);
                    assert(decreases_to!(whole => whole->Object_0));
                    assert(decreases_to!(contents => contents[row[i].0@]));
                }
                let (name, inner) = entry;
                let item = import_value(inner);
                let ghost before = fields@;
                fields.push((name, item));
                assert(fields@.drop_last() == before);
                assert(row.take(i + 1).drop_last() == row.take(i));
            }
            assert(row.take(row.len() as int) == row);
            Json::Object(fields)
        },
    }
}

/// The `serde_json::Value` that holds a JSON value.
pub fn export_value(json: Json) -> (value: Value)
    ensures
        value_contents(value) == json@,
    decreases json,
{
    match json {
        Json::Null => close_value(Layer::Null),
        Json::Bool(b) => close_value(Layer::Bool(b)),
        Json::Number(n) => close_value(Layer::Number(n)),
        Json::Text(s) => close_value(Layer::Text(s)),
        Json::Array(items) => {
            let ghost row = items@;
            let mut values: Vec<Value> = Vec::new();
            for inner in it: items
                invariant
                    it.seq() == row,
                    row == items@,
                    json == Json::Array(items),
                    values_contents(values@) == items_view(row.take(it.index() as int)),
            {
                let ghost i = it.index() as int;
                assert(decreases_to!(json => json->Array_0));
                assert(decreases_to!(json->Array_0 => json->Array_0@));
                assert(decreases_to!(json->Array_0@ => json->Array_0@[i]));
                assert(row[i] == inner);
                let value = export_value(inner);
                let ghost before = values@;
                values.push(value);
                assert(values_contents(values@) == values_contents(before).push(
                    value_contents(value),
                ));
                assert(row.take(i + 1).drop_last() == row.take(i));
            }
            assert(row.take(row.len() as int) == row);
            close_value(Layer::Array(values))
        },
        Json::Object(fields) => {
            let ghost row = fields@;
            let mut map = new_map();
            for field in it: fields
                invariant
                    it.seq() == row,
                    row == fields@,
                    json == Json::Object(fields),
                    map_contents(map) == fields_view(row.take(it.index() as int)),
            {
                let ghost i = it.index() as int;
                assert(row[i] == field);
                assert(decreases_to!(json => json->Object_0));
                assert(decreases_to!(json->Object_0 => json->Object_0@));
                assert(decreases_to!(json->Object_0@ => json->Object_0@[i]));
                assert(decreases_to!(json->Object_0@[i] => json->Object_0@[i].1));
                let (name, inner) = field;
                let value = export_value(inner);
                insert_entry(&mut map, name, value);
                assert(row.take(i + 1).drop_last() == row.take(i));
            }
            assert(row.take(row.len() as int) == row);
            close_value(Layer::Object(map))
        },
    }
}

impl Json {
    /// The value of the field of that name, where this is an object that has one.
    pub fn field(&self, name: &str) -> (found: Option<&Json>)
        ensures
            match found {
                Some(json) => field_of(self@, name@) == Some(json@),
                None => field_of(self@, name@) is None,
            },
    {
        match self {
            Json::Object(fields) => {
                let mut end: usize = fields.len();
                assert(fields@.take(end as int) == fields@);
                while end > 0
                    invariant
                        end <= fields@.len(),
                        fields_view(fields@.take(end as int)).contains_key(name@) <==> fields_view(
                            fields@,
                        ).contains_key(name@),
                        fields_view(fields@).contains_key(name@) ==> fields_view(
                            fields@.take(end as int),
                        )[name@] == fields_view(fields@)[name@],
                        self@ == JsonView::Object(fields_view(fields@)),
                    decreases end,
                {
                    assert(fields@.take(end as int).drop_last() == fields@.take(end - 1));
                    let field = &fields[end - 1];
                    if same_text(field.0.as_str(), name) {
                        return Some(&field.1);
                    }
                    end = end - 1;
                }
                None
            },
            _ => None,
        }
    }
}

/// The object of one field.
pub open spec fn one_field(name: Seq<char>, json: JsonView) -> JsonView {
    JsonView::Object(Map::empty().insert(name, json))
}

/// Makes [`one_field`].
pub fn object_of_one(name: &str, json: Json) -> (object: Json)
    ensures
        object@ == one_field(name@, json@),
{
    let field = (name.to_owned(), json);
    let mut fields: Vec<(String, Json)> = Vec::new();
    proof {
        lemma_fields_view_push(fields@, field);
    }
    fields.push(field);
    Json::Object(fields)
}

/// Calls `serde_json::Number::from` on a `u64`. Claimed: the number holds that
/// integer.
#[verifier::external_body]
pub(crate) fn number_from(n: u64) -> (number: Number)
    ensures
        whole_number(number) == Some(n as int),
{
    Number::from(n)
}

/// The JSON value that `serde_json` reads in a text, if it reads one.
pub uninterp spec fn text_json(text: Seq<char>) -> Option<JsonView>;

/// Calls `serde_json::from_str` for a `Value`. What it accepts and what it reads
/// is named [`text_json`].
#[verifier::external_body]
pub(crate) fn value_from_text(text: &str) -> (read: Result<Value, serde_json::Error>)
    ensures
        match read {
            Ok(value) => text_json(text@) == Some(value_contents(value)),
            Err(_) => text_json(text@) is None,
        },
{
    serde_json::from_str(text)
}

/// The JSON value that `serde_json` reads in a run of bytes, if it reads one.
pub uninterp spec fn bytes_json(bytes: Seq<u8>) -> Option<JsonView>;

/// Calls `serde_json::from_slice` for a `Value`. What it accepts and what it
/// reads is named [`bytes_json`].
#[verifier::external_body]
pub(crate) fn value_from_bytes(bytes: &[u8]) -> (read: Result<Value, serde_json::Error>)
    ensures
        match read {
            Ok(value) => bytes_json(bytes@) == Some(value_contents(value)),
            Err(_) => bytes_json(bytes@) is None,
        },
{
    serde_json::from_slice(bytes)
}

/// The text that `serde_json` writes for a JSON value.
pub uninterp spec fn json_text(json: JsonView) -> Seq<char>;

/// How deep arrays and objects may be nested in a text that `serde_json` reads.
pub const DEPTH_LIMIT: u64 = 127;

/// Whether a value is sure to be read back as it was written: nested no deeper
/// than that, and with no numbers but integers.
pub open spec fn reads_back(json: JsonView, depth: nat) -> bool
    decreases json,
{
    match json {
        JsonView::Null => true,
        JsonView::Bool(_) => true,
        JsonView::Integer(_) => true,
        JsonView::Fraction(_) => false,
        JsonView::Text(_) => true,
        JsonView::Array(items) => {
            &&& depth > 0
            &&& forall|i: int|
                0 <= i < items.len() ==> reads_back(#[trigger] items[i], (depth - 1) as nat)
        },
        JsonView::Object(fields) => {
            &&& depth > 0
            &&& fields.dom().finite()
            &&& forall|name: Seq<char>|
                fields.contains_key(name) && fields.dom().finite() ==> reads_back(
                    #[trigger] fields[name],
                    (depth - 1) as nat,
                )
        },
    }
}

/// Calls `serde_json::to_string` on a `Value`, which cannot fail. What it writes,
/// with the crate's default features, is named [`json_text`]. Claimed besides: the text is a single line, since the
/// compact form puts no line feed between tokens and escapes those in strings;
/// and `serde_json::from_str` reads the value back from it, unless it holds a
/// floating-point number or is nested past [`DEPTH_LIMIT`]. Every integer that a
/// `Number` can hold, of either sign, is written in digits and read as the same
/// integer. Of the values so left out nothing is claimed, since a fraction may
/// come back rounded and deeper nesting is refused.
#[verifier::external_body]
pub(crate) fn value_to_text(value: &Value) -> (text: String)
    ensures
        text@ == json_text(value_contents(*value)),
        !text@.contains('\n'),
        reads_back(value_contents(*value), DEPTH_LIMIT as nat) ==> text_json(text@) == Some(
            value_contents(*value),
        ),
{
    serde_json::to_string(value).unwrap()
}

/// Reads one JSON value from a text; `None` where the text is not JSON.
pub fn parse_text(text: &str) -> (json: Option<Json>)
    ensures
        match json {
            Some(read) => text_json(text@) == Some(read@),
            None => text_json(text@) is None,
        },
{
    match value_from_text(text) {
        Ok(value) => Some(import_value(value)),
        Err(_) => None,
    }
}

/// Reads one JSON value from bytes; `None` where the bytes are not JSON.
pub fn parse_bytes(bytes: &[u8]) -> (json: Option<Json>)
    ensures
        match json {
            Some(read) => bytes_json(bytes@) == Some(read@),
            None => bytes_json(bytes@) is None,
        },
{
    match value_from_bytes(bytes) {
        Ok(value) => Some(import_value(value)),
        Err(_) => None,
    }
}

/// Writes a JSON value as one line of text. The value is read back from it, if it
/// holds no floating-point number and is nested no deeper than [`DEPTH_LIMIT`].
pub fn write_text(json: Json) -> (text: String)
    ensures
        text@ == json_text(json@),
        !text@.contains('\n'),
        reads_back(json@, DEPTH_LIMIT as nat) ==> text_json(text@) == Some(json@),
{
    let value = export_value(json);
    value_to_text(&value)
}

} // verus!
