//! Laws of JSON values.

use serde_json::{Number, Value};
use vstd::prelude::*;

use crate::json::{
    bytes_json, export_value, fields_view, import_value, json_text, lemma_items_view,
    object_of_one, parse_bytes, parse_text, reads_back, text_json, value_contents,
    whole_number, write_text, Json, JsonView,
};

verus! {

/// Whether a value is the object of exactly these fields.
pub open spec fn is_object(json: JsonView, fields: Map<Seq<char>, JsonView>) -> bool {
    json matches JsonView::Object(found) && found == fields
}

/// Whether a value is an object in which that name stands for that value.
pub open spec fn has_field(json: JsonView, name: Seq<char>, value: JsonView) -> bool {
    json matches JsonView::Object(fields) && fields.contains_key(name) && fields[name] == value
}

/// A plain value means what it holds: whole numbers their integer, text its
/// characters.
pub proof fn law_plain_values(flag: bool, text: String, number: Number, integer: int)
    ensures
        Json::Null@ == JsonView::Null,
        Json::Bool(flag)@ == JsonView::Bool(flag),
        Json::Text(text)@ == JsonView::Text(text@),
        whole_number(number) == Some(integer) ==> Json::Number(number)@ == JsonView::Integer(
            integer,
        ),
        whole_number(number) is None ==> Json::Number(number)@ == JsonView::Fraction(number),
{
}

/// An array means its items, each in its place.
pub proof fn law_arrays(items: Vec<Json>)
    ensures
        Json::Array(items)@ matches JsonView::Array(row) && row.len() == items@.len() && forall|
            i: int,
        |
            0 <= i < row.len() ==> #[trigger] row[i] == items@[i]@,
{
    lemma_items_view(items@);
}

/// Whether the last field of that name is the one at that index.
pub open spec fn last_of_name(fields: Seq<(String, Json)>, name: Seq<char>, i: int) -> bool {
    &&& 0 <= i < fields.len()
    &&& fields[i].0@ == name
    &&& forall|j: int| i < j < fields.len() ==> (#[trigger] fields[j]).0@ != name
}

/// An object holds each name that one of its fields has, with the value of the
/// last field of that name, and no other name.
pub proof fn law_objects(fields: Vec<(String, Json)>, name: Seq<char>, i: int)
    ensures
        ({
            let held = Json::Object(fields)@->Object_0;
            &&& Json::Object(fields)@ is Object
            &&& last_of_name(fields@, name, i) ==> held.contains_key(name) && held[name]
                == fields@[i].1@
            &&& (forall|j: int| 0 <= j < fields@.len() ==> (#[trigger] fields@[j]).0@ != name)
                ==> !held.contains_key(name)
        }),
{
    lemma_fields(fields@, name, i);
}

proof fn lemma_fields(fields: Seq<(String, Json)>, name: Seq<char>, i: int)
    ensures
        last_of_name(fields, name, i) ==> fields_view(fields).contains_key(name) && fields_view(
            fields,
        )[name] == fields[i].1@,
        (forall|j: int| 0 <= j < fields.len() ==> (#[trigger] fields[j]).0@ != name)
            ==> !fields_view(fields).contains_key(name),
    decreases fields.len(),
{
    if fields.len() > 0 {
        let shorter = fields.drop_last();
        let end = fields.len() - 1;
        lemma_fields(shorter, name, i);
        assert(fields[end] == fields.last());
        if last_of_name(fields, name, i) && i < end {
            assert(fields[end].0@ != name);
            assert forall|j: int| i < j < shorter.len() implies (#[trigger] shorter[j]).0@
                != name by {
                assert(fields[j].0@ != name);
            }
            assert(last_of_name(shorter, name, i));
        }
        if forall|j: int| 0 <= j < fields.len() ==> (#[trigger] fields[j]).0@ != name {
            assert forall|j: int| 0 <= j < shorter.len() implies (#[trigger] shorter[j]).0@
                != name by {
                assert(fields[j].0@ != name);
            }
        }
    }
}

/// Looking a name up finds what it stands for, and nothing where it stands for
/// nothing.
pub proof fn law_field(json: Json, name: &str, found: Option<&Json>)
    requires
        call_ensures(Json::field, (&json, name), found),
    ensures
        found matches Some(value) ==> has_field(json@, name@, value@),
        found is None ==> forall|value: JsonView| !#[trigger] has_field(json@, name@, value),
{
}

/// The object of one field has that field and no other.
pub proof fn law_object_of_one(name: &str, json: Json, object: Json)
    requires
        call_ensures(object_of_one, (name, json), object),
    ensures
        is_object(object@, map![name@ => json@]),
{
    assert(object@->Object_0 == map![name@ => json@]);
}

/// Reading gives what stands in the text, and nothing only where that is no JSON;
/// bytes alike.
pub proof fn law_parse(text: &str, read: Option<Json>, bytes: &[u8], found: Option<Json>)
    requires
        call_ensures(parse_text, (text,), read),
        call_ensures(parse_bytes, (bytes,), found),
    ensures
        read is Some <==> text_json(text@) is Some,
        read matches Some(json) ==> text_json(text@) == Some(json@),
        found is Some <==> bytes_json(bytes@) is Some,
        found matches Some(json) ==> bytes_json(bytes@) == Some(json@),
{
}

/// Two values that mean the same are written the same, on a single line.
pub proof fn law_write(left: Json, right: Json, text: String, other: String)
    requires
        call_ensures(write_text, (left,), text),
        call_ensures(write_text, (right,), other),
    ensures
        text@ == json_text(left@),
        left@ == right@ ==> text@ == other@,
        forall|i: int| 0 <= i < text@.len() ==> #[trigger] text@[i] != '\n',
{
    assert forall|i: int| 0 <= i < text@.len() implies #[trigger] text@[i] != '\n' by {
        assert(text@.contains(text@[i]));
    }
}

/// What was written is read again as it was.
pub proof fn law_write_then_read(json: Json, text: String, line: &str, read: Option<Json>)
    requires
        reads_back(json@, 127),
        call_ensures(write_text, (json,), text),
        line@ == text@,
        call_ensures(parse_text, (line,), read),
    ensures
        read matches Some(back) && back@ == json@,
{
}

/// Values without floating-point numbers are sure to be read back: plain ones at
/// any depth, arrays and objects one level deeper than what is in them.
pub proof fn law_reads_back(
    flag: bool,
    integer: int,
    text: Seq<char>,
    items: Seq<JsonView>,
    fields: Map<Seq<char>, JsonView>,
    depth: nat,
)
    requires
        forall|i: int| 0 <= i < items.len() ==> reads_back(#[trigger] items[i], depth),
        fields.dom().finite(),
        forall|name: Seq<char>|
            fields.contains_key(name) ==> reads_back(#[trigger] fields[name], depth),
    ensures
        reads_back(JsonView::Null, depth),
        reads_back(JsonView::Bool(flag), depth),
        reads_back(JsonView::Integer(integer), depth),
        reads_back(JsonView::Text(text), depth),
        reads_back(JsonView::Array(items), depth + 1),
        reads_back(JsonView::Object(fields), depth + 1),
{
}

/// What is taken out of a `serde_json::Value` is what it holds.
pub proof fn law_import(value: Value, json: Json)
    requires
        call_ensures(import_value, (value,), json),
    ensures
        json@ == value_contents(value),
{
}

/// A value goes into a `serde_json::Value` and comes out of it as it was.
pub proof fn law_export_then_import(json: Json, value: Value, back: Json)
    requires
        call_ensures(export_value, (json,), value),
        call_ensures(import_value, (value,), back),
    ensures
        value_contents(value) == json@,
        back@ == json@,
{
}

} // verus!
