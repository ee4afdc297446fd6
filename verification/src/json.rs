//! JSON documents handed to the language model, written by `serde_json`.

use vstd::prelude::*;
use serde_json::Value;

verus! {

/// One member of a JSON object whose values are strings or string lists.
pub enum JsonField {
    /// `"key": "text"`
    Text(String, String),
    /// `"key": ["item", ...]`
    List(String, Vec<String>),
}

/// One member of a JSON object, as values.
pub enum JsonFieldView {
    Text(Seq<char>, Seq<char>),
    List(Seq<char>, Seq<Seq<char>>),
}

impl View for JsonField {
    type V = JsonFieldView;

    open spec fn view(&self) -> JsonFieldView {
        match self {
            JsonField::Text(k, v) => JsonFieldView::Text(k@, v@),
            JsonField::List(k, items) => JsonFieldView::List(
                k@,
                items@.map_values(|s: String| s@),
            ),
        }
    }
}

/// The members of an object, as values.
pub open spec fn fields_view(v: Seq<JsonField>) -> Seq<JsonFieldView> {
    v.map_values(|f: JsonField| f@)
}

/// The members of each object of a list, as values.
pub open spec fn records_view(v: Seq<Vec<JsonField>>) -> Seq<Seq<JsonFieldView>> {
    v.map_values(|r: Vec<JsonField>| fields_view(r@))
}

/// The compact JSON text that `serde_json` writes for the object with
/// these members.
pub uninterp spec fn json_object_text(fields: Seq<JsonFieldView>) -> Seq<char>;

/// The pretty-printed JSON text that `serde_json` writes for the array of
/// objects with these members.
pub uninterp spec fn pretty_json_records(records: Seq<Seq<JsonFieldView>>) -> Seq<char>;

/// Writes the object with the given members, each text as a JSON string
/// and each list as an array of strings, as compact JSON text
/// (`serde_json::Value::to_string`). Trusted: the text is a function of the
/// members alone; what that text is (escaping, key order) is left to
/// `serde_json` and named `json_object_text`.
#[verifier::external_body]
pub(crate) fn json_object_string(fields: &Vec<JsonField>) -> (s: String)
    ensures
        s@ == json_object_text(fields_view(fields@)),
{
    let members = fields.iter().map(|f| match f {
        JsonField::Text(k, v) => (k.clone(), Value::from(v.clone())),
        JsonField::List(k, items) => (k.clone(), Value::from(items.clone())),
    });
    Value::Object(members.collect()).to_string()
}

/// Writes the array of objects with the given members (as
/// `json_object_string` builds each) as pretty-printed JSON text
/// (`serde_json::to_string_pretty`). Trusted: it succeeds, as the
/// documentation of `to_string_pretty` says serialization fails only for a
/// `Serialize` impl that decides to fail or for a map with non-string keys,
/// and a `Value` holding objects of strings has neither; and the text is a
/// function of the members alone, named `pretty_json_records`.
#[verifier::external_body]
pub(crate) fn json_records_pretty(records: &Vec<Vec<JsonField>>) -> (r: Result<String, String>)
    ensures
        r is Ok,
        r matches Ok(s) ==> s@ == pretty_json_records(records_view(records@)),
{
    let values: Vec<Value> = records.iter().map(|fields| Value::Object(fields.iter().map(|f| match f {
        JsonField::Text(k, v) => (k.clone(), Value::from(v.clone())),
        JsonField::List(k, items) => (k.clone(), Value::from(items.clone())),
    }).collect())).collect();
    serde_json::to_string_pretty(&values).map_err(|e| e.to_string())
}

} // verus!
