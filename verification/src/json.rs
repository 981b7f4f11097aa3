//! JSON text, written and read by serde_json.

use vstd::prelude::*;

verus! {

/// The value of one member of a JSON object: a text or a whole number.
#[derive(Clone, Debug, PartialEq, Eq)]
pub enum JsonMember {
    Text(String),
    Number(u64),
}

/// The mathematical model of the value of a member.
pub enum JsonMemberView {
    Text(Seq<char>),
    Number(u64),
}

impl View for JsonMember {
    type V = JsonMemberView;

    open spec fn view(&self) -> JsonMemberView {
        match *self {
            JsonMember::Text(text) => JsonMemberView::Text(text@),
            JsonMember::Number(number) => JsonMemberView::Number(number),
        }
    }
}

/// The models of a list of named values, in order.
pub open spec fn field_views(fields: Seq<(String, JsonMember)>) -> Seq<(Seq<char>, JsonMemberView)> {
    Seq::new(fields.len(), |i: int| (fields[i].0@, fields[i].1@))
}

/// The compact JSON text of an object whose members are the given names, each
/// with its value as a JSON string or number, as serde_json writes it.
pub uninterp spec fn json_object_text(fields: Seq<(Seq<char>, JsonMemberView)>) -> Seq<char>;

/// Builds a `serde_json::Map` from the fields, one member for each, a text as
/// `Value::String` and a number as `Value::from` of it, and calls `to_string`
/// on the `Value::Object` of the map. Trusted: the text is a function of the
/// fields, named `json_object_text`.
#[verifier::external_body]
pub(crate) fn json_object(fields: &Vec<(String, JsonMember)>) -> (text: String)
    ensures
        text@ == json_object_text(field_views(fields@)),
{
    let members: serde_json::Map<String, serde_json::Value> = fields.iter().map(
        |field| (field.0.clone(), match &field.1 {
            JsonMember::Text(text) => serde_json::Value::String(text.clone()),
            JsonMember::Number(number) => serde_json::Value::from(*number),
        }),
    ).collect();
    serde_json::Value::Object(members).to_string()
}

/// The items of the array that is the member `field` of the object that a
/// JSON text holds, each as its text if it is a JSON string and as nothing if
/// it is not; nothing at all unless the text is JSON and holds such an array.
pub uninterp spec fn json_array_items(text: Seq<char>, field: Seq<char>) -> Option<Seq<Option<Seq<char>>>>;

/// The models of a list of strings that may be missing, in order.
pub open spec fn optional_texts(items: Seq<Option<String>>) -> Seq<Option<Seq<char>>> {
    Seq::new(
        items.len(),
        |i: int|
            match items[i] {
                Some(text) => Some(text@),
                None => None,
            },
    )
}

/// Calls `serde_json::from_str` for a `Value`, indexes it by `field` and calls
/// `Value::as_array`, then `Value::as_str` on each item. Trusted: what comes
/// back is a function of the text and the field, named `json_array_items`.
#[verifier::external_body]
pub(crate) fn json_array_field(text: &str, field: &str) -> (items: Option<Vec<Option<String>>>)
    ensures
        match items {
            Some(list) => json_array_items(text@, field@) == Some(optional_texts(list@)),
            None => json_array_items(text@, field@) is None,
        },
{
    let value: serde_json::Value = serde_json::from_str(text).ok()?;
    let array = value[field].as_array()?;
    Some(array.iter().map(|item| item.as_str().map(String::from)).collect())
}

} // verus!
