//! Reading fields of JSON documents, done by `serde_json`.
use vstd::prelude::*;

verus! {

/// A field of a JSON object as the library reads it.
pub enum JsonFieldView {
    /// The field is missing or `null`.
    Absent,
    /// The field is a string.
    Text(Seq<char>),
    /// The field holds another kind of value.
    Other,
}

/// A field of a JSON object.
#[derive(Debug, Clone, PartialEq, Eq)]
pub enum JsonField {
    Absent,
    Text(String),
    Other,
}

impl JsonField {
    pub open spec fn view(self) -> JsonFieldView {
        match self {
            JsonField::Absent => JsonFieldView::Absent,
            JsonField::Text(s) => JsonFieldView::Text(s@),
            JsonField::Other => JsonFieldView::Other,
        }
    }
}

/// What field `name` of the JSON document `text` holds; `None` when `text` is
/// not a JSON document whose top level is an object.
pub uninterp spec fn json_object_field(text: Seq<char>, name: Seq<char>) -> Option<JsonFieldView>;

/// `serde_json::from_str::<serde_json::Value>(text)`, then the object's field
/// `name`, named by [`json_object_field`].
#[verifier::external_body]
pub(crate) fn object_field(text: &str, name: &str) -> (r: Option<JsonField>)
    ensures
        match r {
            Some(f) => json_object_field(text@, name@) == Some(f.view()),
            None => json_object_field(text@, name@) is None,
        },
{
    let value: serde_json::Value = serde_json::from_str(text).ok()?;
    let object = value.as_object()?;
    Some(match object.get(name) {
        None | Some(serde_json::Value::Null) => JsonField::Absent,
        Some(serde_json::Value::String(s)) => JsonField::Text(s.clone()),
        Some(_) => JsonField::Other,
    })
}

} // verus!
