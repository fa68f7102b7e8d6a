//! Reading values out of TOML documents, done by the `toml` crate.
use vstd::prelude::*;

verus! {

/// A value found in a TOML document, as the library reads it.
pub enum TomlView {
    /// The text is not a TOML document.
    Invalid,
    /// Nothing is stored at the keys.
    Missing,
    Text(Seq<char>),
    Flag(bool),
    /// A value of another kind.
    Other,
}

/// A value found in a TOML document.
#[derive(Debug, Clone, PartialEq, Eq)]
pub enum TomlLookup {
    Invalid,
    Missing,
    Text(String),
    Flag(bool),
    Other,
}

impl TomlLookup {
    pub open spec fn view(self) -> TomlView {
        match self {
            TomlLookup::Invalid => TomlView::Invalid,
            TomlLookup::Missing => TomlView::Missing,
            TomlLookup::Text(s) => TomlView::Text(s@),
            TomlLookup::Flag(b) => TomlView::Flag(b),
            TomlLookup::Other => TomlView::Other,
        }
    }
}

/// The value stored in the TOML text `text` under the nested keys `keys` (each
/// looked up with `Value::get` in the value found so far).
pub uninterp spec fn toml_value_at(text: Seq<char>, keys: Seq<Seq<char>>) -> TomlView;

/// `toml::from_str::<toml::Value>(text)`, then `Value::get` for each key in turn,
/// named by [`toml_value_at`].
#[verifier::external_body]
pub(crate) fn toml_lookup(text: &str, keys: &Vec<&str>) -> (r: TomlLookup)
    ensures
        r.view() == toml_value_at(text@, keys@.map_values(|k: &str| k@)),
{
    let Ok(mut value) = toml::from_str::<toml::Value>(text) else {
        return TomlLookup::Invalid;
    };
    for key in keys {
        match value.get(*key) {
            Some(v) => value = v.clone(),
            None => return TomlLookup::Missing,
        }
    }
    match value {
        toml::Value::String(s) => TomlLookup::Text(s),
        toml::Value::Boolean(b) => TomlLookup::Flag(b),
        _ => TomlLookup::Other,
    }
}

} // verus!
