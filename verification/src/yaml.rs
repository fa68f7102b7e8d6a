//! Reading lists out of YAML documents, done by `yaml_rust2`.
use vstd::prelude::*;
use yaml_rust2::YamlLoader;

verus! {

/// The items of the list stored under `key` in the first document of the YAML
/// text `text`, each as its text when it is a string and `None` otherwise; `None`
/// when the text does not load, has no document, or `key` does not hold a list.
pub uninterp spec fn yaml_first_doc_list(text: Seq<char>, key: Seq<char>) -> Option<
    Seq<Option<Seq<char>>>,
>;

/// `yaml_rust2::YamlLoader::load_from_str(text)`, then `doc[key].as_vec()` of the
/// first document and `as_str()` of each item, named by [`yaml_first_doc_list`].
#[verifier::external_body]
pub(crate) fn first_doc_list(text: &str, key: &str) -> (r: Option<Vec<Option<String>>>)
    ensures
        match r {
            Some(items) => yaml_first_doc_list(text@, key@) == Some(
                items@.map_values(|o: Option<String>| crate::text::opt_view(o)),
            ),
            None => yaml_first_doc_list(text@, key@) is None,
        },
{
    let docs = YamlLoader::load_from_str(text).ok()?;
    let items = docs.first()?[key].as_vec()?;
    Some(items.iter().map(|item| item.as_str().map(str::to_string)).collect())
}

} // verus!
