//! The name of a Poetry project, from its `pyproject.toml`.
use vstd::prelude::*;
use crate::os_environment::FileSystem;
use crate::paths::{join, join_path};
use crate::toml_doc::{toml_lookup, toml_value_at, TomlLookup, TomlView};

verus! {

/// A Poetry project.
#[derive(Debug, Clone, PartialEq, Eq)]
pub struct PyProjectToml {
    pub name: String,
}

/// The project name a `pyproject.toml` text gives under `tool.poetry.name`.
pub open spec fn project_name(contents: Seq<char>) -> Option<Seq<char>> {
    match toml_value_at(contents, seq!["tool"@, "poetry"@, "name"@]) {
        TomlView::Text(n) => Some(n),
        _ => None,
    }
}

/// Reads a `pyproject.toml` text (see [`project_name`]).
pub fn parse_contents(contents: &str) -> (r: Option<PyProjectToml>)
    ensures
        match project_name(contents@) {
            Some(n) => r matches Some(p) && p.name@ == n,
            None => r is None,
        },
{
    let keys: Vec<&str> = vec!["tool", "poetry", "name"];
    assert(keys@.map_values(|k: &str| k@) =~= seq!["tool"@, "poetry"@, "name"@]);
    match toml_lookup(contents, &keys) {
        TomlLookup::Text(n) => Some(PyProjectToml { name: n }),
        _ => None,
    }
}

impl PyProjectToml {
    /// The Poetry project whose `pyproject.toml` is in `path`.
    pub fn find<F: FileSystem>(fs: &F, path: &str) -> (r: Option<Self>)
        ensures
            r matches Some(p) ==> exists|text: Seq<char>| project_name(text) == Some(p.name@),
    {
        match fs.read_to_string(join_path(path, "pyproject.toml").as_str()) {
            Some(contents) => parse_contents(contents.as_str()),
            None => None,
        }
    }
}

} // verus!
