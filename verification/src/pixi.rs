//! Pixi environments: conda prefixes that Pixi marks as its own.
use vstd::prelude::*;
use crate::locator::{Configuration, Locator, LocatorKind, PythonEnv};
use crate::os_environment::FileSystem;
use crate::paths::{ends_with_component, join, join_path, last_component_is, parent_of, parent_path};
use crate::python_environment::{PythonEnvironment, PythonEnvironmentBuilder, PythonEnvironmentKind};
use crate::os_environment::PythonProbe;
use crate::conda::package::{CondaPackageInfo, Package};
use crate::paths::{file_name, file_name_of};
use crate::text::{chars_to_string, opt_view, str_to_chars};

verus! {

/// The marker file of a Pixi environment, relative to its prefix.
pub open spec fn pixi_marker(path: Seq<char>) -> Seq<char> {
    join(join(path, "conda-meta"@), "pixi"@)
}

/// The path of the marker file of the Pixi environment at `path`.
pub fn pixi_marker_path(path: &str) -> (r: String)
    ensures
        r@ == pixi_marker(path@),
{
    join_path(join_path(path, "conda-meta").as_str(), "pixi")
}

/// Whether `path` is a Pixi environment: the file system's answer to whether
/// [`pixi_marker_path`] of it is a regular file, handed back as it is.
pub fn is_pixi_env<F: FileSystem>(fs: &F, path: &str) -> (r: bool)
    ensures
        crate::os_environment::answered_is_file(fs, pixi_marker(path@), r),
{
    let marker = pixi_marker_path(path);
    let m: &str = marker.as_str();
    let r = fs.is_file(m);
    assert(crate::os_environment::answered_is_file(fs, pixi_marker(path@), r));
    r
}

/// The prefix of the Pixi environment of `env`: its known prefix, otherwise the
/// folder of its executable or, for a `bin` or `Scripts` folder, the one above,
/// when that is a Pixi environment.
pub fn get_pixi_prefix<F: FileSystem>(fs: &F, env: &PythonEnv) -> (r: Option<String>)
    ensures
        env.prefix is Some ==> r == env.prefix,
        env.prefix is None && r is Some ==> parent_of(env.executable@) is Some && (r->0@ == parent_of(
            env.executable@,
        )->0 || Some(r->0@) == parent_of(parent_of(env.executable@)->0)),
        env.prefix is None ==> (r matches Some(p) ==> crate::os_environment::answered_is_file(
            fs,
            pixi_marker(p@),
            true,
        )),
{
    match &env.prefix {
        Some(p) => {
            return Some(p.clone());
        },
        None => {},
    }
    let parent = match parent_path(env.executable.as_str()) {
        Some(p) => p,
        None => {
            return None;
        },
    };
    if is_pixi_env(fs, parent.as_str()) {
        return Some(parent);
    }
    if ends_with_component(parent.as_str(), "bin") || ends_with_component(parent.as_str(), "Scripts") {
        match parent_path(parent.as_str()) {
            Some(gp) => {
                if is_pixi_env(fs, gp.as_str()) {
                    return Some(gp);
                }
            },
            None => {},
        }
    }
    None
}

/// The Pixi locator.
#[derive(Debug, Clone, PartialEq, Eq)]
pub struct Pixi {}

impl Pixi {
    pub fn new() -> (r: Pixi)
        ensures
            r == (Pixi {  }),
    {
        Pixi {  }
    }
}

impl Default for Pixi {
    fn default() -> (r: Self)
        ensures
            r == (Pixi {  }),
    {
        Pixi::new()
    }
}

impl Locator for Pixi {
    fn get_kind(&self) -> (r: LocatorKind)
        ensures
            r == LocatorKind::Pixi,
    {
        LocatorKind::Pixi
    }

    /// Pixi takes nothing from the configuration.
    fn configure(&mut self, config: &Configuration)
        ensures
            *final(self) == *old(self),
    {
    }

    fn supported_categories(&self) -> (r: Vec<PythonEnvironmentKind>)
        ensures
            r@ == seq![PythonEnvironmentKind::Pixi],
    {
        let mut v: Vec<PythonEnvironmentKind> = Vec::new();
        v.push(PythonEnvironmentKind::Pixi);
        v
    }
}

impl Pixi {
    /// Identifies the environment of `env` as a Pixi environment: its prefix
    /// (given, or found above the executable) must hold pixi's marker; the
    /// environment is named after the prefix folder, its version is that of the
    /// installed `python` package.
    pub fn try_from<F: FileSystem, X: PythonProbe>(&self, fs: &F, exes: &X, env: &PythonEnv) -> (r:
        Option<PythonEnvironment>)
        ensures
            r matches Some(e) ==> e.category == PythonEnvironmentKind::Pixi && opt_view(e.executable)
                == Some(env.executable@) && e.prefix is Some,
            env.prefix is Some && r is Some ==> opt_view(r->0.prefix) == opt_view(env.prefix),
            r matches Some(e) ==> e.prefix matches Some(p) && e.name matches Some(n) && n@ == match file_name_of(p@) {
                Some(x) => x,
                None => Seq::<char>::empty(),
            },
            env.prefix is None && parent_of(env.executable@) is None ==> r is None,
    {
        let prefix = match get_pixi_prefix(fs, env) {
            Some(p) => p,
            None => {
                return None;
            },
        };
        if !is_pixi_env(fs, prefix.as_str()) {
            return None;
        }
        let name = match file_name(prefix.as_str()) {
            Some(n) => n,
            None => String::new(),
        };
        let symlinks = exes.find_executables(prefix.as_str());
        let version = match CondaPackageInfo::from(fs, prefix.as_str(), &Package::Python) {
            Some(info) => Some(info.version),
            None => None,
        };
        let found = PythonEnvironmentBuilder::new(PythonEnvironmentKind::Pixi)
            .executable(Some(env.executable.clone()))
            .name(Some(name))
            .prefix(Some(prefix))
            .symlinks(Some(symlinks))
            .version(version)
            .build();
        Some(found)
    }
}

} // verus!
