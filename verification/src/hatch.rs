//! Hatch environments: where Hatch keeps them and how their folders are laid out.
use vstd::prelude::*;
use crate::locator::{Reporter, Configuration, Locator, LocatorKind};
use crate::os_environment::{answered_is_dir, answered_listing, var_lookup, Environment, FileSystem, Platform};
use crate::paths::{file_name, file_name_of};
use crate::paths::{
    components, join, join_path, join_path_with, join_with, parent_of, parent_path, path_components,
    path_eq, same_path, string_views,
};
use crate::python_environment::{
    normalized_symlinks, symlink_inputs, PythonEnvironment, PythonEnvironmentBuilder,
    PythonEnvironmentKind,
};
use crate::pyvenv_cfg::PyVenvCfg;
use crate::locator::PythonEnv;
use crate::os_environment::PythonProbe;
use crate::text::{char_views, chars_to_string, opt_view, str_to_chars};
use crate::toml_doc::{toml_lookup, toml_value_at, TomlLookup, TomlView};

verus! {

/// The Hatch locator: Hatch's default environment storage (`<data dir>/env/virtual`),
/// when it exists, and the workspace folders to look for project-local storage in.
#[derive(Debug, Clone, PartialEq, Eq)]
pub struct Hatch {
    pub default_virtual_dir: Option<String>,
    pub workspace_directories: Vec<String>,
}

/// A variable's value when it is set and not empty.
pub open spec fn non_empty_var(env: Environment, key: Seq<char>) -> Option<String> {
    match var_lookup(env.vars@, key) {
        Some(v) => if v@.len() > 0 {
            Some(v)
        } else {
            None
        },
        None => None,
    }
}

fn non_empty_var_exec(env: &Environment, key: &str) -> (r: Option<String>)
    ensures
        r == non_empty_var(*env, key@),
{
    match env.get_env_var(key) {
        Some(v) => {
            if str_to_chars(v.as_str()).len() > 0 {
                Some(v)
            } else {
                None
            }
        },
        None => None,
    }
}

/// Hatch's per-user data folder on `platform`, as platformdirs gives it:
/// `$XDG_DATA_HOME/hatch` or `~/.local/share/hatch` on Linux,
/// `~/Library/Application Support/hatch` on macOS, and `%LOCALAPPDATA%\hatch` or
/// `~\AppData\Local\hatch` on Windows.
pub open spec fn default_data_dir(env: Environment, platform: Platform) -> Option<Seq<char>> {
    match platform {
        Platform::Linux => match non_empty_var(env, "XDG_DATA_HOME"@) {
            Some(x) => Some(join(x@, "hatch"@)),
            None => match env.home {
                Some(h) => Some(join(join(join(h@, ".local"@), "share"@), "hatch"@)),
                None => None,
            },
        },
        Platform::MacOs => match env.home {
            Some(h) => Some(join(join(join(h@, "Library"@), "Application Support"@), "hatch"@)),
            None => None,
        },
        Platform::Windows => match non_empty_var(env, "LOCALAPPDATA"@) {
            Some(x) => Some(join_with(x@, "hatch"@, '\\')),
            None => match env.home {
                Some(h) => Some(
                    join_with(join_with(join_with(h@, "AppData"@, '\\'), "Local"@, '\\'), "hatch"@, '\\'),
                ),
                None => None,
            },
        },
    }
}

/// Hatch's per-user data folder (see [`default_data_dir`]).
pub fn platform_default_data_dir(env: &Environment, platform: Platform) -> (r: Option<String>)
    ensures
        opt_view(r) == default_data_dir(*env, platform),
{
    match platform {
        Platform::Linux => match non_empty_var_exec(env, "XDG_DATA_HOME") {
            Some(x) => Some(join_path(x.as_str(), "hatch")),
            None => match &env.home {
                Some(h) => Some(
                    join_path(join_path(join_path(h.as_str(), ".local").as_str(), "share").as_str(), "hatch"),
                ),
                None => None,
            },
        },
        Platform::MacOs => match &env.home {
            Some(h) => Some(
                join_path(
                    join_path(join_path(h.as_str(), "Library").as_str(), "Application Support").as_str(),
                    "hatch",
                ),
            ),
            None => None,
        },
        Platform::Windows => match non_empty_var_exec(env, "LOCALAPPDATA") {
            Some(x) => Some(join_path_with(x.as_str(), "hatch", '\\')),
            None => match &env.home {
                Some(h) => Some(
                    join_path_with(
                        join_path_with(join_path_with(h.as_str(), "AppData", '\\').as_str(), "Local", '\\').as_str(),
                        "hatch",
                        '\\',
                    ),
                ),
                None => None,
            },
        },
    }
}

/// `data_dir` joined with `env` and `virtual`.
pub open spec fn virtual_subdir(data_dir: Seq<char>) -> Seq<char> {
    join(join(data_dir, "env"@), "virtual"@)
}

/// `data_dir` joined with `env` and `virtual`.
pub fn append_virtual_subdir(data_dir: &str) -> (r: String)
    ensures
        r@ == virtual_subdir(data_dir@),
{
    join_path(join_path(data_dir, "env").as_str(), "virtual")
}

/// `d` can be Hatch's default environment storage for `env` on `platform`: the
/// `env/virtual` folder of `HATCH_DATA_DIR` when that is set and not empty,
/// otherwise of the platform's data folder.
pub open spec fn default_storage_candidate(env: Environment, platform: Platform, d: Option<String>) -> bool {
    &&& d matches Some(d) ==> d@ == match non_empty_var(env, "HATCH_DATA_DIR"@) {
        Some(c) => virtual_subdir(c@),
        None => match default_data_dir(env, platform) {
            Some(dd) => virtual_subdir(dd),
            None => Seq::<char>::empty(),
        },
    }
    &&& d is Some ==> non_empty_var(env, "HATCH_DATA_DIR"@) is Some || default_data_dir(env, platform) is Some
}

/// Hatch's default environment storage, when it is a folder: under
/// `HATCH_DATA_DIR` when that is set and not empty (and nowhere else then),
/// otherwise under the platform's data folder.
pub fn get_default_virtual_dir<F: FileSystem>(fs: &F, env: &Environment, platform: Platform) -> (r:
    Option<String>)
    ensures
        r matches Some(d) ==> d@ == match non_empty_var(*env, "HATCH_DATA_DIR"@) {
            Some(c) => virtual_subdir(c@),
            None => match default_data_dir(*env, platform) {
                Some(dd) => virtual_subdir(dd),
                None => Seq::<char>::empty(),
            },
        },
        r is Some ==> non_empty_var(*env, "HATCH_DATA_DIR"@) is Some || default_data_dir(*env, platform) is Some,
{
    match non_empty_var_exec(env, "HATCH_DATA_DIR") {
        Some(custom) => {
            let path = append_virtual_subdir(custom.as_str());
            return if fs.is_dir(path.as_str()) {
                Some(path)
            } else {
                None
            };
        },
        None => {},
    }
    let data = match platform_default_data_dir(env, platform) {
        Some(d) => d,
        None => {
            return None;
        },
    };
    let path = append_virtual_subdir(data.as_str());
    if fs.is_dir(path.as_str()) {
        Some(path)
    } else {
        None
    }
}

/// The environment name when `prefix` is exactly three components below
/// `storage` (`<storage>/<project>/<project id>/<name>`).
pub open spec fn default_storage_env_name(prefix: Seq<char>, storage: Seq<char>) -> Option<Seq<char>> {
    let p = components(prefix);
    let s = components(storage);
    if p.len() == s.len() + 3 && p.subrange(0, s.len() as int) == s {
        Some(p[p.len() - 1])
    } else {
        None
    }
}

/// Exec counterpart of [`default_storage_env_name`].
#[verifier::loop_isolation(false)]
pub fn match_default_storage_layout(prefix: &str, storage: &str) -> (r: Option<String>)
    ensures
        opt_view(r) == default_storage_env_name(prefix@, storage@),
{
    let p = path_components(&str_to_chars(prefix));
    let s = path_components(&str_to_chars(storage));
    let ghost pv = char_views(p@);
    let ghost sv = char_views(s@);
    if s.len() > p.len() || p.len() - s.len() != 3 {
        return None;
    }
    let mut i: usize = 0;
    while i < s.len()
        invariant
            0 <= i <= s@.len(),
            p@.len() == s@.len() + 3,
            pv == char_views(p@),
            sv == char_views(s@),
            forall|k: int| 0 <= k < i ==> pv[k] == sv[k],
        decreases s.len() - i,
    {
        if !crate::text::chars_eq(&p[i], &s[i]) {
            assert(pv.subrange(0, sv.len() as int)[i as int] != sv[i as int]);
            return None;
        }
        i = i + 1;
    }
    assert(pv.subrange(0, sv.len() as int) =~= sv);
    assert(pv[pv.len() - 1] == p@[p@.len() - 1]@);
    Some(chars_to_string(p[p.len() - 1].as_slice()))
}

/// Whether the parent of `prefix` is the same path as `dir`.
pub fn prefix_is_directly_under(prefix: &str, dir: &str) -> (r: bool)
    ensures
        r == (parent_of(prefix@) matches Some(p) && same_path(p, dir@)),
{
    match parent_path(prefix) {
        Some(parent) => path_eq(parent.as_str(), dir),
        None => false,
    }
}

/// The `virtual` storage settings a workspace's Hatch configuration gives:
/// `tool.hatch.dirs.env.virtual` of `pyproject.toml`, then `dirs.env.virtual` of
/// `hatch.toml`.
pub open spec fn configured_virtual_paths(pyproject: Option<Seq<char>>, hatch: Option<Seq<char>>) -> Seq<Seq<char>> {
    (match pyproject {
        Some(t) => match toml_value_at(t, seq!["tool"@, "hatch"@, "dirs"@, "env"@, "virtual"@]) {
            TomlView::Text(v) => seq![v],
            _ => seq![],
        },
        None => seq![],
    }) + match hatch {
        Some(t) => match toml_value_at(t, seq!["dirs"@, "env"@, "virtual"@]) {
            TomlView::Text(v) => seq![v],
            _ => seq![],
        },
        None => seq![],
    }
}

/// The `virtual` storage settings from the texts of `pyproject.toml` and
/// `hatch.toml` (see [`configured_virtual_paths`]).
pub fn virtual_paths_from(pyproject: Option<String>, hatch: Option<String>) -> (r: Vec<String>)
    ensures
        string_views(r@) == configured_virtual_paths(opt_view(pyproject), opt_view(hatch)),
{
    let mut out: Vec<String> = Vec::new();
    match &pyproject {
        Some(t) => {
            let keys: Vec<&str> = vec!["tool", "hatch", "dirs", "env", "virtual"];
            assert(keys@.map_values(|k: &str| k@) =~= seq!["tool"@, "hatch"@, "dirs"@, "env"@, "virtual"@]);
            match toml_lookup(t.as_str(), &keys) {
                TomlLookup::Text(v) => {
                    out.push(v);
                },
                _ => {},
            }
        },
        None => {},
    }
    let ghost first = string_views(out@);
    match &hatch {
        Some(t) => {
            let keys: Vec<&str> = vec!["dirs", "env", "virtual"];
            assert(keys@.map_values(|k: &str| k@) =~= seq!["dirs"@, "env"@, "virtual"@]);
            match toml_lookup(t.as_str(), &keys) {
                TomlLookup::Text(v) => {
                    out.push(v);
                    assert(string_views(out@) =~= first.push(v@));
                },
                _ => {},
            }
        },
        None => {},
    }
    assert(string_views(out@) =~= configured_virtual_paths(opt_view(pyproject), opt_view(hatch)));
    out
}

/// The `virtual` storage settings of the workspace folder `workspace`.
pub fn read_configured_virtual_paths<F: FileSystem>(fs: &F, workspace: &str) -> (r: Vec<String>)
    ensures
        exists|p: Option<Seq<char>>, h: Option<Seq<char>>|
            string_views(r@) == #[trigger] configured_virtual_paths(p, h),
{
    let pyproject = fs.read_to_string(join_path(workspace, "pyproject.toml").as_str());
    let hatch = fs.read_to_string(join_path(workspace, "hatch.toml").as_str());
    virtual_paths_from(pyproject, hatch)
}

/// `p` is `workspace` joined with some path.
pub open spec fn joined_under(workspace: Seq<char>, p: Seq<char>) -> bool {
    exists|raw: Seq<char>| p == #[trigger] join(workspace, raw)
}

/// The configured storage folders of a workspace that exist: each setting taken
/// as is when absolute, otherwise relative to the workspace.
pub fn resolve_project_virtual_dirs<F: FileSystem>(fs: &F, workspace: &str) -> (r: Vec<String>)
    ensures
        forall|k: int| 0 <= k < r@.len() ==> joined_under(workspace@, #[trigger] r@[k]@),
{
    let raws = read_configured_virtual_paths(fs, workspace);
    let mut dirs: Vec<String> = Vec::new();
    let mut i: usize = 0;
    while i < raws.len()
        invariant
            0 <= i <= raws@.len(),
            forall|k: int| 0 <= k < dirs@.len() ==> joined_under(workspace@, #[trigger] dirs@[k]@),
        decreases raws.len() - i,
    {
        let resolved = join_path(workspace, raws[i].as_str());
        if fs.is_dir(resolved.as_str()) {
            let ghost before = dirs@;
            dirs.push(resolved);
            proof {
                assert forall|k: int| 0 <= k < dirs@.len() implies joined_under(workspace@, #[trigger] dirs@[k]@) by {
                    if k < before.len() {
                        assert(dirs@[k] == before[k]);
                    } else {
                        assert(dirs@[k]@ == join(workspace@, raws@[i as int]@));
                    }
                }
            }
        }
        i = i + 1;
    }
    dirs
}

impl Hatch {
    /// The locator with the default storage found for `env`.
    pub fn from<F: FileSystem>(fs: &F, env: &Environment, platform: Platform) -> (r: Self)
        ensures
            r.workspace_directories@.len() == 0,
            default_storage_candidate(*env, platform, r.default_virtual_dir),
    {
        Hatch {
            default_virtual_dir: get_default_virtual_dir(fs, env, platform),
            workspace_directories: Vec::new(),
        }
    }

    /// The locator for the current process environment.
    pub fn new<F: FileSystem>(fs: &F, env: &Environment, platform: Platform) -> (r: Self)
        ensures
            r.workspace_directories@.len() == 0,
            default_storage_candidate(*env, platform, r.default_virtual_dir),
    {
        Hatch::from(fs, env, platform)
    }
}

impl Locator for Hatch {
    fn get_kind(&self) -> (r: LocatorKind)
        ensures
            r == LocatorKind::Hatch,
    {
        LocatorKind::Hatch
    }

    /// Replaces the workspace folders by those the configuration gives (none when
    /// it gives none).
    fn configure(&mut self, config: &Configuration)
        ensures
            config.workspace_directories matches Some(d) ==> final(self).workspace_directories@ == d@,
            config.workspace_directories is None ==> final(self).workspace_directories@.len() == 0,
            final(self).default_virtual_dir == old(self).default_virtual_dir,
    {
        self.workspace_directories = match &config.workspace_directories {
            Some(d) => crate::python_environment::copy_strings(d),
            None => Vec::new(),
        };
    }

    fn supported_categories(&self) -> (r: Vec<PythonEnvironmentKind>)
        ensures
            r@ == seq![PythonEnvironmentKind::Hatch],
    {
        let mut v: Vec<PythonEnvironmentKind> = Vec::new();
        v.push(PythonEnvironmentKind::Hatch);
        v
    }
}

/// A Hatch environment at `prefix`: named by its `pyvenv.cfg` prompt, else
/// `fallback_name`; its version is the `pyvenv.cfg` version.
pub fn build_env<X: PythonProbe>(
    exes: &X,
    prefix: &str,
    cfg: &PyVenvCfg,
    fallback_name: String,
    project_path: Option<String>,
    executable: &str,
) -> (r: PythonEnvironment)
    ensures
        r.category == PythonEnvironmentKind::Hatch,
        opt_view(r.name) == Some(
            match cfg.prompt {
                Some(p) => p@,
                None => fallback_name@,
            },
        ),
        opt_view(r.executable) == Some(executable@),
        opt_view(r.version) == Some(cfg.version@),
        opt_view(r.prefix) == Some(prefix@),
        r.project == project_path,
{
    let name = match &cfg.prompt {
        Some(p) => p.clone(),
        None => fallback_name,
    };
    PythonEnvironmentBuilder::new(PythonEnvironmentKind::Hatch)
        .name(Some(name))
        .executable(Some(chars_to_string(str_to_chars(executable).as_slice())))
        .version(Some(cfg.version.clone()))
        .prefix(Some(chars_to_string(str_to_chars(prefix).as_slice())))
        .symlinks(Some(exes.find_executables(prefix)))
        .project(project_path)
        .build()
}

/// A Hatch environment for the folder `prefix`, when it has a `pyvenv.cfg` and a
/// Python executable; named by the prompt, else by the folder's name.
pub fn build_env_from_prefix<F: FileSystem, X: PythonProbe>(
    fs: &F,
    exes: &X,
    prefix: &str,
    project_path: Option<String>,
) -> (r: Option<PythonEnvironment>)
    ensures
        r matches Some(env) ==> env.category == PythonEnvironmentKind::Hatch && opt_view(env.prefix)
            == Some(prefix@) && env.project == project_path && env.executable is Some,
{
    let cfg = match PyVenvCfg::find(fs, prefix) {
        Some(c) => c,
        None => {
            return None;
        },
    };
    let executable = match exes.find_executable(prefix) {
        Some(e) => e,
        None => {
            return None;
        },
    };
    let name = match &cfg.prompt {
        Some(p) => Some(p.clone()),
        None => file_name(prefix),
    };
    let env = PythonEnvironmentBuilder::new(PythonEnvironmentKind::Hatch)
        .name(name)
        .executable(Some(executable))
        .version(Some(cfg.version.clone()))
        .prefix(Some(chars_to_string(str_to_chars(prefix).as_slice())))
        .symlinks(Some(exes.find_executables(prefix)))
        .project(project_path)
        .build();
    Some(env)
}

/// The Hatch environments in the folders of `dir`, one level deep.
pub fn find_envs_in_flat_dir<F: FileSystem, X: PythonProbe>(
    fs: &F,
    exes: &X,
    dir: &str,
    project: Option<String>,
) -> (r: Vec<PythonEnvironment>)
    ensures
        forall|k: int|
            0 <= k < r@.len() ==> (#[trigger] r@[k]).category == PythonEnvironmentKind::Hatch
                && r@[k].project == project,
        exists|listing: Seq<Seq<char>>|
            #[trigger] answered_listing(fs, dir@, listing) && forall|k: int|
                0 <= k < r@.len() ==> ((#[trigger] r@[k]).prefix matches Some(p) && listing.contains(p@)
                    && answered_is_dir(fs, p@, true)),
{
    let mut envs: Vec<PythonEnvironment> = Vec::new();
    let dp: &str = dir;
    let entries = fs.read_dir(dp);
    let ghost listing = crate::paths::string_views(entries@);
    assert(answered_listing(fs, dir@, listing));
    let mut i: usize = 0;
    while i < entries.len()
        invariant
            0 <= i <= entries@.len(),
            listing == crate::paths::string_views(entries@),
            forall|k: int|
                0 <= k < envs@.len() ==> (#[trigger] envs@[k]).category == PythonEnvironmentKind::Hatch
                    && envs@[k].project == project,
            forall|k: int|
                0 <= k < envs@.len() ==> ((#[trigger] envs@[k]).prefix matches Some(p) && listing.contains(p@)
                    && answered_is_dir(fs, p@, true)),
        decreases entries.len() - i,
    {
        let ep: &str = entries[i].as_str();
        let is_dir = fs.is_dir(ep);
        assert(answered_is_dir(fs, entries@[i as int]@, is_dir));
        assert(listing[i as int] == entries@[i as int]@);
        if is_dir {
            let project_copy = match &project {
                Some(p) => Some(p.clone()),
                None => None,
            };
            match build_env_from_prefix(fs, exes, entries[i].as_str(), project_copy) {
                Some(env) => {
                    envs.push(env);
                },
                None => {},
            }
        }
        i = i + 1;
    }
    envs
}

/// The Hatch environments in the default storage, three levels deep:
/// `<storage>/<project name>/<project id>/<environment>`.
pub fn find_envs_in_default_storage<F: FileSystem, X: PythonProbe>(
    fs: &F,
    exes: &X,
    storage: &str,
) -> (r: Vec<PythonEnvironment>)
    ensures
        forall|k: int|
            0 <= k < r@.len() ==> (#[trigger] r@[k]).category == PythonEnvironmentKind::Hatch
                && r@[k].project is None,
{
    let mut envs: Vec<PythonEnvironment> = Vec::new();
    let projects = fs.read_dir(storage);
    let mut i: usize = 0;
    while i < projects.len()
        invariant
            0 <= i <= projects@.len(),
            forall|k: int|
                0 <= k < envs@.len() ==> (#[trigger] envs@[k]).category == PythonEnvironmentKind::Hatch
                    && envs@[k].project is None,
        decreases projects.len() - i,
    {
        if fs.is_dir(projects[i].as_str()) {
            let ids = fs.read_dir(projects[i].as_str());
            let mut j: usize = 0;
            while j < ids.len()
                invariant
                    0 <= j <= ids@.len(),
                    forall|k: int|
                        0 <= k < envs@.len() ==> (#[trigger] envs@[k]).category
                            == PythonEnvironmentKind::Hatch && envs@[k].project is None,
                decreases ids.len() - j,
            {
                if fs.is_dir(ids[j].as_str()) {
                    let mut found = find_envs_in_flat_dir(fs, exes, ids[j].as_str(), None);
                    let ghost before = envs@;
                    let ghost fv = found@;
                    envs.append(&mut found);
                    assert forall|m: int| 0 <= m < envs@.len() implies (#[trigger] envs@[m]).category
                        == PythonEnvironmentKind::Hatch && envs@[m].project is None by {
                        if m >= before.len() {
                            assert(envs@[m] == fv[m - before.len()]);
                        } else {
                            assert(envs@[m] == before[m]);
                        }
                    }
                }
                j = j + 1;
            }
        }
        i = i + 1;
    }
    envs
}

/// The prefix a Hatch search starts from: the one given, else the folder two
/// levels above the executable.
pub open spec fn hatch_prefix_for(env: PythonEnv, p: Seq<char>) -> bool {
    match env.prefix {
        Some(q) => q@ == p,
        None => match parent_of(env.executable@) {
            Some(bin) => parent_of(bin) == Some(p),
            None => false,
        },
    }
}

impl Hatch {
    /// The Hatch environments: those in the default storage (three levels deep),
    /// then, workspace by workspace, those in each configured storage folder.
    pub fn environments<F: FileSystem, X: PythonProbe>(&self, fs: &F, exes: &X) -> (r: Vec<
        PythonEnvironment,
    >)
        ensures
            forall|k: int|
                0 <= k < r@.len() ==> (#[trigger] r@[k]).category == PythonEnvironmentKind::Hatch,
            self.default_virtual_dir is None && self.workspace_directories@.len() == 0 ==> r@.len()
                == 0,
    {
        let mut out: Vec<PythonEnvironment> = Vec::new();
        match &self.default_virtual_dir {
            Some(storage) => {
                out = find_envs_in_default_storage(fs, exes, storage.as_str());
            },
            None => {},
        }
        let mut w: usize = 0;
        while w < self.workspace_directories.len()
            invariant
                0 <= w <= self.workspace_directories@.len(),
                forall|k: int|
                    0 <= k < out@.len() ==> (#[trigger] out@[k]).category == PythonEnvironmentKind::Hatch,
                self.default_virtual_dir is None && self.workspace_directories@.len() == 0 ==> out@.len() == 0,
            decreases self.workspace_directories.len() - w,
        {
            let workspace = &self.workspace_directories[w];
            let dirs = resolve_project_virtual_dirs(fs, workspace.as_str());
            let mut d: usize = 0;
            while d < dirs.len()
                invariant
                    0 <= d <= dirs@.len(),
                    forall|k: int|
                        0 <= k < out@.len() ==> (#[trigger] out@[k]).category == PythonEnvironmentKind::Hatch,
                decreases dirs.len() - d,
            {
                let mut found = find_envs_in_flat_dir(fs, exes, dirs[d].as_str(), Some(workspace.clone()));
                let ghost before = out@;
                let ghost added = found@;
                out.append(&mut found);
                proof {
                    assert forall|k: int| 0 <= k < out@.len() implies (#[trigger] out@[k]).category
                        == PythonEnvironmentKind::Hatch by {
                        if k < before.len() {
                            assert(out@[k] == before[k]);
                        } else {
                            assert(out@[k] == added[k - before.len()]);
                        }
                    }
                }
                d = d + 1;
            }
            w = w + 1;
        }
        out
    }

    /// Reports every Hatch environment (see [`Hatch::environments`]).
    pub fn find<F: FileSystem, X: PythonProbe, R: Reporter>(&self, fs: &F, exes: &X, reporter: &R) {
        let envs = self.environments(fs, exes);
        let mut i: usize = 0;
        while i < envs.len()
            decreases envs.len() - i,
        {
            reporter.report_environment(&envs[i]);
            i = i + 1;
        }
    }

    /// Where a Hatch environment at `prefix` may be: in the default storage,
    /// three levels deep, with no project; or in a workspace's configured
    /// storage, with that workspace as its project.
    pub open spec fn storage_holds(&self, prefix: Seq<char>, project: Option<String>) -> bool {
        ||| (self.default_virtual_dir matches Some(s) && default_storage_env_name(prefix, s@) is Some
            && project is None)
        ||| (project matches Some(w) && self.workspace_directories@.contains(w))
    }

    /// Identifies the environment of `env` as a Hatch environment: its prefix
    /// (given, else two folders above the executable) must have a `pyvenv.cfg`
    /// and lie either in the default storage, three levels deep, or directly in
    /// a `virtual` folder that a workspace's Hatch configuration names; in the
    /// second case the workspace is the environment's project.
    pub fn try_from<F: FileSystem, X: PythonProbe>(
        &self,
        fs: &F,
        exes: &X,
        env: &PythonEnv,
    ) -> (r: Option<PythonEnvironment>)
        ensures
            r matches Some(e) ==> {
                &&& e.category == PythonEnvironmentKind::Hatch
                &&& opt_view(e.executable) == Some(env.executable@)
                &&& e.prefix matches Some(p)
                &&& hatch_prefix_for(*env, p@)
                &&& self.storage_holds(p@, e.project)
            },
            self.default_virtual_dir is None && self.workspace_directories@.len() == 0 ==> r is None,
            env.prefix is None && (parent_of(env.executable@) matches Some(bin) ==> parent_of(bin) is None)
                ==> r is None,
    {
        let prefix = match &env.prefix {
            Some(p) => p.clone(),
            None => match parent_path(env.executable.as_str()) {
                Some(bin) => match parent_path(bin.as_str()) {
                    Some(p) => p,
                    None => {
                        return None;
                    },
                },
                None => {
                    return None;
                },
            },
        };
        let cfg = match PyVenvCfg::find(fs, prefix.as_str()) {
            Some(c) => c,
            None => {
                return None;
            },
        };
        match &self.default_virtual_dir {
            Some(storage) => {
                match match_default_storage_layout(prefix.as_str(), storage.as_str()) {
                    Some(name) => {
                        return Some(
                            build_env(exes, prefix.as_str(), &cfg, name, None, env.executable.as_str()),
                        );
                    },
                    None => {},
                }
            },
            None => {},
        }
        assert(hatch_prefix_for(*env, prefix@));
        let mut w: usize = 0;
        while w < self.workspace_directories.len()
            invariant
                0 <= w <= self.workspace_directories@.len(),
                hatch_prefix_for(*env, prefix@),
            decreases self.workspace_directories.len() - w,
        {
            let workspace = &self.workspace_directories[w];
            let dirs = resolve_project_virtual_dirs(fs, workspace.as_str());
            let mut d: usize = 0;
            while d < dirs.len()
                invariant
                    0 <= w < self.workspace_directories@.len(),
                    *workspace == self.workspace_directories@[w as int],
                    hatch_prefix_for(*env, prefix@),
                decreases dirs.len() - d,
            {
                if prefix_is_directly_under(prefix.as_str(), dirs[d].as_str()) {
                    let name = match file_name(prefix.as_str()) {
                        Some(n) => n,
                        None => String::new(),
                    };
                    let project = workspace.clone();
                    assert(self.workspace_directories@.contains(project));
                    return Some(
                        build_env(
                            exes,
                            prefix.as_str(),
                            &cfg,
                            name,
                            Some(project),
                            env.executable.as_str(),
                        ),
                    );
                }
                d = d + 1;
            }
            w = w + 1;
        }
        None
    }
}

} // verus!
