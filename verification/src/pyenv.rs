//! pyenv: where pyenv lives, the versions it installs, and the environments
//! made from them.
use vstd::prelude::*;
use crate::conda::locator::Conda;
use crate::conda::utils::is_conda_env;
use crate::locator::{Configuration, Locator, LocatorKind, LocatorResult, PythonEnv, Reporter};
use crate::manager::EnvManager;
use crate::os_environment::{var_lookup, Environment, FileSystem, Platform, PythonProbe};
use crate::paths::{
    file_name, file_name_of, join, join_path, join_path_with, join_with, parent_path,
    path_starts_with, path_starts_with_exec,
};
use crate::pyvenv_cfg::PyVenvCfg;
use crate::python_environment::{
    normalized_symlinks, symlink_inputs, Architecture, PythonEnvironment, PythonEnvironmentBuilder,
    PythonEnvironmentKind,
};
use crate::regexes::{capture_group, regex_capture};
use crate::text::{ends_with, ends_with_chars, opt_view, str_to_chars};

verus! {

/// What the pyenv locator reads of the environment.
#[derive(Debug, Clone)]
pub struct EnvVariables {
    pub home: Option<String>,
    pub root: Option<String>,
    /// `PATH`.
    pub path: Option<String>,
    /// `PYENV_ROOT`: pyenv's folder on Unix.
    pub pyenv_root: Option<String>,
    /// `PYENV`: pyenv's folder on Windows.
    pub pyenv: Option<String>,
    pub known_global_search_locations: Vec<String>,
}

impl EnvVariables {
    pub fn from(env: &Environment) -> (r: Self)
        ensures
            r.home == env.home,
            r.root == env.root,
            r.path == var_lookup(env.vars@, "PATH"@),
            r.pyenv_root == var_lookup(env.vars@, "PYENV_ROOT"@),
            r.pyenv == var_lookup(env.vars@, "PYENV"@),
            r.known_global_search_locations@ == env.global_search_locations@,
    {
        EnvVariables {
            home: env.get_user_home(),
            root: env.get_root(),
            path: env.get_env_var("PATH"),
            pyenv_root: env.get_env_var("PYENV_ROOT"),
            pyenv: env.get_env_var("PYENV"),
            known_global_search_locations: env.get_know_global_search_locations(),
        }
    }
}

/// pyenv's default folder under the home folder: `.pyenv` (with `pyenv-win`
/// inside it on Windows).
pub open spec fn home_pyenv_dir(home: Seq<char>, platform: Platform) -> Seq<char> {
    if platform == Platform::Windows {
        join_with(join_with(home, ".pyenv"@, '\\'), "pyenv-win"@, '\\')
    } else {
        join(home, ".pyenv"@)
    }
}

/// pyenv's default folder for the user, when the home folder is known.
pub fn get_home_pyenv_dir(environment: &EnvVariables, platform: Platform) -> (r: Option<String>)
    ensures
        match environment.home {
            Some(h) => r matches Some(d) && d@ == home_pyenv_dir(h@, platform),
            None => r is None,
        },
{
    match &environment.home {
        Some(home) => {
            if platform == Platform::Windows {
                Some(join_path_with(join_path_with(home.as_str(), ".pyenv", '\\').as_str(), "pyenv-win", '\\'))
            } else {
                Some(join_path(home.as_str(), ".pyenv"))
            }
        },
        None => None,
    }
}

/// pyenv's folder as the environment names it: `PYENV_ROOT`, else `PYENV`.
pub fn get_pyenv_dir(environment: &EnvVariables) -> (r: Option<String>)
    ensures
        r == match environment.pyenv_root {
            Some(d) => Some(d),
            None => environment.pyenv,
        },
{
    match &environment.pyenv_root {
        Some(dir) => Some(dir.clone()),
        None => environment.pyenv.clone(),
    }
}

/// The name of the pyenv binary.
pub open spec fn pyenv_binary_name(platform: Platform) -> Seq<char> {
    if platform == Platform::Windows {
        "pyenv.exe"@
    } else {
        "pyenv"@
    }
}

/// The first pyenv binary that is a file in one of the known search folders.
pub fn get_binary_from_known_paths<F: FileSystem>(fs: &F, environment: &EnvVariables, platform: Platform) -> (r:
    Option<String>)
    ensures
        r matches Some(p) ==> exists|k: int|
            0 <= k < environment.known_global_search_locations@.len() && p@ == join(
                #[trigger] environment.known_global_search_locations@[k]@,
                pyenv_binary_name(platform),
            ),
{
    let name = if platform == Platform::Windows {
        "pyenv.exe"
    } else {
        "pyenv"
    };
    let locations = &environment.known_global_search_locations;
    let mut i: usize = 0;
    while i < locations.len()
        invariant
            0 <= i <= locations@.len(),
            locations@ == environment.known_global_search_locations@,
            name@ == pyenv_binary_name(platform),
        decreases locations.len() - i,
    {
        let exe = join_path(locations[i].as_str(), name);
        if fs.is_file(exe.as_str()) {
            assert(exe@ == join(locations@[i as int]@, pyenv_binary_name(platform)));
            return Some(exe);
        }
        i = i + 1;
    }
    None
}

/// Stable versions such as `3.10.10`.
pub open spec fn pure_version_pattern() -> Seq<char> {
    "^(\\d+\\.\\d+\\.\\d+)$"@
}

/// Development versions such as `3.10-dev`.
pub open spec fn dev_version_pattern() -> Seq<char> {
    "^(\\d+\\.\\d+-.*)$"@
}

/// Alpha and release-candidate versions such as `3.10.0a3`.
pub open spec fn beta_version_pattern() -> Seq<char> {
    "^(\\d+\\.\\d+.\\d+\\w\\d+)"@
}

/// 32-bit Windows versions such as `3.11.0a1-win32`.
pub open spec fn win32_version_pattern() -> Seq<char> {
    "^(\\d+\\.\\d+.\\d+\\w\\d+)-win32"@
}

/// The version a pyenv version folder's name gives: the first of the stable,
/// development, pre-release and 32-bit Windows forms that matches.
pub open spec fn folder_version(name: Seq<char>) -> Option<Seq<char>> {
    match regex_capture(pure_version_pattern(), name, 1) {
        Some(v) => Some(v),
        None => match regex_capture(dev_version_pattern(), name, 1) {
            Some(v) => Some(v),
            None => match regex_capture(beta_version_pattern(), name, 1) {
                Some(v) => Some(v),
                None => regex_capture(win32_version_pattern(), name, 1),
            },
        },
    }
}

/// Exec counterpart of [`folder_version`].
pub fn get_version(folder_name: &str) -> (r: Option<String>)
    ensures
        opt_view(r) == folder_version(folder_name@),
{
    match capture_group("^(\\d+\\.\\d+\\.\\d+)$", folder_name, 1) {
        Some(v) => Some(v),
        None => match capture_group("^(\\d+\\.\\d+-.*)$", folder_name, 1) {
            Some(v) => Some(v),
            None => match capture_group("^(\\d+\\.\\d+.\\d+\\w\\d+)", folder_name, 1) {
                Some(v) => Some(v),
                None => capture_group("^(\\d+\\.\\d+.\\d+\\w\\d+)-win32", folder_name, 1),
            },
        },
    }
}

/// A pyenv installation of a python.org-style version in folder `path`: its
/// version from its header files when known, else from the folder's name; a
/// folder named `...-win32` is 32-bit.
pub fn get_generic_python_environment(
    executable: &str,
    path: &str,
    manager: &Option<EnvManager>,
    header_version: Option<String>,
    executables: Vec<String>,
) -> (r: Option<PythonEnvironment>)
    ensures
        file_name_of(path@) is None ==> r is None,
        file_name_of(path@) is Some ==> r is Some,
        r matches Some(env) ==> env.category == PythonEnvironmentKind::Pyenv && opt_view(env.executable)
            == Some(executable@) && opt_view(env.prefix) == Some(path@) && env.manager == *manager
            && (file_name_of(path@) matches Some(n) && opt_view(env.version) == (match header_version {
            Some(h) => Some(h@),
            None => folder_version(n),
        }) && env.arch == (if ends_with(n, "-win32"@) {
            Some(Architecture::X86)
        } else {
            None
        }) && normalized_symlinks(symlink_inputs(env.executable, Some(executables)), env.symlinks)),
{
    let name = match file_name(path) {
        Some(n) => n,
        None => {
            return None;
        },
    };
    let version = match header_version {
        Some(h) => Some(h),
        None => get_version(name.as_str()),
    };
    let arch = if ends_with_chars(&str_to_chars(name.as_str()), &str_to_chars("-win32")) {
        Some(Architecture::X86)
    } else {
        None
    };
    let env = PythonEnvironmentBuilder::new(PythonEnvironmentKind::Pyenv)
        .executable(Some(crate::text::chars_to_string(str_to_chars(executable).as_slice())))
        .version(version)
        .prefix(Some(crate::text::chars_to_string(str_to_chars(path).as_slice())))
        .manager(crate::manager::duplicate_manager(manager))
        .arch(arch)
        .symlinks(Some(executables))
        .build();
    Some(env)
}

/// A pyenv virtual environment in folder `path`: there is one exactly when the
/// folder's `pyvenv.cfg` gives a version.
pub fn get_virtual_env_environment(
    executable: &str,
    path: &str,
    manager: &Option<EnvManager>,
    pyvenv_version: Option<String>,
    executables: Vec<String>,
) -> (r: Option<PythonEnvironment>)
    ensures
        pyvenv_version is None <==> r is None,
        r matches Some(env) ==> env.category == PythonEnvironmentKind::PyenvVirtualEnv && opt_view(
            env.executable,
        ) == Some(executable@) && opt_view(env.prefix) == Some(path@) && env.manager == *manager
            && env.version == pyvenv_version && env.arch is None && normalized_symlinks(
            symlink_inputs(env.executable, Some(executables)),
            env.symlinks,
        ),
{
    let version = match pyvenv_version {
        Some(v) => v,
        None => {
            return None;
        },
    };
    let env = PythonEnvironmentBuilder::new(PythonEnvironmentKind::PyenvVirtualEnv)
        .executable(Some(crate::text::chars_to_string(str_to_chars(executable).as_slice())))
        .version(Some(version))
        .prefix(Some(crate::text::chars_to_string(str_to_chars(path).as_slice())))
        .manager(crate::manager::duplicate_manager(manager))
        .symlinks(Some(executables))
        .build();
    Some(env)
}

/// The pyenv environment in the version folder `path` whose executable is
/// `executable`: a virtual environment when its `pyvenv.cfg` gives a version,
/// else an installed version.
pub fn environment_in_version_folder<F: FileSystem, X: PythonProbe>(
    fs: &F,
    probe: &X,
    executable: &str,
    path: &str,
    manager: &Option<EnvManager>,
) -> (r: Option<PythonEnvironment>)
    ensures
        r matches Some(env) ==> (env.category == PythonEnvironmentKind::Pyenv || env.category
            == PythonEnvironmentKind::PyenvVirtualEnv) && opt_view(env.executable) == Some(executable@)
            && opt_view(env.prefix) == Some(path@) && env.manager == *manager,
        file_name_of(path@) is Some ==> r is Some,
{
    let pyvenv_version = match PyVenvCfg::find(fs, path) {
        Some(cfg) => Some(cfg.version),
        None => None,
    };
    if pyvenv_version.is_some() {
        return get_virtual_env_environment(
            executable,
            path,
            manager,
            pyvenv_version,
            probe.find_executables(path),
        );
    }
    get_generic_python_environment(
        executable,
        path,
        manager,
        probe.version_from_header_files(path),
        probe.find_executables(path),
    )
}

/// `e` is what the pyenv locator lists from a `versions` folder: a conda
/// environment, or a pyenv environment or virtual environment of `manager`.
pub open spec fn pyenv_listed(e: PythonEnvironment, manager: Option<EnvManager>) -> bool {
    e.category == PythonEnvironmentKind::Conda || ((e.category == PythonEnvironmentKind::Pyenv
        || e.category == PythonEnvironmentKind::PyenvVirtualEnv) && e.manager == manager)
}

/// The environments in pyenv's `versions` folder: a conda installation there is
/// described by the conda locator (its environments and manager); any other
/// folder with a Python executable is a pyenv environment.
pub fn list_pyenv_environments<F: FileSystem, X: PythonProbe>(
    fs: &F,
    probe: &X,
    conda: &mut Conda,
    platform: Platform,
    manager: &Option<EnvManager>,
    versions_dir: &str,
) -> (r: LocatorResult)
    requires
        old(conda).wf(),
    ensures
        final(conda).wf(),
        final(conda).env_vars == old(conda).env_vars,
        final(conda).conda_executable == old(conda).conda_executable,
        forall|k: int| 0 <= k < r.environments@.len() ==> pyenv_listed(#[trigger] r.environments@[k], *manager),
{
    let mut environments: Vec<PythonEnvironment> = Vec::new();
    let mut managers: Vec<EnvManager> = Vec::new();
    let entries = fs.read_dir(versions_dir);
    let mut i: usize = 0;
    while i < entries.len()
        invariant
            0 <= i <= entries@.len(),
            conda.wf(),
            conda.env_vars == old(conda).env_vars,
            conda.conda_executable == old(conda).conda_executable,
            forall|k: int| 0 <= k < environments@.len() ==> pyenv_listed(#[trigger] environments@[k], *manager),
        decreases entries.len() - i,
    {
        let path = &entries[i];
        match probe.find_executable(path.as_str()) {
            Some(executable) => {
                if is_conda_env(fs, path.as_str()) {
                    match conda.find_in(fs, probe, platform, path.as_str()) {
                        Some(mut result) => {
                            let ghost before = environments@;
                            let ghost added = result.environments@;
                            environments.append(&mut result.environments);
                            assert forall|k: int| 0 <= k < environments@.len() implies pyenv_listed(
                                #[trigger] environments@[k],
                                *manager,
                            ) by {
                                if k < before.len() {
                                    assert(environments@[k] == before[k]);
                                } else {
                                    assert(environments@[k] == added[k - before.len()]);
                                }
                            }
                            managers.append(&mut result.managers);
                        },
                        None => {},
                    }
                } else {
                    match environment_in_version_folder(
                        fs,
                        probe,
                        executable.as_str(),
                        path.as_str(),
                        manager,
                    ) {
                        Some(env) => {
                            let ghost before = environments@;
                            environments.push(env);
                            assert forall|k: int| 0 <= k < environments@.len() implies pyenv_listed(
                                #[trigger] environments@[k],
                                *manager,
                            ) by {
                                if k < before.len() {
                                    assert(environments@[k] == before[k]);
                                }
                            }
                        },
                        None => {},
                    }
                }
            },
            None => {},
        }
        i = i + 1;
    }
    LocatorResult { managers, environments }
}

/// The pyenv locator.
#[derive(Debug, Clone)]
pub struct PyEnv {
    pub env_vars: EnvVariables,
}

impl PyEnv {
    pub fn from(environment: &Environment) -> (r: PyEnv)
        ensures
            r.env_vars.home == environment.home,
            r.env_vars.pyenv_root == var_lookup(environment.vars@, "PYENV_ROOT"@),
            r.env_vars.pyenv == var_lookup(environment.vars@, "PYENV"@),
    {
        PyEnv { env_vars: EnvVariables::from(environment) }
    }
}

impl PyEnv {
    /// Identifies `env` as a pyenv environment, given pyenv's manager and its
    /// `versions` folder: never a conda environment (by its prefix, or the folder
    /// of its executable or the one above); only an executable under the
    /// `versions` folder with a known prefix.
    pub fn try_from<F: FileSystem, X: PythonProbe>(
        &self,
        fs: &F,
        probe: &X,
        manager: &Option<EnvManager>,
        versions: &Option<String>,
        env: &PythonEnv,
    ) -> (r: Option<PythonEnvironment>)
        ensures
            r matches Some(e) ==> {
                &&& versions matches Some(v)
                &&& path_starts_with(env.executable@, v@)
                &&& env.prefix matches Some(p)
                &&& opt_view(e.prefix) == Some(p@)
                &&& opt_view(e.executable) == Some(env.executable@)
                &&& e.manager == *manager
                &&& (e.category == PythonEnvironmentKind::Pyenv || e.category
                    == PythonEnvironmentKind::PyenvVirtualEnv)
            },
            versions is None || env.prefix is None ==> r is None,
    {
        match &env.prefix {
            Some(prefix) => {
                if is_conda_env(fs, prefix.as_str()) {
                    return None;
                }
            },
            None => {},
        }
        let parent = match parent_path(env.executable.as_str()) {
            Some(p) => p,
            None => {
                return None;
            },
        };
        if is_conda_env(fs, parent.as_str()) {
            return None;
        }
        let grand = match parent_path(parent.as_str()) {
            Some(p) => p,
            None => {
                return None;
            },
        };
        if is_conda_env(fs, grand.as_str()) {
            return None;
        }
        let versions_dir = match versions {
            Some(v) => v,
            None => {
                return None;
            },
        };
        if !path_starts_with_exec(env.executable.as_str(), versions_dir.as_str()) {
            return None;
        }
        let env_path = match &env.prefix {
            Some(p) => p,
            None => {
                return None;
            },
        };
        environment_in_version_folder(fs, probe, env.executable.as_str(), env_path.as_str(), manager)
    }

    /// Reports pyenv's manager, when known, then the environments in its
    /// `versions` folder and the managers found among them.
    pub fn find<F: FileSystem, X: PythonProbe, R: Reporter>(
        &self,
        fs: &F,
        probe: &X,
        conda: &mut Conda,
        platform: Platform,
        manager: &Option<EnvManager>,
        versions: &Option<String>,
        reporter: &R,
    )
        requires
            old(conda).wf(),
        ensures
            final(conda).wf(),
    {
        match manager {
            Some(m) => reporter.report_manager(m),
            None => {},
        }
        match versions {
            Some(v) => {
                let result = list_pyenv_environments(fs, probe, conda, platform, manager, v.as_str());
                let mut i: usize = 0;
                while i < result.environments.len()
                    decreases result.environments.len() - i,
                {
                    reporter.report_environment(&result.environments[i]);
                    i = i + 1;
                }
                let mut j: usize = 0;
                while j < result.managers.len()
                    decreases result.managers.len() - j,
                {
                    reporter.report_manager(&result.managers[j]);
                    j = j + 1;
                }
            },
            None => {},
        }
    }
}

impl Locator for PyEnv {
    fn get_kind(&self) -> (r: LocatorKind)
        ensures
            r == LocatorKind::PyEnv,
    {
        LocatorKind::PyEnv
    }

    /// pyenv takes nothing from the configuration.
    fn configure(&mut self, config: &Configuration)
        ensures
            final(self).env_vars.home == old(self).env_vars.home,
    {
    }

    fn supported_categories(&self) -> (r: Vec<PythonEnvironmentKind>)
        ensures
            r@ == seq![PythonEnvironmentKind::Pyenv, PythonEnvironmentKind::PyenvVirtualEnv],
    {
        let mut v: Vec<PythonEnvironmentKind> = Vec::new();
        v.push(PythonEnvironmentKind::Pyenv);
        v.push(PythonEnvironmentKind::PyenvVirtualEnv);
        v
    }
}

} // verus!
