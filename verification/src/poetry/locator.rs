//! The Poetry locator and how it recognises Poetry environments.
use vstd::prelude::*;
use crate::locator::{Configuration, Locator, LocatorKind, LocatorResult, PythonEnv, Reporter};
use crate::manager::EnvManager;
use crate::os_environment::{Environment, FileSystem, Platform, PythonProbe};
use crate::poetry::environment_locations::list_environments;
use crate::poetry::manager::PoetryManager;
use crate::python_environment::{PythonEnvironment, PythonEnvironmentBuilder};
use crate::pyvenv_cfg::PyVenvCfg;
use crate::paths::{file_name, file_name_of, join_path, parent_path};
use crate::poetry::env_variables::EnvVariables;
use crate::python_environment::PythonEnvironmentKind;
use crate::regexes::{is_match, regex_matches};
use crate::text::{chars_eq, contains_sub, contains_text, str_to_chars};

verus! {

/// The names Poetry gives environments in its cache: `<name>-<8 characters>-py...`.
pub open spec fn poetry_env_name_pattern() -> Seq<char> {
    "^.+-[A-Za-z0-9_-]{8}-py.*$"@
}

/// Whether `path` looks like an environment in Poetry's cache: under a
/// `pypoetry` ... `virtualenvs` folder, with a Poetry environment name.
pub open spec fn looks_like_cache_env(path: Seq<char>) -> bool {
    contains_sub(path, "pypoetry"@) && contains_sub(path, "virtualenvs"@) && match file_name_of(path) {
        Some(n) => regex_matches(poetry_env_name_pattern(), n),
        None => false,
    }
}

/// Exec counterpart of [`looks_like_cache_env`].
pub fn is_poetry_cache_environment(path: &str) -> (r: bool)
    ensures
        r == looks_like_cache_env(path@),
{
    if contains_text(path, "pypoetry") && contains_text(path, "virtualenvs") {
        match file_name(path) {
            Some(n) => is_match("^.+-[A-Za-z0-9_-]{8}-py.*$", n.as_str()),
            None => false,
        }
    } else {
        false
    }
}

/// Whether `path` is a project's `.venv` whose project's `pyproject.toml` uses Poetry.
pub fn is_in_project_poetry_environment<F: FileSystem>(fs: &F, path: &str) -> (r: bool)
    ensures
        r ==> file_name_of(path@) == Some(".venv"@),
{
    let name = match file_name(path) {
        Some(n) => n,
        None => {
            return false;
        },
    };
    if !chars_eq(&str_to_chars(name.as_str()), &str_to_chars(".venv")) {
        return false;
    }
    let parent = match parent_path(path) {
        Some(p) => p,
        None => {
            return false;
        },
    };
    let pyproject = join_path(parent.as_str(), "pyproject.toml");
    if !fs.is_file(pyproject.as_str()) {
        return false;
    }
    match fs.read_to_string(pyproject.as_str()) {
        Some(contents) => contains_text(contents.as_str(), "[tool.poetry]") || contains_text(
            contents.as_str(),
            "poetry.core.masonry.api",
        ) || contains_text(contents.as_str(), "poetry-core"),
        None => false,
    }
}

/// The Poetry locator: its workspace folders, environment variables, Poetry
/// executable and last search result.
pub struct Poetry {
    pub workspace_directories: Vec<String>,
    pub env_vars: EnvVariables,
    pub poetry_executable: Option<String>,
    pub search_result: Option<LocatorResult>,
}

impl Poetry {
    pub fn new(environment: &Environment, user_cache_dir: Option<String>, user_config_dir: Option<String>) -> (r: Self)
        ensures
            r.workspace_directories@.len() == 0,
            r.poetry_executable is None,
            r.search_result is None,
            r.env_vars.home == environment.home,
    {
        Poetry {
            workspace_directories: Vec::new(),
            env_vars: EnvVariables::from(environment, user_cache_dir, user_config_dir),
            poetry_executable: None,
            search_result: None,
        }
    }

    pub fn from(environment: &Environment, user_cache_dir: Option<String>, user_config_dir: Option<String>) -> (r: Self)
        ensures
            r.workspace_directories@.len() == 0,
            r.poetry_executable is None,
            r.search_result is None,
            r.env_vars.home == environment.home,
    {
        Poetry::new(environment, user_cache_dir, user_config_dir)
    }

    /// Forgets the Poetry executable and the last search result.
    pub fn clear(&mut self)
        ensures
            final(self).poetry_executable is None,
            final(self).search_result is None,
            final(self).workspace_directories == old(self).workspace_directories,
            final(self).env_vars == old(self).env_vars,
    {
        self.poetry_executable = None;
        self.search_result = None;
    }
}

impl Locator for Poetry {
    fn get_kind(&self) -> (r: LocatorKind)
        ensures
            r == LocatorKind::Poetry,
    {
        LocatorKind::Poetry
    }

    /// Takes the workspace folders and the Poetry executable that the
    /// configuration gives; what it leaves out stays as it was.
    fn configure(&mut self, config: &Configuration)
        ensures
            final(self).poetry_executable == (match config.poetry_executable {
                Some(e) => Some(e),
                None => old(self).poetry_executable,
            }),
            config.workspace_directories is None ==> final(self).workspace_directories
                == old(self).workspace_directories,
            config.workspace_directories matches Some(d) ==> final(self).workspace_directories@ == d@,
    {
        match &config.workspace_directories {
            Some(d) => {
                self.workspace_directories = crate::python_environment::copy_strings(d);
            },
            None => {},
        }
        match &config.poetry_executable {
            Some(e) => {
                self.poetry_executable = Some(e.clone());
            },
            None => {},
        }
    }

    fn supported_categories(&self) -> (r: Vec<PythonEnvironmentKind>)
        ensures
            r@ == seq![PythonEnvironmentKind::Poetry],
    {
        let mut v: Vec<PythonEnvironmentKind> = Vec::new();
        v.push(PythonEnvironmentKind::Poetry);
        v
    }
}

/// The Poetry environment in the folder `prefix` of the project `project_dir`:
/// there is one when a Python executable is found in it; its version is the one
/// its `pyvenv.cfg` records, and its symlinks are the executables in it.
pub fn create_poetry_env<F: FileSystem, X: PythonProbe>(
    fs: &F,
    probe: &X,
    prefix: &str,
    project_dir: String,
    manager: Option<EnvManager>,
) -> (r: Option<PythonEnvironment>)
    ensures
        r matches Some(e) ==> e.category == PythonEnvironmentKind::Poetry && crate::text::opt_view(e.prefix)
            == Some(prefix@) && e.project == Some(project_dir) && e.manager == manager
            && e.executable is Some,
{
    let executable = match probe.find_executable(prefix) {
        Some(e) => e,
        None => {
            return None;
        },
    };
    let version = match PyVenvCfg::find(fs, prefix) {
        Some(cfg) => Some(cfg.version),
        None => None,
    };
    let env = PythonEnvironmentBuilder::new(PythonEnvironmentKind::Poetry)
        .executable(Some(executable))
        .version(version)
        .prefix(Some(prefix.to_owned()))
        .project(Some(project_dir))
        .manager(manager)
        .symlinks(Some(probe.find_executables(prefix)))
        .build();
    Some(env)
}

/// Every environment of `result` is a Poetry environment, and it names at most
/// one manager.
pub open spec fn poetry_result(result: LocatorResult) -> bool {
    &&& result.managers@.len() <= 1
    &&& forall|k: int| 0 <= k < result.environments@.len() ==> (#[trigger] result.environments@[k]).category
        == PythonEnvironmentKind::Poetry
}

impl Poetry {
    /// The Poetry manager and environments: the last search result when there is
    /// one, else a new search (which is kept): the manager that
    /// [`PoetryManager::find`] finds, and an environment for each folder that
    /// [`list_environments`] lists for the workspace folders. `None` when the
    /// search found nothing.
    pub fn find_with_cache<F: FileSystem, X: PythonProbe>(
        &mut self,
        fs: &F,
        probe: &X,
        platform: Platform,
    ) -> (r: Option<LocatorResult>)
        ensures
            final(self).workspace_directories == old(self).workspace_directories,
            final(self).env_vars == old(self).env_vars,
            final(self).poetry_executable == old(self).poetry_executable,
            final(self).search_result is Some,
            old(self).search_result is Some ==> r is Some && final(self).search_result == old(self).search_result,
            old(self).search_result is None ==> (final(self).search_result matches Some(kept) && poetry_result(kept)
                && (r is None <==> kept.managers@.len() == 0 && kept.environments@.len() == 0)
                && (r matches Some(res) ==> poetry_result(res))),
    {
        match &self.search_result {
            Some(res) => {
                return Some(res.clone());
            },
            None => {},
        }
        let manager = PoetryManager::find(fs, self.poetry_executable.clone(), &self.env_vars, platform);
        let mut managers: Vec<EnvManager> = Vec::new();
        let reported: Option<EnvManager> = match &manager {
            Some(m) => {
                let em = m.to_manager();
                managers.push(m.to_manager());
                Some(em)
            },
            None => None,
        };
        let mut environments: Vec<PythonEnvironment> = Vec::new();
        match list_environments(fs, &self.env_vars, &self.workspace_directories) {
            Some(found) => {
                let mut i: usize = 0;
                while i < found.len()
                    invariant
                        0 <= i <= found@.len(),
                        forall|k: int| 0 <= k < environments@.len() ==> (#[trigger] environments@[k]).category
                            == PythonEnvironmentKind::Poetry,
                    decreases found.len() - i,
                {
                    let (path, project) = (&found[i].0, &found[i].1);
                    match create_poetry_env(
                        fs,
                        probe,
                        path.as_str(),
                        project.clone(),
                        crate::manager::duplicate_manager(&reported),
                    ) {
                        Some(env) => {
                            let ghost before = environments@;
                            environments.push(env);
                            assert forall|k: int| 0 <= k < environments@.len() implies (
                            #[trigger] environments@[k]).category == PythonEnvironmentKind::Poetry by {
                                if k < before.len() {
                                    assert(environments@[k] == before[k]);
                                }
                            }
                        },
                        None => {},
                    }
                    i = i + 1;
                }
            },
            None => {},
        }
        let empty = managers.len() == 0 && environments.len() == 0;
        let result = LocatorResult { managers, environments };
        let kept = LocatorResult {
            managers: crate::manager::copy_managers(&result.managers),
            environments: crate::python_environment::copy_environments(&result.environments),
        };
        self.search_result = Some(kept);
        if empty {
            None
        } else {
            Some(result)
        }
    }

    /// Identifies `env` as a Poetry environment: never one that is not a virtual
    /// environment; one the search found whose symlinks hold its executable; else
    /// by its prefix, an environment in Poetry's cache (its own project) or an
    /// in-project `.venv` (of the folder above).
    #[verifier::loop_isolation(false)]
    pub fn try_from<F: FileSystem, X: PythonProbe>(
        &mut self,
        fs: &F,
        probe: &X,
        platform: Platform,
        env: &PythonEnv,
    ) -> (r: Option<PythonEnvironment>)
        ensures
            final(self).workspace_directories == old(self).workspace_directories,
            final(self).env_vars == old(self).env_vars,
            final(self).poetry_executable == old(self).poetry_executable,
            old(self).search_result is None ==> (r matches Some(e) ==> e.category == PythonEnvironmentKind::Poetry),
    {
        if !probe.is_virtualenv(env) {
            return None;
        }
        match self.find_with_cache(fs, probe, platform) {
            Some(result) => {
                let mut i: usize = 0;
                while i < result.environments.len()
                    invariant
                        0 <= i <= result.environments@.len(),
                    decreases result.environments.len() - i,
                {
                    let found = &result.environments[i];
                    match &found.symlinks {
                        Some(links) => {
                            if crate::paths::holds_text(links, env.executable.as_str()) {
                                return Some(found.duplicate());
                            }
                        },
                        None => {},
                    }
                    i = i + 1;
                }
            },
            None => {},
        }
        match &env.prefix {
            Some(prefix) => {
                if is_poetry_cache_environment(prefix.as_str()) {
                    return create_poetry_env(fs, probe, prefix.as_str(), prefix.clone(), None);
                }
                if is_in_project_poetry_environment(fs, prefix.as_str()) {
                    let project_dir = match parent_path(prefix.as_str()) {
                        Some(p) => p,
                        None => prefix.clone(),
                    };
                    return create_poetry_env(fs, probe, prefix.as_str(), project_dir, None);
                }
            },
            None => {},
        }
        None
    }

    /// Forgets the last search, searches again and reports the manager and the
    /// environments found.
    pub fn find<F: FileSystem, X: PythonProbe, R: Reporter>(
        &mut self,
        fs: &F,
        probe: &X,
        platform: Platform,
        reporter: &R,
    )
        ensures
            final(self).workspace_directories == old(self).workspace_directories,
            final(self).env_vars == old(self).env_vars,
            final(self).poetry_executable is None,
            final(self).search_result matches Some(kept) && poetry_result(kept),
    {
        self.clear();
        match self.find_with_cache(fs, probe, platform) {
            Some(result) => {
                let mut i: usize = 0;
                while i < result.managers.len()
                    decreases result.managers.len() - i,
                {
                    reporter.report_manager(&result.managers[i]);
                    i = i + 1;
                }
                let mut j: usize = 0;
                while j < result.environments.len()
                    decreases result.environments.len() - j,
                {
                    reporter.report_environment(&result.environments[j]);
                    j = j + 1;
                }
            },
            None => {},
        }
    }
}

} // verus!
