//! Pipenv environments and the projects they belong to.
use vstd::prelude::*;
use crate::locator::{Configuration, Locator, LocatorKind, PythonEnv};
use crate::os_environment::{answered_exists, answered_text, var_lookup, Environment, FileSystem};
use crate::paths::join;
use crate::paths::{file_name, file_name_of, join_path, parent_of, parent_path};
use crate::python_environment::{PythonEnvironment, PythonEnvironmentBuilder, PythonEnvironmentKind};
use crate::os_environment::PythonProbe;
use crate::text::{chars_eq, chars_to_string, parse_u64, str_to_chars, trim_chars, trim_ws, u64_text};

verus! {

/// The variables Pipenv discovery reads.
#[derive(Debug, Clone, PartialEq, Eq)]
pub struct EnvVariables {
    pub pipenv_max_depth: u16,
    pub pipenv_pipfile: String,
}

/// `PIPENV_MAX_DEPTH` as a `u16`, 3 when unset or not a `u16`.
pub open spec fn max_depth_of(v: Option<String>) -> u16 {
    match v {
        Some(s) => match u64_text(s@) {
            Some(n) => if n <= 65535 {
                n as u16
            } else {
                3
            },
            None => 3,
        },
        None => 3,
    }
}

impl EnvVariables {
    pub fn from(env: &Environment) -> (r: Self)
        ensures
            r.pipenv_max_depth == max_depth_of(var_lookup(env.vars@, "PIPENV_MAX_DEPTH"@)),
            r.pipenv_pipfile@ == (match var_lookup(env.vars@, "PIPENV_PIPFILE"@) {
                Some(f) => f@,
                None => "Pipfile"@,
            }),
    {
        let depth = match env.get_env_var("PIPENV_MAX_DEPTH") {
            Some(s) => match parse_u64(&str_to_chars(s.as_str())) {
                Some(n) => if n <= 65535 {
                    n as u16
                } else {
                    3
                },
                None => 3,
            },
            None => 3,
        };
        let pipfile = match env.get_env_var("PIPENV_PIPFILE") {
            Some(f) => f,
            None => "Pipfile".to_owned(),
        };
        EnvVariables { pipenv_max_depth: depth, pipenv_pipfile: pipfile }
    }
}

/// Whether a folder name is that of a scripts folder (`bin` or `Scripts`).
pub open spec fn is_scripts_dir_name(n: Option<Seq<char>>) -> bool {
    n == Some("bin"@) || n == Some("Scripts"@)
}

fn is_scripts_dir(path: &str) -> (r: bool)
    ensures
        r == is_scripts_dir_name(file_name_of(path@)),
{
    match file_name(path) {
        Some(n) => {
            let c = str_to_chars(n.as_str());
            chars_eq(&c, &str_to_chars("bin")) || chars_eq(&c, &str_to_chars("Scripts"))
        },
        None => false,
    }
}

/// The `.project` file of the Pipenv environment at `prefix`.
pub open spec fn pipenv_project_file(prefix: Seq<char>) -> Seq<char> {
    crate::paths::join(prefix, ".project"@)
}

/// The project folder a Pipenv environment's `.project` file names (trimmed), if
/// the file and the folder exist: a folder comes back only when the file system
/// said that `<prefix>/.project` exists, gave its text, and said that the
/// trimmed text exists; none comes back only when it said one of these did not
/// hold.
pub fn get_pipenv_project_from_prefix<F: FileSystem>(fs: &F, prefix: &str) -> (r: Option<String>)
    ensures
        r matches Some(f) ==> exists|t: Seq<char>| f@ == trim_ws(t),
        r matches Some(f) ==> {
            &&& answered_exists(fs, pipenv_project_file(prefix@), true)
            &&& exists|t: Seq<char>|
                #[trigger] answered_text(fs, pipenv_project_file(prefix@), Some(t)) && f@ == trim_ws(t)
            &&& answered_exists(fs, f@, true)
        },
        r is None ==> {
            ||| answered_exists(fs, pipenv_project_file(prefix@), false)
            ||| answered_text(fs, pipenv_project_file(prefix@), None)
            ||| exists|t: Seq<char>|
                #[trigger] answered_text(fs, pipenv_project_file(prefix@), Some(t)) && answered_exists(
                    fs,
                    trim_ws(t),
                    false,
                )
        },
{
    let project_file = join_path(prefix, ".project");
    let pf: &str = project_file.as_str();
    let file_exists = fs.path_exists(pf);
    assert(answered_exists(fs, pipenv_project_file(prefix@), file_exists));
    if !file_exists {
        return None;
    }
    let text = fs.read_to_string(pf);
    assert(answered_text(fs, pipenv_project_file(prefix@), crate::text::opt_view(text)));
    let contents = match text {
        Some(c) => c,
        None => {
            return None;
        },
    };
    let folder = chars_to_string(trim_chars(&str_to_chars(contents.as_str())).as_slice());
    let fd: &str = folder.as_str();
    let folder_exists = fs.path_exists(fd);
    assert(answered_exists(fs, folder@, folder_exists));
    if folder_exists {
        Some(folder)
    } else {
        None
    }
}

/// The folder of the environment whose executable is in `bin`: above `bin` when
/// it is a scripts folder, `bin` itself otherwise.
pub fn venv_dir_of(bin: &str) -> (r: Option<String>)
    ensures
        opt_view_eq(r, if is_scripts_dir_name(file_name_of(bin@)) {
            parent_of(bin@)
        } else {
            Some(bin@)
        }),
{
    if is_scripts_dir(bin) {
        parent_path(bin)
    } else {
        Some(bin.to_owned())
    }
}

/// The file system named the existing folder `project` in the `.project` file of
/// `dir` (see [`get_pipenv_project_from_prefix`]).
pub open spec fn dot_project_names<F: FileSystem>(fs: &F, dir: Seq<char>, project: Seq<char>) -> bool {
    &&& answered_exists(fs, pipenv_project_file(dir), true)
    &&& exists|t: Seq<char>| #[trigger] answered_text(fs, pipenv_project_file(dir), Some(t)) && project == trim_ws(t)
    &&& answered_exists(fs, project, true)
}

/// The environment folder of an executable in `bin`: above `bin` when that is a
/// scripts folder, `bin` itself otherwise.
pub open spec fn venv_dir_spec(bin: Seq<char>) -> Option<Seq<char>> {
    if is_scripts_dir_name(file_name_of(bin)) {
        parent_of(bin)
    } else {
        Some(bin)
    }
}

/// `p` is a project that `env` can belong to, as the file system answered: named
/// by the `.project` file of its prefix or of its environment folder, or the
/// folder above either, answered as holding a `Pipfile`.
pub open spec fn pipenv_project_found<F: FileSystem>(fs: &F, env: PythonEnv, p: Seq<char>) -> bool {
    ||| env.prefix matches Some(x) && dot_project_names(fs, x@, p)
    ||| env.prefix matches Some(x) && parent_of(x@) == Some(p) && answered_exists(fs, join(p, "Pipfile"@), true)
    ||| parent_of(env.executable@) matches Some(bin) && venv_dir_spec(bin) matches Some(v) && (
        dot_project_names(fs, v, p) || (parent_of(v) == Some(p) && answered_exists(
            fs,
            join(p, "Pipfile"@),
            true,
        )))
}

/// `r` holds the text `v`.
pub open spec fn opt_view_eq(r: Option<String>, v: Option<Seq<char>>) -> bool {
    crate::text::opt_view(r) == v
}

/// The Pipenv project of `env`: named by the `.project` file of its prefix, the
/// prefix's parent when that holds a `Pipfile`, the folder above its environment
/// folder when that holds a `Pipfile`, or named by the environment folder's
/// `.project` file.
pub fn get_pipenv_project<F: FileSystem>(fs: &F, env: &PythonEnv) -> (r: Option<String>)
    ensures
        env.prefix is None && parent_of(env.executable@) is None ==> r is None,
        r matches Some(p) ==> (env.prefix matches Some(x) && parent_of(x@) == Some(p@)) || (
        parent_of(env.executable@) matches Some(bin) && (parent_of(bin) == Some(p@) || (
        parent_of(bin) matches Some(v) && parent_of(v) == Some(p@)))) || exists|t: Seq<char>|
            p@ == trim_ws(t),
        r matches Some(p) ==> pipenv_project_found(fs, *env, p@),
{
    match &env.prefix {
        Some(prefix) => {
            match get_pipenv_project_from_prefix(fs, prefix.as_str()) {
                Some(p) => {
                    return Some(p);
                },
                None => {},
            }
            match parent_path(prefix.as_str()) {
                Some(parent) => {
                    let pipfile = join_path(parent.as_str(), "Pipfile");
                    let pf: &str = pipfile.as_str();
                    let found = fs.path_exists(pf);
                    assert(answered_exists(fs, join(parent@, "Pipfile"@), found));
                    if found {
                        return Some(parent);
                    }
                },
                None => {},
            }
        },
        None => {},
    }
    let bin = match parent_path(env.executable.as_str()) {
        Some(b) => b,
        None => {
            return None;
        },
    };
    match venv_dir_of(bin.as_str()) {
        Some(venv) => match parent_path(venv.as_str()) {
            Some(project) => {
                let pipfile = join_path(project.as_str(), "Pipfile");
                let pf: &str = pipfile.as_str();
                let found = fs.path_exists(pf);
                assert(answered_exists(fs, join(project@, "Pipfile"@), found));
                if found {
                    return Some(project);
                }
            },
            None => {},
        },
        None => {},
    }
    if is_scripts_dir(bin.as_str()) {
        match parent_path(bin.as_str()) {
            Some(venv) => get_pipenv_project_from_prefix(fs, venv.as_str()),
            None => None,
        }
    } else {
        get_pipenv_project_from_prefix(fs, bin.as_str())
    }
}

/// Whether the folder above `env`'s prefix, or above its environment folder,
/// holds a `Pipfile`.
pub fn is_pipenv_from_project<F: FileSystem>(fs: &F, env: &PythonEnv) -> (r: bool)
    ensures
        r ==> (env.prefix matches Some(p) && parent_of(p@) is Some) || parent_of(env.executable@) is Some,
        r ==> pipfile_above(fs, *env),
{
    match &env.prefix {
        Some(prefix) => match parent_path(prefix.as_str()) {
            Some(project) => {
                let pipfile = join_path(project.as_str(), "Pipfile");
                let pf: &str = pipfile.as_str();
                let found = fs.path_exists(pf);
                assert(answered_exists(fs, join(project@, "Pipfile"@), found));
                if found {
                    return true;
                }
            },
            None => {},
        },
        None => {},
    }
    match parent_path(env.executable.as_str()) {
        Some(bin) => match venv_dir_of(bin.as_str()) {
            Some(venv) => match parent_path(venv.as_str()) {
                Some(project) => {
                    let pipfile = join_path(project.as_str(), "Pipfile");
                    let pf: &str = pipfile.as_str();
                    let found = fs.path_exists(pf);
                    assert(answered_exists(fs, join(project@, "Pipfile"@), found));
                    found
                },
                None => false,
            },
            None => false,
        },
        None => false,
    }
}

/// The file system answered that the folder above `env`'s prefix, or above its
/// environment folder, holds a `Pipfile`.
pub open spec fn pipfile_above<F: FileSystem>(fs: &F, env: PythonEnv) -> bool {
    ||| env.prefix matches Some(x) && parent_of(x@) matches Some(p) && answered_exists(
        fs,
        join(p, "Pipfile"@),
        true,
    )
    ||| parent_of(env.executable@) matches Some(bin) && venv_dir_spec(bin) matches Some(v) && parent_of(
        v,
    ) matches Some(p) && answered_exists(fs, join(p, "Pipfile"@), true)
}

/// Whether `env` is a Pipenv environment: its project holds the Pipfile, or the
/// folder above it holds a `Pipfile`.
pub fn is_pipenv<F: FileSystem>(fs: &F, env: &PythonEnv, env_vars: &EnvVariables) -> (r: bool)
    ensures
        r ==> env.prefix is Some || parent_of(env.executable@) is Some,
        r ==> pipfile_above(fs, *env) || exists|p: Seq<char>|
            #[trigger] pipenv_project_found(fs, *env, p) && answered_exists(
                fs,
                join(p, env_vars.pipenv_pipfile@),
                true,
            ),
{
    match get_pipenv_project(fs, env) {
        Some(project) => {
            let pipfile = join_path(project.as_str(), env_vars.pipenv_pipfile.as_str());
            let pf: &str = pipfile.as_str();
            let found = fs.path_exists(pf);
            assert(answered_exists(fs, join(project@, env_vars.pipenv_pipfile@), found));
            if found {
                assert(pipenv_project_found(fs, *env, project@));
                return true;
            }
        },
        None => {},
    }
    if is_pipenv_from_project(fs, env) {
        return true;
    }
    match get_pipenv_project(fs, env) {
        Some(project) => {
            let pipfile = join_path(project.as_str(), env_vars.pipenv_pipfile.as_str());
            let pf: &str = pipfile.as_str();
            let found = fs.path_exists(pf);
            assert(answered_exists(fs, join(project@, env_vars.pipenv_pipfile@), found));
            assert(pipenv_project_found(fs, *env, project@));
            found
        },
        None => false,
    }
}

/// The Pipenv locator.
#[derive(Debug, Clone, PartialEq, Eq)]
pub struct PipEnv {
    pub env_vars: EnvVariables,
}

impl PipEnv {
    pub fn from(environment: &Environment) -> (r: PipEnv)
        ensures
            r.env_vars.pipenv_max_depth == max_depth_of(var_lookup(environment.vars@, "PIPENV_MAX_DEPTH"@)),
    {
        PipEnv { env_vars: EnvVariables::from(environment) }
    }
}

impl Locator for PipEnv {
    fn get_kind(&self) -> (r: LocatorKind)
        ensures
            r == LocatorKind::PipEnv,
    {
        LocatorKind::PipEnv
    }

    /// Pipenv takes nothing from the configuration.
    fn configure(&mut self, config: &Configuration)
        ensures
            *final(self) == *old(self),
    {
    }

    fn supported_categories(&self) -> (r: Vec<PythonEnvironmentKind>)
        ensures
            r@ == seq![PythonEnvironmentKind::Pipenv],
    {
        let mut v: Vec<PythonEnvironmentKind> = Vec::new();
        v.push(PythonEnvironmentKind::Pipenv);
        v
    }
}

impl PipEnv {
    /// Identifies the environment of `env` as a Pipenv environment of its
    /// project: the prefix is given, or is the folder above a `bin` or `Scripts`
    /// folder holding the executable; the version is given, or is that of the
    /// Python that created the environment.
    pub fn try_from<F: FileSystem, X: PythonProbe>(&self, fs: &F, probe: &X, env: &PythonEnv) -> (r:
        Option<PythonEnvironment>)
        ensures
            r matches Some(e) ==> e.category == PythonEnvironmentKind::Pipenv && crate::text::opt_view(
                e.executable,
            ) == Some(env.executable@) && e.project is Some,
            env.version is Some && r is Some ==> r->0.version == env.version,
            parent_of(env.executable@) is None ==> r is None,
    {
        if !is_pipenv(fs, env, &self.env_vars) {
            return None;
        }
        let project = match get_pipenv_project(fs, env) {
            Some(p) => p,
            None => {
                return None;
            },
        };
        let bin = match parent_path(env.executable.as_str()) {
            Some(b) => b,
            None => {
                return None;
            },
        };
        let prefix = match &env.prefix {
            Some(p) => Some(p.clone()),
            None => match file_name(bin.as_str()) {
                Some(n) => {
                    if chars_eq(&str_to_chars(n.as_str()), &str_to_chars("bin")) || chars_eq(
                        &str_to_chars(n.as_str()),
                        &str_to_chars("Scripts"),
                    ) {
                        parent_path(bin.as_str())
                    } else {
                        None
                    }
                },
                None => None,
            },
        };
        let symlinks = probe.find_executables(bin.as_str());
        let version = match &env.version {
            Some(v) => Some(v.clone()),
            None => match &prefix {
                Some(p) => probe.version_from_creator(p.as_str()),
                None => None,
            },
        };
        let found = PythonEnvironmentBuilder::new(PythonEnvironmentKind::Pipenv)
            .executable(Some(env.executable.clone()))
            .version(version)
            .prefix(prefix)
            .project(Some(project))
            .symlinks(Some(symlinks))
            .build();
        Some(found)
    }
}

} // verus!
