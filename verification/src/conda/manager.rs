//! The conda executable that manages an environment.
use vstd::prelude::*;
use crate::conda::environments::get_conda_installation_used_to_create_conda_env;
use crate::conda::package::{get_conda_package_info, package_looked_up, package_read_from, CondaPackageInfo, Package};
use crate::conda::utils::is_conda_env;
use crate::manager::{EnvManager, EnvManagerType};
use crate::os_environment::{FileSystem, Platform};
use crate::conda::env_variables::EnvVariables;
use crate::conda::environment_locations::split_search_paths;
use crate::paths::{join, join_path, parent_path, resolve_symlink, string_views};
use crate::text::split_on;

verus! {

/// What `conda info --json` reports of an installation.
#[derive(Debug, Clone, PartialEq, Eq)]
pub struct CondaInfo {
    pub executable: String,
    pub envs: Vec<String>,
    pub conda_prefix: Option<String>,
    pub conda_version: String,
    pub envs_dirs: Vec<String>,
    pub config_files: Vec<String>,
    pub rc_path: Option<String>,
    pub sys_rc_path: Option<String>,
    pub user_rc_path: Option<String>,
    pub root_prefix: Option<String>,
}

/// What `conda info --json` prints, every member optional.
#[derive(Debug, Clone, PartialEq, Eq)]
pub struct CondaInfoJson {
    pub envs: Option<Vec<String>>,
    pub conda_prefix: Option<String>,
    pub conda_version: Option<String>,
    pub envs_dirs: Option<Vec<String>>,
    pub envs_path: Option<Vec<String>>,
    pub config_files: Option<Vec<String>>,
    pub rc_path: Option<String>,
    pub user_rc_path: Option<String>,
    pub sys_rc_path: Option<String>,
    pub root_prefix: Option<String>,
}

/// The members of a list that may be missing, none when it is.
pub open spec fn listed(v: Option<Vec<String>>) -> Seq<String> {
    match v {
        Some(l) => l@,
        None => Seq::empty(),
    }
}

fn take_list(v: Option<Vec<String>>) -> (r: Vec<String>)
    ensures
        r@ == listed(v),
{
    match v {
        Some(l) => l,
        None => Vec::new(),
    }
}

/// The description of the installation that `conda info --json`, run as
/// `executable`, printed: missing lists are empty, a missing version is empty,
/// and the environment folders are `envs_dirs` followed by `envs_path`.
pub fn conda_info_from_json(executable: String, info: CondaInfoJson) -> (r: CondaInfo)
    ensures
        r.executable == executable,
        r.envs@ == listed(info.envs),
        r.conda_prefix == info.conda_prefix,
        r.conda_version@ == (match info.conda_version {
            Some(v) => v@,
            None => Seq::<char>::empty(),
        }),
        r.envs_dirs@ == listed(info.envs_dirs) + listed(info.envs_path),
        r.config_files@ == listed(info.config_files),
        r.rc_path == info.rc_path,
        r.sys_rc_path == info.sys_rc_path,
        r.user_rc_path == info.user_rc_path,
        r.root_prefix == info.root_prefix,
{
    let mut envs_dirs = take_list(info.envs_dirs);
    let mut envs_path = take_list(info.envs_path);
    envs_dirs.append(&mut envs_path);
    CondaInfo {
        executable,
        envs: take_list(info.envs),
        conda_prefix: info.conda_prefix,
        conda_version: match info.conda_version {
            Some(v) => v,
            None => String::new(),
        },
        envs_dirs,
        config_files: take_list(info.config_files),
        rc_path: info.rc_path,
        sys_rc_path: info.sys_rc_path,
        user_rc_path: info.user_rc_path,
        root_prefix: info.root_prefix,
    }
}

/// The conda executable to run `conda info` with: the one given, else `conda`;
/// on Linux and macOS a symlink to a conda executable is followed.
pub fn conda_info_executable<F: FileSystem>(fs: &F, executable: Option<String>, platform: Platform) -> (r:
    String)
    ensures
        platform == Platform::Windows ==> r@ == (match executable {
            Some(e) => e@,
            None => "conda"@,
        }),
        platform != Platform::Windows ==> ({
            let given = match executable {
                Some(e) => e@,
                None => "conda"@,
            };
            r@ == given || (crate::paths::file_name_of(given) matches Some(n)
                && crate::paths::resolvable_name(n) && r@ != given)
        }),
{
    let exe = match executable {
        Some(e) => e,
        None => "conda".to_owned(),
    };
    if platform == Platform::Windows {
        return exe;
    }
    match resolve_symlink(fs, exe.as_str()) {
        Some(t) => t,
        None => exe,
    }
}

/// Whether a failure to run conda is the quiet case: conda was not named and
/// could not be found.
pub fn is_missing_default_conda(using_default: bool, not_found: bool) -> (r: bool)
    ensures
        r == (using_default && not_found),
{
    using_default && not_found
}

/// A conda installation able to manage environments.
#[derive(Debug, Clone, PartialEq, Eq)]
pub struct CondaManager {
    pub executable: String,
    pub version: Option<String>,
    pub conda_dir: Option<String>,
}

/// Where the conda executable of an installation is, relative to it.
pub open spec fn conda_exe_candidates(platform: Platform) -> Seq<Seq<char>> {
    if platform == Platform::Windows {
        seq!["Scripts/conda.exe"@, "Scripts/conda.bat"@]
    } else {
        seq!["bin/conda"@]
    }
}

/// The names of the conda executable.
pub fn get_conda_bin_names(platform: Platform) -> (r: Vec<&'static str>)
    ensures
        platform == Platform::Windows ==> r@.len() == 2 && r@[0]@ == "conda.exe"@ && r@[1]@
            == "conda.bat"@,
        platform != Platform::Windows ==> r@.len() == 1 && r@[0]@ == "conda"@,
{
    let mut names: Vec<&'static str> = Vec::new();
    if platform == Platform::Windows {
        names.push("conda.exe");
        names.push("conda.bat");
    } else {
        names.push("conda");
    }
    names
}

/// Whether `exe` is where an installation at `dir` keeps its conda executable.
pub open spec fn is_conda_exe_of(exe: Seq<char>, dir: Seq<char>, platform: Platform) -> bool {
    exists|k: int|
        0 <= k < conda_exe_candidates(platform).len() && exe == join(
            dir,
            #[trigger] conda_exe_candidates(platform)[k],
        )
}

/// The names the conda executable has.
pub open spec fn conda_bin_names(platform: Platform) -> Seq<Seq<char>> {
    if platform == Platform::Windows {
        seq!["conda.exe"@, "conda.bat"@]
    } else {
        seq!["conda"@]
    }
}

/// The separator of a search-path list.
pub open spec fn path_list_separator(platform: Platform) -> char {
    if platform == Platform::Windows {
        ';'
    } else {
        ':'
    }
}

/// The first conda executable (a file or a symbolic link) in the folders of `PATH`,
/// folder by folder in order, each folder's names in the order of
/// [`conda_bin_names`].
pub fn find_conda_binary<F: FileSystem>(fs: &F, env_vars: &EnvVariables, platform: Platform) -> (r:
    Option<String>)
    ensures
        env_vars.path is None ==> r is None,
        r matches Some(exe) ==> env_vars.path matches Some(v) && exists|k: int, j: int|
            0 <= k < split_on(v@, path_list_separator(platform)).len() && 0 <= j
                < conda_bin_names(platform).len() && exe@ == join(
                #[trigger] split_on(v@, path_list_separator(platform))[k],
                #[trigger] conda_bin_names(platform)[j],
            ),
{
    let paths = match &env_vars.path {
        Some(p) => p,
        None => {
            return None;
        },
    };
    let dirs = split_search_paths(paths.as_str(), platform);
    let names = get_conda_bin_names(platform);
    assert(names@.map_values(|s: &'static str| s@) =~= conda_bin_names(platform));
    let ghost pieces = split_on(paths@, path_list_separator(platform));
    assert(string_views(dirs@) == pieces);
    let mut k: usize = 0;
    while k < dirs.len()
        invariant
            0 <= k <= dirs@.len(),
            string_views(dirs@) == pieces,
            pieces == split_on(paths@, path_list_separator(platform)),
            names@.map_values(|s: &'static str| s@) == conda_bin_names(platform),
            env_vars.path == Some(*paths),
        decreases dirs.len() - k,
    {
        let mut j: usize = 0;
        while j < names.len()
            invariant
                0 <= k < dirs@.len(),
                0 <= j <= names@.len(),
                string_views(dirs@) == pieces,
                pieces == split_on(paths@, path_list_separator(platform)),
                names@.map_values(|s: &'static str| s@) == conda_bin_names(platform),
                env_vars.path == Some(*paths),
            decreases names.len() - j,
        {
            let candidate = join_path(dirs[k].as_str(), names[j]);
            if fs.is_file(candidate.as_str()) || fs.is_symlink(candidate.as_str()) {
                assert(pieces[k as int] == dirs@[k as int]@);
                assert(conda_bin_names(platform)[j as int] == names@[j as int]@);
                assert(candidate@ == join(pieces[k as int], conda_bin_names(platform)[j as int]));
                assert(env_vars.path matches Some(v) && v@ == paths@);
                return Some(candidate);
            }
            j = j + 1;
        }
        k = k + 1;
    }
    None
}

/// The conda executable of the installation at `path`, if one exists.
pub fn get_conda_executable<F: FileSystem>(fs: &F, platform: Platform, path: &str) -> (r: Option<
    String,
>)
    ensures
        r matches Some(exe) ==> exists|k: int|
            0 <= k < conda_exe_candidates(platform).len() && exe@ == join(
                path@,
                #[trigger] conda_exe_candidates(platform)[k],
            ),
{
    let candidates: Vec<&'static str> = if platform == Platform::Windows {
        let mut v: Vec<&'static str> = Vec::new();
        v.push("Scripts/conda.exe");
        v.push("Scripts/conda.bat");
        v
    } else {
        let mut v: Vec<&'static str> = Vec::new();
        v.push("bin/conda");
        v
    };
    assert(candidates@.map_values(|s: &'static str| s@) =~= conda_exe_candidates(platform));
    let mut i: usize = 0;
    while i < candidates.len()
        invariant
            0 <= i <= candidates@.len(),
            candidates@.map_values(|s: &'static str| s@) == conda_exe_candidates(platform),
        decreases candidates.len() - i,
    {
        let exe = join_path(path, candidates[i]);
        if fs.path_exists(exe.as_str()) {
            assert(conda_exe_candidates(platform)[i as int] == candidates@[i as int]@);
            return Some(exe);
        }
        i = i + 1;
    }
    None
}

impl CondaManager {
    /// A copy of the manager.
    pub fn duplicate(&self) -> (r: Self)
        ensures
            r == *self,
    {
        CondaManager {
            executable: self.executable.clone(),
            version: match &self.version {
                Some(v) => Some(v.clone()),
                None => None,
            },
            conda_dir: self.conda_dir.clone(),
        }
    }

    /// The manager as an [`EnvManager`] of type conda.
    pub fn to_manager(&self) -> (r: EnvManager)
        ensures
            r.tool == EnvManagerType::Conda,
            r.executable == self.executable,
            r.version == self.version,
    {
        EnvManager {
            tool: EnvManagerType::Conda,
            executable: self.executable.clone(),
            version: self.version.clone(),
        }
    }

    /// The manager of the conda environment at `path`: its own installation, the
    /// installation above its `envs` folder, or the one its history names.
    pub fn from<F: FileSystem>(fs: &F, platform: Platform, path: &str) -> (r: Option<CondaManager>)
        ensures
            r matches Some(m) ==> m.conda_dir matches Some(d) && m.version is Some && is_conda_exe_of(
                m.executable@,
                d@,
                platform,
            ),
    {
        if !is_conda_env(fs, path) {
            return None;
        }
        match get_conda_manager(fs, platform, path) {
            Some(m) => Some(m),
            None => {
                let parent = match parent_path(path) {
                    Some(p) => p,
                    None => {
                        return None;
                    },
                };
                let grand = match parent_path(parent.as_str()) {
                    Some(p) => p,
                    None => {
                        return None;
                    },
                };
                match get_conda_manager(fs, platform, grand.as_str()) {
                    Some(m) => Some(m),
                    None => {
                        let install = match get_conda_installation_used_to_create_conda_env(
                            fs,
                            grand.as_str(),
                        ) {
                            Some(i) => i,
                            None => {
                                return None;
                            },
                        };
                        get_conda_manager(fs, platform, install.as_str())
                    },
                }
            },
        }
    }

    /// The manager that `conda info` describes, run as `executable`.
    pub fn from_info(executable: &str, info: &CondaInfo) -> (r: Option<CondaManager>)
        ensures
            r matches Some(m) && m.executable@ == executable@ && m.version == Some(info.conda_version)
                && m.conda_dir == info.conda_prefix,
    {
        Some(
            CondaManager {
                executable: executable.to_owned(),
                version: Some(info.conda_version.clone()),
                conda_dir: info.conda_prefix.clone(),
            },
        )
    }
}

/// The manager of the installation at `path`: its conda executable and the
/// version of its conda package.
pub fn get_conda_manager<F: FileSystem>(fs: &F, platform: Platform, path: &str) -> (r: Option<
    CondaManager,
>)
    ensures
        r matches Some(m) ==> m.conda_dir matches Some(d) && d@ == path@ && m.version is Some
            && is_conda_exe_of(m.executable@, d@, platform),
        r matches Some(m) ==> exists|info: CondaPackageInfo|
            #[trigger] package_looked_up(path@, Package::Conda, Some(info)) && m.version == Some(
                info.version,
            ),
        r matches Some(m) ==> exists|info: CondaPackageInfo|
            #[trigger] package_read_from(fs, path@, Package::Conda, Some(info)) && m.version == Some(
                info.version,
            ),
{
    let conda_exe = match get_conda_executable(fs, platform, path) {
        Some(e) => e,
        None => {
            return None;
        },
    };
    match get_conda_package_info(fs, path, &Package::Conda) {
        Some(pkg) => Some(
            CondaManager { executable: conda_exe, version: Some(pkg.version), conda_dir: Some(path.to_owned()) },
        ),
        None => None,
    }
}

} // verus!
