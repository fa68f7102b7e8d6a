use pet::conda::conda_rc::parse_conda_rc_contents;
use pet::conda::env_variables::EnvVariables;
use pet::conda::environment_locations::{get_conda_envs_from_environment_txt, get_environments, get_known_conda_install_locations};
use pet::conda::locator::Conda;
use pet::conda::manager::{find_conda_binary, CondaInfo, CondaManager};
use pet::conda::package::{CondaPackageInfo, Package};
use pet::conda::utils;
use pet::locator::PythonEnv;
use pet::os_environment::{Environment, FileSystem, Platform, PythonProbe, ResolvedPython};
use pet::python_environment::{Architecture, PythonEnvironmentKind};
use std::collections::{BTreeMap, BTreeSet};

const ROOT: &str = "/pet-conda/tests";

/// The path of a folder or file of the conda test data.
fn resolve_test_path(paths: &[&str]) -> String {
    let mut root = ROOT.to_string();
    for p in paths {
        root.push('/');
        root.push_str(p);
    }
    root
}

/// An in-memory tree of folders and files.
#[derive(Default)]
struct MemFs {
    dirs: BTreeSet<String>,
    files: BTreeMap<String, String>,
}

impl MemFs {
    fn add_dir(&mut self, p: &str) {
        let mut cur = String::new();
        for piece in p.split('/').filter(|s| !s.is_empty()) {
            cur.push('/');
            cur.push_str(piece);
            self.dirs.insert(cur.clone());
        }
    }
    fn add_file(&mut self, p: &str, contents: &str) {
        if let Some(i) = p.rfind('/') {
            self.add_dir(&p[..i]);
        }
        self.files.insert(p.to_string(), contents.to_string());
    }
    fn parent(p: &str) -> &str {
        match p.rfind('/') {
            Some(0) => "/",
            Some(i) => &p[..i],
            None => "",
        }
    }
}

impl FileSystem for MemFs {
    fn path_exists(&self, path: &str) -> bool {
        self.is_dir(path) || self.is_file(path)
    }
    fn is_file(&self, path: &str) -> bool {
        self.files.contains_key(path.trim_end_matches('/'))
    }
    fn is_dir(&self, path: &str) -> bool {
        self.dirs.contains(path.trim_end_matches('/'))
    }
    fn read_to_string(&self, path: &str) -> Option<String> {
        self.files.get(path).cloned()
    }
    fn read_dir(&self, path: &str) -> Vec<String> {
        let dir = path.trim_end_matches('/');
        self.dirs
            .iter()
            .chain(self.files.keys())
            .filter(|p| MemFs::parent(p) == dir)
            .cloned()
            .collect()
    }
    fn canonicalize(&self, path: &str) -> Option<String> {
        if self.path_exists(path) {
            Some(path.to_string())
        } else {
            None
        }
    }
    fn is_symlink(&self, _path: &str) -> bool {
        false
    }
}

/// Finds `bin/python` in a prefix of the in-memory tree.
struct MemProbe<'a>(&'a MemFs);

impl PythonProbe for MemProbe<'_> {
    fn find_executable(&self, prefix: &str) -> Option<String> {
        let exe = format!("{}/bin/python", prefix);
        if self.0.is_file(&exe) {
            Some(exe)
        } else {
            None
        }
    }
    fn find_executables(&self, dir: &str) -> Vec<String> {
        self.find_executable(dir).into_iter().collect()
    }
    fn version_from_creator(&self, _prefix: &str) -> Option<String> {
        None
    }
    fn version_from_header_files(&self, _prefix: &str) -> Option<String> {
        None
    }
    fn resolve(&self, _exe: &str) -> Option<ResolvedPython> {
        None
    }
    fn is_virtualenv(&self, env: &PythonEnv) -> bool {
        env.prefix
            .as_ref()
            .map_or(false, |p| self.0.is_file(&format!("{}/pyvenv.cfg", p)))
    }
}

const CONDA_RECORD: &str =
    r#"{"channel": "https://repo.anaconda.com/pkgs/main/osx-arm64", "version": "23.1.0"}"#;
const PYTHON_RECORD: &str =
    r#"{"channel": "https://repo.anaconda.com/pkgs/main/osx-arm64", "version": "3.10.9"}"#;
const HISTORY: &str = "==> 2023-04-10 10:00:00 <==\n# cmd: /opt/anaconda3/bin/conda install python\n+defaults/osx-arm64::python-3.10.9-hc0d8a6c_1\n+defaults/osx-arm64::conda-23.1.0-py310hca03da5_0\n";

fn add_install(fs: &mut MemFs, name: &str, with_history: bool) {
    let base = resolve_test_path(&["unix", name]);
    fs.add_file(&format!("{}/bin/conda", base), "");
    fs.add_file(&format!("{}/bin/python", base), "");
    fs.add_file(&format!("{}/condabin/conda", base), "");
    fs.add_file(
        &format!("{}/conda-meta/conda-23.1.0-py310hca03da5_0.json", base),
        CONDA_RECORD,
    );
    fs.add_file(
        &format!("{}/conda-meta/python-3.10.9-hc0d8a6c_1.json", base),
        PYTHON_RECORD,
    );
    if with_history {
        fs.add_file(&format!("{}/conda-meta/history", base), HISTORY);
    }
    for env in ["env_python_3", "myenv", "without_python"] {
        fs.add_dir(&format!("{}/envs/{}/conda-meta", base, env));
    }
    fs.add_file(&format!("{}/envs/env_python_3/bin/python", base), "");
}

/// The conda test data: two installations (with and without a history file),
/// environments without a manager, and an empty root.
fn test_data() -> MemFs {
    let mut fs = MemFs::default();
    add_install(&mut fs, "anaconda3-2023.03", true);
    add_install(&mut fs, "anaconda3-2023.03-without-history", false);
    fs.add_dir(&resolve_test_path(&["unix", "root_empty"]));

    let lone = resolve_test_path(&["unix", "conda_env_without_manager", "env_python_3"]);
    fs.add_file(&format!("{}/bin/python", lone), "");
    fs.add_file(
        &format!("{}/conda-meta/python-3.12.2-h48ca7d4_0.json", lone),
        r#"{"channel": "https://conda.anaconda.org/conda-forge/osx-64", "version": "3.12.2"}"#,
    );

    let found = resolve_test_path(&[
        "unix",
        "conda_env_without_manager_but_found_in_history",
        "env_python_3",
    ]);
    let install = resolve_test_path(&[
        "unix",
        "conda_env_without_manager_but_found_in_history",
        "some_other_location",
        "conda_install",
    ]);
    fs.add_file(&format!("{}/bin/python", found), "");
    fs.add_file(
        &format!("{}/conda-meta/python-3.12.2-h48ca7d4_0.json", found),
        r#"{"channel": "https://conda.anaconda.org/conda-forge/osx-64", "version": "3.12.2"}"#,
    );
    let history_template =
        "==> 2024-02-28 23:05:07 <==\n# cmd: <CONDA_INSTALL>/bin/conda create -n env_python_3 python=3.12 -y\n# conda version: 23.1.0\n+conda-forge/osx-64::python-3.12.2-h48ca7d4_0_cpython\n";
    fs.add_file(
        &format!("{}/conda-meta/history", found),
        &history_template.replace("<CONDA_INSTALL>", &install),
    );
    fs.add_file(&format!("{}/bin/conda", install), "");
    fs.add_file(&format!("{}/condabin/conda", install), "");
    fs.add_file(
        &format!("{}/conda-meta/conda-23.1.0-py310hca03da5_0.json", install),
        CONDA_RECORD,
    );
    fs
}

fn create_env_variables(home: String, root: String) -> EnvVariables {
    let env = Environment {
        home: Some(home),
        root: Some(root),
        vars: Vec::new(),
        global_search_locations: Vec::new(),
    };
    EnvVariables::from(&env)
}

fn env_with_path(path: &str) -> EnvVariables {
    let env = Environment {
        home: None,
        root: None,
        vars: vec![("PATH".to_string(), path.to_string())],
        global_search_locations: Vec::new(),
    };
    EnvVariables::from(&env)
}

#[test]
fn is_conda_install() {
    let fs = test_data();
    let path = resolve_test_path(&["unix", "anaconda3-2023.03"]);
    assert!(utils::is_conda_install(&fs, &path));

    let path = resolve_test_path(&["unix", "anaconda3-2023.03-without-history"]);
    assert!(utils::is_conda_install(&fs, &path));
}

#[test]
fn is_not_conda_install() {
    let fs = test_data();
    let path = resolve_test_path(&["unix", "some bogus directory"]);
    assert_eq!(utils::is_conda_install(&fs, &path), false);

    let path = resolve_test_path(&["unix", "anaconda3-2023.03", "envs", "env_python_3"]);
    assert_eq!(utils::is_conda_install(&fs, &path), false);
}

#[test]
fn is_conda_env() {
    let fs = test_data();
    let path = resolve_test_path(&["unix", "anaconda3-2023.03"]);
    assert!(utils::is_conda_env(&fs, &path));

    let path = resolve_test_path(&["unix", "anaconda3-2023.03-without-history"]);
    assert!(utils::is_conda_env(&fs, &path));

    let path = resolve_test_path(&["unix", "anaconda3-2023.03", "envs", "env_python_3"]);
    assert!(utils::is_conda_env(&fs, &path));
}

#[test]
fn is_not_conda_env() {
    let fs = test_data();
    let path = resolve_test_path(&["unix", "some bogus directory"]);
    assert_eq!(utils::is_conda_env(&fs, &path), false);

    let path = resolve_test_path(&["unix", "anaconda3-2023.03"]);
    assert!(utils::is_conda_env(&fs, &path));

    let path = resolve_test_path(&["unix", "anaconda3-2023.03-without-history"]);
    assert!(utils::is_conda_env(&fs, &path));
}

#[test]
fn empty_result_for_bogus_paths() {
    let fs = test_data();
    let path = resolve_test_path(&["unix", "bogus_path"]);
    let pkg = CondaPackageInfo::from(&fs, &path, &Package::Conda);
    assert!(pkg.is_none());
}

#[test]
fn get_conda_package_info() {
    let fs = test_data();
    let path = resolve_test_path(&["unix", "anaconda3-2023.03"]);
    let pkg = CondaPackageInfo::from(&fs, &path, &Package::Conda).unwrap();

    assert_eq!(pkg.package, Package::Conda);
    assert_eq!(pkg.version, "23.1.0".to_string());
    assert_eq!(
        pkg.path,
        resolve_test_path(&[
            "unix",
            "anaconda3-2023.03",
            "conda-meta",
            "conda-23.1.0-py310hca03da5_0.json"
        ])
    );
}

#[test]
fn get_python_package_info() {
    let fs = test_data();
    let path = resolve_test_path(&["unix", "anaconda3-2023.03"]);
    let pkg = CondaPackageInfo::from(&fs, &path, &Package::Python).unwrap();

    assert_eq!(pkg.package, Package::Python);
    assert_eq!(pkg.version, "3.10.9".to_string());
    assert_eq!(
        pkg.path,
        resolve_test_path(&[
            "unix",
            "anaconda3-2023.03",
            "conda-meta",
            "python-3.10.9-hc0d8a6c_1.json"
        ])
    );
}

#[test]
fn get_conda_package_info_without_history() {
    let fs = test_data();
    let path = resolve_test_path(&["unix", "anaconda3-2023.03-without-history"]);
    let pkg = CondaPackageInfo::from(&fs, &path, &Package::Conda).unwrap();

    assert_eq!(pkg.package, Package::Conda);
    assert_eq!(pkg.version, "23.1.0".to_string());
    assert_eq!(
        pkg.path,
        resolve_test_path(&[
            "unix",
            "anaconda3-2023.03-without-history",
            "conda-meta",
            "conda-23.1.0-py310hca03da5_0.json"
        ])
    );
}

#[test]
fn get_python_package_info_without_history() {
    let fs = test_data();
    let path = resolve_test_path(&["unix", "anaconda3-2023.03-without-history"]);
    let pkg = CondaPackageInfo::from(&fs, &path, &Package::Python).unwrap();

    assert_eq!(pkg.package, Package::Python);
    assert_eq!(pkg.version, "3.10.9".to_string());
    assert_eq!(
        pkg.path,
        resolve_test_path(&[
            "unix",
            "anaconda3-2023.03-without-history",
            "conda-meta",
            "python-3.10.9-hc0d8a6c_1.json"
        ])
    );
}

#[test]
fn finds_manager_from_root_env() {
    let fs = test_data();
    let path = resolve_test_path(&["unix", "anaconda3-2023.03"]);

    let manager = CondaManager::from(&fs, Platform::Linux, &path).unwrap();

    assert_eq!(manager.executable, format!("{}/bin/conda", path));
    assert_eq!(manager.version, Some("23.1.0".into()));
}

#[test]
fn finds_manager_from_root_within_an_env() {
    let fs = test_data();
    let conda_dir = resolve_test_path(&["unix", "anaconda3-2023.03"]);
    let path = resolve_test_path(&["unix", "anaconda3-2023.03", "envs", "env_python_3"]);

    let manager = CondaManager::from(&fs, Platform::Linux, &path).unwrap();

    assert_eq!(manager.executable, format!("{}/bin/conda", conda_dir));
    assert_eq!(manager.version, Some("23.1.0".into()));

    let path = resolve_test_path(&["unix", "anaconda3-2023.03", "envs", "without_python"]);

    let manager = CondaManager::from(&fs, Platform::Linux, &path).unwrap();

    assert_eq!(manager.executable, format!("{}/bin/conda", conda_dir));
    assert_eq!(manager.version, Some("23.1.0".into()));
}

#[test]
fn does_not_find_conda_env_for_bogus_dirs() {
    let fs = test_data();
    let path = resolve_test_path(&["unix", "bogus_directory"]);
    assert!(CondaManager::from(&fs, Platform::Linux, &path).is_none());
}

#[test]
fn finds_conda_binary_from_path() {
    let fs = test_data();
    let anaconda_bin = resolve_test_path(&["unix", "anaconda3-2023.03", "bin"]);
    let env_vars = env_with_path(&anaconda_bin);

    let conda_binary = find_conda_binary(&fs, &env_vars, Platform::Linux);

    assert!(conda_binary.is_some());
    assert_eq!(
        conda_binary.unwrap(),
        resolve_test_path(&["unix", "anaconda3-2023.03", "bin", "conda"])
    );
}

#[test]
fn finds_conda_binary_from_condabin_path() {
    let fs = test_data();
    let anaconda_condabin = resolve_test_path(&["unix", "anaconda3-2023.03", "condabin"]);
    let env_vars = env_with_path(&anaconda_condabin);

    let conda_binary = find_conda_binary(&fs, &env_vars, Platform::Linux);

    assert!(conda_binary.is_some());
    assert_eq!(
        conda_binary.unwrap(),
        resolve_test_path(&["unix", "anaconda3-2023.03", "condabin", "conda"])
    );
}

#[test]
fn does_not_find_conda_binary_when_not_on_path() {
    let fs = test_data();
    let some_other_path = resolve_test_path(&["unix", "bogus_directory"]);
    let env_vars = env_with_path(&some_other_path);

    let conda_binary = find_conda_binary(&fs, &env_vars, Platform::Linux);

    assert!(conda_binary.is_none());
}

#[test]
fn non_existent_envrionments_txt() {
    let fs = test_data();
    let root = resolve_test_path(&["unix", "root_empty"]);
    let home = resolve_test_path(&["unix", "bogus directory"]);
    let env = create_env_variables(home, root);

    let environments = get_conda_envs_from_environment_txt(&fs, &env);

    assert!(environments.is_empty());
}

#[test]
fn list_conda_envs_in_install_location() {
    let fs = test_data();
    let path = resolve_test_path(&["unix", "anaconda3-2023.03"]);

    let mut locations = get_environments(&fs, &path);
    locations.sort();

    assert_eq!(
        locations,
        vec![
            resolve_test_path(&["unix", "anaconda3-2023.03"]),
            resolve_test_path(&["unix", "anaconda3-2023.03", "envs", "env_python_3"]),
            resolve_test_path(&["unix", "anaconda3-2023.03", "envs", "myenv"]),
            resolve_test_path(&["unix", "anaconda3-2023.03", "envs", "without_python"]),
        ]
    );
}

#[test]
fn list_conda_envs_discovers_base_from_child_env() {
    let fs = test_data();
    let child_env_path = resolve_test_path(&["unix", "anaconda3-2023.03", "envs", "myenv"]);

    let mut locations = get_environments(&fs, &child_env_path);
    locations.sort();

    assert_eq!(
        locations,
        vec![
            resolve_test_path(&["unix", "anaconda3-2023.03"]),
            resolve_test_path(&["unix", "anaconda3-2023.03", "envs", "env_python_3"]),
            resolve_test_path(&["unix", "anaconda3-2023.03", "envs", "myenv"]),
            resolve_test_path(&["unix", "anaconda3-2023.03", "envs", "without_python"]),
        ]
    );
}

#[test]
fn list_conda_envs_discovers_base_from_another_child_env() {
    let fs = test_data();
    let child_env_path = resolve_test_path(&["unix", "anaconda3-2023.03", "envs", "env_python_3"]);

    let mut locations = get_environments(&fs, &child_env_path);
    locations.sort();

    assert_eq!(
        locations,
        vec![
            resolve_test_path(&["unix", "anaconda3-2023.03"]),
            resolve_test_path(&["unix", "anaconda3-2023.03", "envs", "env_python_3"]),
            resolve_test_path(&["unix", "anaconda3-2023.03", "envs", "myenv"]),
            resolve_test_path(&["unix", "anaconda3-2023.03", "envs", "without_python"]),
        ]
    );
}

#[test]
fn find_conda_env_without_manager() {
    let fs = test_data();
    let probe = MemProbe(&fs);
    let environment = Environment {
        home: None,
        root: None,
        vars: Vec::new(),
        global_search_locations: Vec::new(),
    };
    let mut locator = Conda::from(&environment);
    let path = resolve_test_path(&["unix", "conda_env_without_manager", "env_python_3"]);

    let env = locator
        .try_from(
            &fs,
            &probe,
            Platform::Linux,
            &PythonEnv::new(format!("{}/bin/python", path), Some(path.clone()), None),
        )
        .unwrap();

    assert_eq!(env.prefix, Some(path.clone()));
    assert_eq!(env.arch, Some(Architecture::X64));
    assert_eq!(env.category, PythonEnvironmentKind::Conda);
    assert_eq!(env.executable, Some(format!("{}/bin/python", path)));
    assert_eq!(env.version, Some("3.12.2".to_string()));
    assert_eq!(env.manager, None);
    assert_eq!(env.name, Some("env_python_3".to_string()));
}

#[test]
fn find_conda_env_without_manager_but_detect_manager_from_history() {
    let fs = test_data();
    let probe = MemProbe(&fs);
    let environment = Environment {
        home: None,
        root: None,
        vars: Vec::new(),
        global_search_locations: Vec::new(),
    };
    let mut locator = Conda::from(&environment);
    let path = resolve_test_path(&[
        "unix",
        "conda_env_without_manager_but_found_in_history",
        "env_python_3",
    ]);
    let conda_dir = resolve_test_path(&[
        "unix",
        "conda_env_without_manager_but_found_in_history",
        "some_other_location",
        "conda_install",
    ]);

    let env = locator
        .try_from(
            &fs,
            &probe,
            Platform::Linux,
            &PythonEnv::new(format!("{}/bin/python", path), Some(path.clone()), None),
        )
        .unwrap();

    assert_eq!(env.prefix, Some(path.clone()));
    assert_eq!(env.arch, Some(Architecture::X64));
    assert_eq!(env.category, PythonEnvironmentKind::Conda);
    assert_eq!(env.executable, Some(format!("{}/bin/python", path)));
    assert_eq!(env.version, Some("3.12.2".to_string()));
    assert_eq!(
        env.manager.clone().unwrap().executable,
        format!("{}/bin/conda", conda_dir)
    );
    assert_eq!(env.manager.clone().unwrap().version, Some("23.1.0".to_string()));
    assert_eq!(env.name, None);
}

#[test]
fn conda_try_from_finds_prefix_from_bin_folder_and_remembers_it() {
    let fs = test_data();
    let probe = MemProbe(&fs);
    let environment = Environment {
        home: None,
        root: None,
        vars: Vec::new(),
        global_search_locations: Vec::new(),
    };
    let mut locator = Conda::from(&environment);
    let base = resolve_test_path(&["unix", "anaconda3-2023.03"]);
    let env = locator
        .try_from(
            &fs,
            &probe,
            Platform::Linux,
            &PythonEnv::new(format!("{}/bin/python", base), None, None),
        )
        .unwrap();
    assert_eq!(env.prefix, Some(base.clone()));
    assert_eq!(env.name, Some("base".to_string()));
    assert_eq!(env.version, Some("3.10.9".to_string()));
    assert_eq!(env.arch, Some(Architecture::X64));
    assert!(locator.environments.contains_key(&base));
}

#[test]
fn parse_conda_rc() {
    let cfg = r#"
channels:
  - conda-forge
  - nodefaults
channel_priority: strict
envs_dirs:
  - /Users/username/dev/envs # Testing 1,2,3
  - /opt/conda/envs
envs_path:
  - /opt/somep lace/envs
  - ~/dev/envs2 # Testing 1,2,3
"#;

    assert_eq!(
        parse_conda_rc_contents(cfg, Some("/Users/username2".to_string()))
            .unwrap()
            .env_dirs,
        vec![
            "/Users/username/dev/envs",
            "/opt/conda/envs",
            "/opt/somep lace/envs",
            "/Users/username2/dev/envs2"
        ]
    );

    let cfg = r#"
channels:
  - conda-forge
  - nodefaults
channel_priority: strict
envs_dirs:
  - /Users/username/dev/envs # Testing 1,2,3
  - /opt/conda/envs
"#;

    assert_eq!(
        parse_conda_rc_contents(cfg, Some("/Users/username2".to_string()))
            .unwrap()
            .env_dirs,
        vec!["/Users/username/dev/envs", "/opt/conda/envs"]
    );

    let cfg = r#"
channels:
  - conda-forge
  - nodefaults
channel_priority: strict
envs_path:
  - /opt/somep lace/envs
  - ~/dev/envs2 # Testing 1,2,3
"#;

    assert_eq!(
        parse_conda_rc_contents(cfg, Some("/Users/username2".to_string()))
            .unwrap()
            .env_dirs,
        vec!["/opt/somep lace/envs", "/Users/username2/dev/envs2"]
    );

    let cfg = r#"
channels:
  - conda-forge
  - nodefaults
channel_priority: strict
"#;

    assert!(parse_conda_rc_contents(cfg, Some("/Users/username2".to_string())).is_none());
}

#[test]
fn test_homebrew_caskroom_paths_added_to_known_locations() {
    let fs = MemFs::default();
    let env_vars = create_env_variables("/Users/username".to_string(), "/".to_string());

    let known = get_known_conda_install_locations(&fs, &env_vars, &None, Platform::MacOs);
    for expected in [
        "/opt/homebrew/Caskroom/miniforge/base",
        "/opt/homebrew/Caskroom/miniconda/base",
        "/opt/homebrew/Caskroom/anaconda/base",
    ] {
        assert!(known.contains(&expected.to_string()), "{expected} missing from {known:?}");
    }

    let linux = get_known_conda_install_locations(&fs, &env_vars, &None, Platform::Linux);
    assert!(linux.iter().all(|p| !p.contains("Caskroom")));
}

#[test]
fn manager_from_info_keeps_missing_prefix() {
    let info = CondaInfo {
        executable: "/usr/bin/conda".to_string(),
        envs: vec![],
        conda_prefix: None,
        conda_version: "24.1.0".to_string(),
        envs_dirs: vec![],
        config_files: vec![],
        rc_path: None,
        sys_rc_path: None,
        user_rc_path: None,
        root_prefix: None,
    };
    let m = CondaManager::from_info("/usr/bin/conda", &info).expect("a manager");
    assert_eq!(m.conda_dir, None);
    assert_eq!(m.version, Some("24.1.0".to_string()));
    assert_eq!(m.executable, "/usr/bin/conda");
}
