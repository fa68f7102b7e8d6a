use pet::conda::locator::Conda;
use pet::conda::manager::{conda_info_from_json, CondaInfoJson};
use pet::hatch::Hatch;
use pet::linux_global::{get_python_in_bin, LinuxGlobalPython};
use pet::locator::{PythonEnv, Reporter, TelemetryEvent};
use pet::mac::{xcode_folder_name, MacPythonOrg, MacXCode};
use pet::manager::{EnvManager, EnvManagerType};
use pet::os_environment::{Environment, FileSystem, Platform, PythonProbe, ResolvedPython};
use pet::pyenv::{list_pyenv_environments, PyEnv};
use pet::python_environment::{Architecture, PythonEnvironment, PythonEnvironmentKind};
use pet::pyvenv_cfg::version_from_patchlevel;
use pet::poetry::locator::Poetry;
use std::cell::RefCell;
use std::collections::{BTreeMap, BTreeSet};

/// An in-memory tree of folders, files and symbolic links.
#[derive(Default)]
struct MemFs {
    dirs: BTreeSet<String>,
    files: BTreeMap<String, String>,
    links: BTreeMap<String, String>,
    headers: BTreeMap<String, String>,
    resolved: BTreeMap<String, ResolvedPython>,
}

impl MemFs {
    fn dir(&mut self, p: &str) {
        let mut cur = String::new();
        for piece in p.split('/').filter(|s| !s.is_empty()) {
            cur.push('/');
            cur.push_str(piece);
            self.dirs.insert(cur.clone());
        }
    }
    fn file(&mut self, p: &str, contents: &str) {
        if let Some(i) = p.rfind('/') {
            self.dir(&p[..i]);
        }
        self.files.insert(p.to_string(), contents.to_string());
    }
    fn link(&mut self, p: &str, target: &str) {
        if let Some(i) = p.rfind('/') {
            self.dir(&p[..i]);
        }
        self.links.insert(p.to_string(), target.to_string());
    }
    fn parent(p: &str) -> &str {
        match p.rfind('/') {
            Some(0) => "/",
            Some(i) => &p[..i],
            None => "",
        }
    }
    fn follow(&self, p: &str) -> String {
        let mut cur = p.trim_end_matches('/').to_string();
        for _ in 0..8 {
            match self.links.get(&cur) {
                Some(t) => cur = t.clone(),
                None => break,
            }
        }
        cur
    }
}

impl FileSystem for MemFs {
    fn path_exists(&self, path: &str) -> bool {
        self.is_dir(path) || self.is_file(path)
    }
    fn is_file(&self, path: &str) -> bool {
        self.files.contains_key(&self.follow(path))
    }
    fn is_dir(&self, path: &str) -> bool {
        let p = self.follow(path);
        p == "/" || self.dirs.contains(&p)
    }
    fn read_to_string(&self, path: &str) -> Option<String> {
        self.files.get(&self.follow(path)).cloned()
    }
    fn read_dir(&self, path: &str) -> Vec<String> {
        let dir = path.trim_end_matches('/');
        self.dirs
            .iter()
            .chain(self.files.keys())
            .chain(self.links.keys())
            .filter(|p| MemFs::parent(p) == dir)
            .cloned()
            .collect()
    }
    fn canonicalize(&self, path: &str) -> Option<String> {
        if self.path_exists(path) {
            Some(self.follow(path))
        } else {
            None
        }
    }
    fn is_symlink(&self, path: &str) -> bool {
        self.links.contains_key(path.trim_end_matches('/'))
    }
}

impl PythonProbe for MemFs {
    fn find_executable(&self, prefix: &str) -> Option<String> {
        let exe = format!("{}/bin/python", prefix);
        if self.is_file(&exe) {
            Some(exe)
        } else {
            None
        }
    }
    fn find_executables(&self, dir: &str) -> Vec<String> {
        let mut found: Vec<String> = self
            .read_dir(dir)
            .into_iter()
            .chain(self.read_dir(&format!("{}/bin", dir)))
            .filter(|p| p.rsplit('/').next().unwrap_or("").starts_with("python") && self.is_file(p))
            .collect();
        found.sort();
        found
    }
    fn version_from_creator(&self, _prefix: &str) -> Option<String> {
        None
    }
    fn version_from_header_files(&self, prefix: &str) -> Option<String> {
        self.headers.get(prefix).cloned()
    }
    fn resolve(&self, exe: &str) -> Option<ResolvedPython> {
        self.resolved.get(exe).cloned()
    }
    fn is_virtualenv(&self, env: &PythonEnv) -> bool {
        env.prefix
            .as_ref()
            .map_or(false, |p| self.is_file(&format!("{}/pyvenv.cfg", p)))
    }
}

/// Records what is reported, in order.
#[derive(Default)]
struct Recorder {
    managers: RefCell<Vec<EnvManager>>,
    environments: RefCell<Vec<PythonEnvironment>>,
}

impl Reporter for Recorder {
    fn report_manager(&self, manager: &EnvManager) {
        self.managers.borrow_mut().push(manager.clone());
    }
    fn report_environment(&self, env: &PythonEnvironment) {
        self.environments.borrow_mut().push(env.clone());
    }
    fn report_telemetry(&self, _event: &TelemetryEvent) {}
}

fn empty_environment() -> Environment {
    Environment {
        home: None,
        root: None,
        vars: Vec::new(),
        global_search_locations: Vec::new(),
    }
}

const CONDA_RECORD: &str =
    r#"{"channel": "https://repo.anaconda.com/pkgs/main/linux-64", "version": "24.1.2"}"#;
const PYTHON_RECORD: &str =
    r#"{"channel": "https://repo.anaconda.com/pkgs/main/linux-64", "version": "3.11.7"}"#;

fn conda_install(fs: &mut MemFs, base: &str) {
    fs.file(&format!("{}/bin/conda", base), "");
    fs.file(&format!("{}/bin/python", base), "");
    fs.file(&format!("{}/condabin/conda", base), "");
    fs.file(&format!("{}/conda-meta/conda-24.1.2-py311_0.json", base), CONDA_RECORD);
    fs.file(&format!("{}/conda-meta/python-3.11.7-h1_0.json", base), PYTHON_RECORD);
    fs.dir(&format!("{}/envs/data/conda-meta", base));
    fs.file(&format!("{}/envs/data/bin/python", base), "");
    fs.file(
        &format!("{}/envs/data/conda-meta/python-3.11.7-h1_0.json", base),
        PYTHON_RECORD,
    );
}

#[test]
fn conda_find_in_reports_installation_and_its_environments() {
    let mut fs = MemFs::default();
    conda_install(&mut fs, "/opt/miniconda");
    let mut conda = Conda::from(&empty_environment());
    let result = conda
        .find_in(&fs, &fs, Platform::Linux, "/opt/miniconda")
        .expect("installation not found");
    assert_eq!(result.managers.len(), 1);
    assert_eq!(result.managers[0].executable, "/opt/miniconda/bin/conda");
    assert_eq!(result.managers[0].version, Some("24.1.2".to_string()));
    let mut prefixes: Vec<_> = result
        .environments
        .iter()
        .map(|e| (e.prefix.clone().unwrap(), e.name.clone()))
        .collect();
    prefixes.sort();
    assert_eq!(
        prefixes,
        vec![
            ("/opt/miniconda".to_string(), Some("base".to_string())),
            ("/opt/miniconda/envs/data".to_string(), Some("data".to_string())),
        ]
    );
    // A second search finds nothing new.
    let again = conda.find_in(&fs, &fs, Platform::Linux, "/opt/miniconda").unwrap();
    assert!(again.environments.is_empty());
    assert!(conda.find_in(&fs, &fs, Platform::Linux, "/opt/elsewhere").is_none());
}

#[test]
fn conda_find_and_report_reports_manager_before_each_environment() {
    let mut fs = MemFs::default();
    conda_install(&mut fs, "/opt/miniconda");
    let mut conda = Conda::from(&empty_environment());
    let recorder = Recorder::default();
    conda.find_and_report(&fs, &fs, Platform::Linux, &recorder, "/opt/miniconda");
    assert_eq!(recorder.managers.borrow().len(), 2);
    assert_eq!(recorder.environments.borrow().len(), 2);
    for env in recorder.environments.borrow().iter() {
        assert_eq!(env.category, PythonEnvironmentKind::Conda);
        assert_eq!(env.manager.as_ref().unwrap().tool, EnvManagerType::Conda);
    }
}

#[test]
fn conda_find_reports_environments_listed_in_environments_txt() {
    let mut fs = MemFs::default();
    conda_install(&mut fs, "/opt/miniconda");
    fs.file(
        "/home/user/.conda/environments.txt",
        "/opt/miniconda\n/opt/miniconda/envs/data\n",
    );
    let mut environment = empty_environment();
    environment.home = Some("/home/user".to_string());
    let mut conda = Conda::from(&environment);
    let recorder = Recorder::default();
    conda.find(&fs, &fs, Platform::Linux, &recorder);
    let mut prefixes: Vec<_> = recorder
        .environments
        .borrow()
        .iter()
        .map(|e| e.prefix.clone().unwrap())
        .collect();
    prefixes.sort();
    prefixes.dedup();
    assert_eq!(
        prefixes,
        vec!["/opt/miniconda".to_string(), "/opt/miniconda/envs/data".to_string()]
    );
    assert!(conda.environments.contains_key(&"/opt/miniconda".to_string()));
}

#[test]
fn conda_info_json_fills_in_missing_members() {
    let info = conda_info_from_json(
        "/opt/conda/bin/conda".to_string(),
        CondaInfoJson {
            envs: Some(vec!["/opt/conda".to_string()]),
            conda_prefix: Some("/opt/conda".to_string()),
            conda_version: None,
            envs_dirs: Some(vec!["/opt/conda/envs".to_string()]),
            envs_path: Some(vec!["/home/u/envs".to_string()]),
            config_files: None,
            rc_path: None,
            user_rc_path: Some("/home/u/.condarc".to_string()),
            sys_rc_path: None,
            root_prefix: Some("/opt/conda".to_string()),
        },
    );
    assert_eq!(info.executable, "/opt/conda/bin/conda");
    assert_eq!(info.conda_version, "");
    assert_eq!(info.envs_dirs, vec!["/opt/conda/envs", "/home/u/envs"]);
    assert!(info.config_files.is_empty());
    assert_eq!(info.user_rc_path, Some("/home/u/.condarc".to_string()));
}

#[test]
fn hatch_find_reports_default_storage_then_workspace_envs() {
    let mut fs = MemFs::default();
    let storage = "/data/hatch/env/virtual";
    let prefix = format!("{}/proj/AbCd1234/default", storage);
    fs.file(&format!("{}/pyvenv.cfg", prefix), "home = /usr/bin\nversion = 3.12.1\n");
    fs.file(&format!("{}/bin/python", prefix), "");
    fs.file("/work/app/hatch.toml", "[dirs.env]\nvirtual = \".hatch\"\n");
    fs.file("/work/app/.hatch/test/pyvenv.cfg", "version = 3.11.0\nprompt = test\n");
    fs.file("/work/app/.hatch/test/bin/python", "");
    let hatch = Hatch {
        default_virtual_dir: Some(storage.to_string()),
        workspace_directories: vec!["/work/app".to_string()],
    };
    let recorder = Recorder::default();
    hatch.find(&fs, &fs, &recorder);
    let reported = recorder.environments.borrow();
    assert_eq!(reported.len(), 2);
    assert_eq!(reported[0].prefix, Some(prefix));
    assert_eq!(reported[0].project, None);
    assert_eq!(reported[1].project, Some("/work/app".to_string()));
    assert_eq!(reported[1].name, Some("test".to_string()));
    assert!(Hatch {
        default_virtual_dir: None,
        workspace_directories: vec![]
    }
    .environments(&fs, &fs)
    .is_empty());
}

fn pyenv_versions(fs: &mut MemFs) {
    fs.file("/home/u/.pyenv/versions/3.12.1/bin/python", "");
    fs.file("/home/u/.pyenv/versions/3.10-dev/bin/python", "");
    fs.file("/home/u/.pyenv/versions/venv1/bin/python", "");
    fs.file("/home/u/.pyenv/versions/venv1/pyvenv.cfg", "version = 3.12.1\n");
    fs.headers
        .insert("/home/u/.pyenv/versions/3.12.1".to_string(), "3.12.1".to_string());
}

#[test]
fn pyenv_try_from_identifies_versions_and_virtual_envs() {
    let mut fs = MemFs::default();
    pyenv_versions(&mut fs);
    let locator = PyEnv::from(&empty_environment());
    let manager = Some(EnvManager {
        executable: "/home/u/.pyenv/bin/pyenv".to_string(),
        version: None,
        tool: EnvManagerType::Pyenv,
    });
    let versions = Some("/home/u/.pyenv/versions".to_string());

    let env = PythonEnv::new(
        "/home/u/.pyenv/versions/3.10-dev/bin/python".to_string(),
        Some("/home/u/.pyenv/versions/3.10-dev".to_string()),
        None,
    );
    let found = locator.try_from(&fs, &fs, &manager, &versions, &env).unwrap();
    assert_eq!(found.category, PythonEnvironmentKind::Pyenv);
    assert_eq!(found.version, Some("3.10-dev".to_string()));
    assert_eq!(found.manager, manager);

    let env = PythonEnv::new(
        "/home/u/.pyenv/versions/venv1/bin/python".to_string(),
        Some("/home/u/.pyenv/versions/venv1".to_string()),
        None,
    );
    let found = locator.try_from(&fs, &fs, &manager, &versions, &env).unwrap();
    assert_eq!(found.category, PythonEnvironmentKind::PyenvVirtualEnv);
    assert_eq!(found.version, Some("3.12.1".to_string()));

    let outside = PythonEnv::new(
        "/usr/bin/python".to_string(),
        Some("/usr".to_string()),
        None,
    );
    assert!(locator.try_from(&fs, &fs, &manager, &versions, &outside).is_none());
    assert!(locator.try_from(&fs, &fs, &manager, &None, &env).is_none());
}

#[test]
fn pyenv_lists_versions_and_conda_installs() {
    let mut fs = MemFs::default();
    pyenv_versions(&mut fs);
    conda_install(&mut fs, "/home/u/.pyenv/versions/miniconda3");
    let mut conda = Conda::from(&empty_environment());
    let result = list_pyenv_environments(
        &fs,
        &fs,
        &mut conda,
        Platform::Linux,
        &None,
        "/home/u/.pyenv/versions",
    );
    let mut kinds: Vec<_> = result
        .environments
        .iter()
        .map(|e| (e.prefix.clone().unwrap(), e.category))
        .collect();
    kinds.sort();
    assert_eq!(
        kinds,
        vec![
            ("/home/u/.pyenv/versions/3.10-dev".to_string(), PythonEnvironmentKind::Pyenv),
            ("/home/u/.pyenv/versions/3.12.1".to_string(), PythonEnvironmentKind::Pyenv),
            ("/home/u/.pyenv/versions/miniconda3".to_string(), PythonEnvironmentKind::Conda),
            (
                "/home/u/.pyenv/versions/miniconda3/envs/data".to_string(),
                PythonEnvironmentKind::Conda
            ),
            (
                "/home/u/.pyenv/versions/venv1".to_string(),
                PythonEnvironmentKind::PyenvVirtualEnv
            ),
        ]
    );
    assert_eq!(result.managers.len(), 1);
}

const FRAMEWORK: &str = "/Library/Frameworks/Python.framework/Versions";

fn python_org(fs: &mut MemFs) {
    fs.file(&format!("{}/3.12/bin/python3.12", FRAMEWORK), "");
    fs.link(&format!("{}/3.12/bin/python3", FRAMEWORK), &format!("{}/3.12/bin/python3.12", FRAMEWORK));
    fs.link(&format!("{}/Current", FRAMEWORK), &format!("{}/3.12", FRAMEWORK));
    fs.link(
        &format!("{}/Current/bin/python3", FRAMEWORK),
        &format!("{}/3.12/bin/python3.12", FRAMEWORK),
    );
    fs.link("/usr/local/bin/python3", &format!("{}/3.12/bin/python3.12", FRAMEWORK));
    fs.file("/usr/local/bin/python3.9", "");
    fs.headers
        .insert(format!("{}/3.12", FRAMEWORK), "3.12.2".to_string());
}

#[test]
fn mac_python_org_resolves_framework_symlinks() {
    let mut fs = MemFs::default();
    python_org(&mut fs);
    let locator = MacPythonOrg::new();
    let env = PythonEnv::new("/usr/local/bin/python3".to_string(), None, None);
    let found = locator
        .try_from(&fs, &fs, Platform::MacOs, false, &env)
        .expect("framework build not identified");
    let exe = format!("{}/3.12/bin/python3.12", FRAMEWORK);
    assert_eq!(found.category, PythonEnvironmentKind::MacPythonOrg);
    assert_eq!(found.executable, Some(exe.clone()));
    assert_eq!(found.prefix, Some(format!("{}/3.12", FRAMEWORK)));
    assert_eq!(found.version, Some("3.12.2".to_string()));
    let links = found.symlinks.unwrap();
    assert!(links.contains(&exe));
    assert!(links.contains(&"/usr/local/bin/python3".to_string()));
    assert!(links.contains(&format!("{}/3.12/bin/python3", FRAMEWORK)));
    assert!(!links.contains(&"/usr/local/bin/python3.9".to_string()));

    assert!(locator.try_from(&fs, &fs, Platform::Linux, false, &env).is_none());
    assert!(locator.try_from(&fs, &fs, Platform::MacOs, true, &env).is_none());
    let other = PythonEnv::new("/usr/bin/python3".to_string(), None, None);
    assert!(locator.try_from(&fs, &fs, Platform::MacOs, false, &other).is_none());
}

#[test]
fn mac_xcode_identifies_command_line_tools_python() {
    let mut fs = MemFs::default();
    let real = "/Applications/Xcode.app/Contents/Developer/Library/Frameworks/Python3.framework/Versions/3.9/bin/python3.9";
    fs.file(real, "");
    fs.link("/Applications/Xcode.app/Contents/Developer/usr/bin/python3", real);
    fs.resolved.insert(
        "/usr/bin/python3".to_string(),
        ResolvedPython {
            executable: real.to_string(),
            version: "3.9.6".to_string(),
            prefix: "/Applications/Xcode.app/Contents/Developer/Library/Frameworks/Python3.framework/Versions/3.9".to_string(),
            is64_bit: true,
        },
    );
    let locator = MacXCode::new();
    let env = PythonEnv::new(
        "/Applications/Xcode.app/Contents/Developer/usr/bin/python3".to_string(),
        None,
        None,
    );
    let found = locator.try_from(&fs, &fs, Platform::MacOs, false, &env).unwrap();
    assert_eq!(found.category, PythonEnvironmentKind::MacXCode);
    assert_eq!(found.version, Some("3.9.6".to_string()));
    let links = found.symlinks.unwrap();
    assert!(links.contains(&real.to_string()));
    assert!(links.contains(&"/usr/bin/python3".to_string()));
    assert_eq!(xcode_folder_name(&env.executable), "Xcode.app");
    let elsewhere = PythonEnv::new("/opt/bin/python3".to_string(), None, None);
    assert!(locator.try_from(&fs, &fs, Platform::MacOs, false, &elsewhere).is_none());
}

#[test]
fn linux_global_python_collects_symlinks_in_its_folder() {
    let mut fs = MemFs::default();
    fs.file("/usr/bin/python3.12", "");
    fs.link("/usr/bin/python3", "/usr/bin/python3.12");
    fs.link("/usr/bin/python", "/usr/bin/python3");
    fs.file("/usr/bin/python2.7", "");
    let env = PythonEnv::new(
        "/usr/bin/python3.12".to_string(),
        Some("/usr".to_string()),
        Some("3.12.1".to_string()),
    );
    let found = get_python_in_bin(&fs, &fs, &env, true).unwrap();
    assert_eq!(found.category, PythonEnvironmentKind::LinuxGlobal);
    assert_eq!(found.arch, Some(Architecture::X64));
    assert_eq!(
        found.symlinks,
        Some(vec![
            "/usr/bin/python".to_string(),
            "/usr/bin/python3".to_string(),
            "/usr/bin/python3.12".to_string()
        ])
    );
    let unknown = PythonEnv::new("/usr/bin/python3.12".to_string(), None, None);
    assert!(get_python_in_bin(&fs, &fs, &unknown, true).is_none());
}

#[test]
fn linux_global_find_reports_each_python_once() {
    let mut fs = MemFs::default();
    fs.file("/usr/bin/python3.12", "");
    fs.link("/usr/bin/python3", "/usr/bin/python3.12");
    for exe in ["/usr/bin/python3.12", "/usr/bin/python3"] {
        fs.resolved.insert(
            exe.to_string(),
            ResolvedPython {
                executable: "/usr/bin/python3.12".to_string(),
                version: "3.12.1".to_string(),
                prefix: "/usr".to_string(),
                is64_bit: true,
            },
        );
    }
    let mut locator = LinuxGlobalPython::new();
    let recorder = Recorder::default();
    locator.find(&fs, &fs, Platform::Linux, &recorder);
    assert_eq!(recorder.environments.borrow().len(), 1);
    let env = PythonEnv::new(
        "/usr/bin/python3".to_string(),
        Some("/usr".to_string()),
        Some("3.12.1".to_string()),
    );
    let found = locator.try_from(&fs, &fs, Platform::Linux, &env).unwrap();
    assert_eq!(found.executable, Some("/usr/bin/python3.12".to_string()));
    let recorder = Recorder::default();
    locator.find(&fs, &fs, Platform::MacOs, &recorder);
    assert!(recorder.environments.borrow().is_empty());
}

#[test]
fn patchlevel_header_gives_the_version() {
    let header = "#define PY_MAJOR_VERSION 3\n#define PY_VERSION \"3.12.2\"\n";
    assert_eq!(version_from_patchlevel(header), Some("3.12.2".to_string()));
    assert_eq!(version_from_patchlevel("#define PY_MINOR 1\n"), None);
}

#[test]
fn poetry_identifies_cache_and_in_project_environments() {
    let mut fs = MemFs::default();
    let cache_env = "/home/u/.cache/pypoetry/virtualenvs/demo-AbCdEfGh-py3.12";
    fs.file(&format!("{}/pyvenv.cfg", cache_env), "version = 3.12.1\n");
    fs.file(&format!("{}/bin/python", cache_env), "");
    let project = "/work/app";
    fs.file(&format!("{}/pyproject.toml", project), "[tool.poetry]\nname = \"app\"\n");
    fs.file(&format!("{}/.venv/pyvenv.cfg", project), "version = 3.11.4\n");
    fs.file(&format!("{}/.venv/bin/python", project), "");

    let mut poetry = Poetry::new(&empty_environment(), None, None);
    let env = PythonEnv {
        executable: format!("{}/bin/python", cache_env),
        prefix: Some(cache_env.to_string()),
        version: None,
        symlinks: None,
    };
    let found = poetry.try_from(&fs, &fs, Platform::Linux, &env).expect("a Poetry environment");
    assert_eq!(found.category, PythonEnvironmentKind::Poetry);
    assert_eq!(found.prefix.as_deref(), Some(cache_env));
    assert_eq!(found.project.as_deref(), Some(cache_env));
    assert_eq!(found.executable, Some(format!("{}/bin/python", cache_env)));

    let venv = format!("{}/.venv", project);
    let env = PythonEnv {
        executable: format!("{}/bin/python", venv),
        prefix: Some(venv.clone()),
        version: None,
        symlinks: None,
    };
    let found = poetry.try_from(&fs, &fs, Platform::Linux, &env).expect("an in-project environment");
    assert_eq!(found.project.as_deref(), Some(project));

    let plain = PythonEnv {
        executable: "/usr/bin/python3".to_string(),
        prefix: Some("/usr".to_string()),
        version: None,
        symlinks: None,
    };
    assert!(poetry.try_from(&fs, &fs, Platform::Linux, &plain).is_none());
}
