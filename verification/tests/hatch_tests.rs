use pet::hatch::{
    find_envs_in_default_storage, find_envs_in_flat_dir, get_default_virtual_dir,
    resolve_project_virtual_dirs, Hatch,
};
use pet::locator::PythonEnv;
use pet::os_environment::{Environment, FileSystem, Platform, PythonProbe, ResolvedPython};
use pet::python_environment::PythonEnvironmentKind;
use std::collections::{BTreeMap, BTreeSet};

/// An in-memory tree of folders and files.
#[derive(Default)]
struct MemFs {
    dirs: BTreeSet<String>,
    files: BTreeMap<String, String>,
}

impl MemFs {
    fn create_dir_all(&mut self, p: &str) {
        let mut cur = String::new();
        for piece in p.split('/').filter(|s| !s.is_empty()) {
            cur.push('/');
            cur.push_str(piece);
            self.dirs.insert(cur.clone());
        }
    }
    fn write(&mut self, p: &str, contents: &str) {
        if let Some(i) = p.rfind('/') {
            self.create_dir_all(&p[..i]);
        }
        self.files.insert(p.to_string(), contents.to_string());
    }
    fn parent(p: &str) -> &str {
        match p.rfind('/') {
            Some(0) => "/",
            Some(i) => &p[..i],
            None => "",
        }
    }
}

impl FileSystem for MemFs {
    fn path_exists(&self, path: &str) -> bool {
        self.is_dir(path) || self.is_file(path)
    }
    fn is_file(&self, path: &str) -> bool {
        self.files.contains_key(path.trim_end_matches('/'))
    }
    fn is_dir(&self, path: &str) -> bool {
        self.dirs.contains(path.trim_end_matches('/'))
    }
    fn read_to_string(&self, path: &str) -> Option<String> {
        self.files.get(path).cloned()
    }
    fn read_dir(&self, path: &str) -> Vec<String> {
        let dir = path.trim_end_matches('/');
        self.dirs
            .iter()
            .chain(self.files.keys())
            .filter(|p| MemFs::parent(p) == dir)
            .cloned()
            .collect()
    }
    fn canonicalize(&self, path: &str) -> Option<String> {
        if self.path_exists(path) {
            Some(path.to_string())
        } else {
            None
        }
    }
    fn is_symlink(&self, _path: &str) -> bool {
        false
    }
}

/// Finds `bin/python` in a prefix of the in-memory tree.
struct MemProbe<'a>(&'a MemFs);

impl PythonProbe for MemProbe<'_> {
    fn find_executable(&self, prefix: &str) -> Option<String> {
        let exe = format!("{}/bin/python", prefix);
        if self.0.is_file(&exe) {
            Some(exe)
        } else {
            None
        }
    }
    fn find_executables(&self, dir: &str) -> Vec<String> {
        self.find_executable(dir).into_iter().collect()
    }
    fn version_from_creator(&self, _prefix: &str) -> Option<String> {
        None
    }
    fn version_from_header_files(&self, _prefix: &str) -> Option<String> {
        None
    }
    fn resolve(&self, _exe: &str) -> Option<ResolvedPython> {
        None
    }
    fn is_virtualenv(&self, env: &PythonEnv) -> bool {
        env.prefix
            .as_ref()
            .map_or(false, |p| self.0.is_file(&format!("{}/pyvenv.cfg", p)))
    }
}

const TEMP: &str = "/tmp/hatch-test";

fn write_pyvenv_cfg(fs: &mut MemFs, prefix: &str, prompt: &str, version: &str) {
    fs.create_dir_all(prefix);
    fs.write(
        &format!("{}/pyvenv.cfg", prefix),
        &format!("home = /usr/bin\nversion = {version}\nprompt = {prompt}\n"),
    );
}

fn write_python_exe(fs: &mut MemFs, prefix: &str) -> String {
    let exe = format!("{}/bin/python", prefix);
    fs.write(&exe, "");
    exe
}

fn make_locator(default_virtual_dir: Option<String>) -> Hatch {
    Hatch {
        default_virtual_dir,
        workspace_directories: vec![],
    }
}

fn env_with(home: &str, vars: &[(&str, &str)]) -> Environment {
    Environment {
        home: Some(home.to_string()),
        root: None,
        vars: vars
            .iter()
            .map(|(k, v)| (k.to_string(), v.to_string()))
            .collect(),
        global_search_locations: Vec::new(),
    }
}

#[test]
fn try_from_identifies_env_in_default_storage_three_levels_deep() {
    let mut fs = MemFs::default();
    let storage = format!("{}/env/virtual", TEMP);
    let prefix = format!("{}/myproj/ABCDEF12/default", storage);
    write_pyvenv_cfg(&mut fs, &prefix, "default", "3.12.1");
    let exe = write_python_exe(&mut fs, &prefix);

    let locator = make_locator(Some(storage.clone()));
    let env = PythonEnv::new(exe, Some(prefix.clone()), None);
    let identified = locator
        .try_from(&fs, &MemProbe(&fs), &env)
        .expect("Hatch env should match");
    assert_eq!(identified.category, PythonEnvironmentKind::Hatch);
    assert_eq!(identified.name, Some("default".to_string()));
    assert_eq!(identified.version, Some("3.12.1".to_string()));
    assert_eq!(identified.prefix, Some(prefix));
    assert!(identified.project.is_none());
}

#[test]
fn try_from_rejects_two_levels_deep_under_storage() {
    let mut fs = MemFs::default();
    let storage = format!("{}/env/virtual", TEMP);
    let prefix = format!("{}/myproj-hash/default", storage);
    write_pyvenv_cfg(&mut fs, &prefix, "default", "3.12.1");
    let exe = write_python_exe(&mut fs, &prefix);

    let locator = make_locator(Some(storage));
    let env = PythonEnv::new(exe, Some(prefix), None);
    assert!(locator.try_from(&fs, &MemProbe(&fs), &env).is_none());
}

#[test]
fn try_from_rejects_four_levels_deep_under_storage() {
    let mut fs = MemFs::default();
    let storage = format!("{}/env/virtual", TEMP);
    let prefix = format!("{}/a/b/c/d", storage);
    write_pyvenv_cfg(&mut fs, &prefix, "d", "3.12.1");
    let exe = write_python_exe(&mut fs, &prefix);

    let locator = make_locator(Some(storage));
    let env = PythonEnv::new(exe, Some(prefix), None);
    assert!(locator.try_from(&fs, &MemProbe(&fs), &env).is_none());
}

#[test]
fn try_from_returns_none_for_plain_venv() {
    let mut fs = MemFs::default();
    let prefix = format!("{}/.venv", TEMP);
    write_pyvenv_cfg(&mut fs, &prefix, "venv", "3.12.1");
    let exe = write_python_exe(&mut fs, &prefix);

    let locator = make_locator(Some(format!("{}/nonexistent", TEMP)));
    let env = PythonEnv::new(exe, Some(prefix), None);
    assert!(locator.try_from(&fs, &MemProbe(&fs), &env).is_none());
}

#[test]
fn try_from_identifies_project_local_env_via_pyproject() {
    let mut fs = MemFs::default();
    let project = format!("{}/project", TEMP);
    fs.create_dir_all(&project);
    fs.write(
        &format!("{}/pyproject.toml", project),
        "[project]\nname = \"foo\"\n\n[tool.hatch.dirs.env]\nvirtual = \".hatch\"\n",
    );
    let prefix = format!("{}/.hatch/default", project);
    write_pyvenv_cfg(&mut fs, &prefix, "default", "3.11.0");
    let exe = write_python_exe(&mut fs, &prefix);

    let locator = Hatch {
        default_virtual_dir: None,
        workspace_directories: vec![project.clone()],
    };
    let env = PythonEnv::new(exe, Some(prefix), None);
    let identified = locator
        .try_from(&fs, &MemProbe(&fs), &env)
        .expect("project-local env match");
    assert_eq!(identified.category, PythonEnvironmentKind::Hatch);
    assert_eq!(identified.project, Some(project));
    assert_eq!(identified.name, Some("default".to_string()));
}

#[test]
fn try_from_identifies_project_local_env_via_hatch_toml() {
    let mut fs = MemFs::default();
    let project = format!("{}/project", TEMP);
    fs.create_dir_all(&project);
    fs.write(
        &format!("{}/hatch.toml", project),
        "[dirs.env]\nvirtual = \".hatch\"\n",
    );
    let prefix = format!("{}/.hatch/default", project);
    write_pyvenv_cfg(&mut fs, &prefix, "default", "3.11.0");
    let exe = write_python_exe(&mut fs, &prefix);

    let locator = Hatch {
        default_virtual_dir: None,
        workspace_directories: vec![project.clone()],
    };
    let env = PythonEnv::new(exe, Some(prefix), None);
    let identified = locator
        .try_from(&fs, &MemProbe(&fs), &env)
        .expect("project-local env match");
    assert_eq!(identified.project, Some(project));
}

#[test]
fn try_from_rejects_project_local_without_dirs_env_config() {
    let mut fs = MemFs::default();
    let project = format!("{}/project", TEMP);
    fs.create_dir_all(&project);
    fs.write(
        &format!("{}/pyproject.toml", project),
        "[project]\nname = \"foo\"\n[tool.hatch.envs.default]\n",
    );
    let prefix = format!("{}/.hatch/default", project);
    write_pyvenv_cfg(&mut fs, &prefix, "default", "3.11.0");
    let exe = write_python_exe(&mut fs, &prefix);

    let locator = Hatch {
        default_virtual_dir: None,
        workspace_directories: vec![project],
    };
    let env = PythonEnv::new(exe, Some(prefix), None);
    assert!(locator.try_from(&fs, &MemProbe(&fs), &env).is_none());
}

#[test]
fn find_reports_envs_in_default_storage() {
    let mut fs = MemFs::default();
    let storage = format!("{}/env/virtual", TEMP);
    for env_name in ["default", "test"] {
        let prefix = format!("{}/myproj/AbCdEf12/{}", storage, env_name);
        write_pyvenv_cfg(&mut fs, &prefix, env_name, "3.12.1");
        write_python_exe(&mut fs, &prefix);
    }
    fs.create_dir_all(&format!("{}/orphan", storage));

    let envs = find_envs_in_default_storage(&fs, &MemProbe(&fs), &storage);
    assert_eq!(envs.len(), 2);
    for env in envs {
        assert_eq!(env.category, PythonEnvironmentKind::Hatch);
        assert_eq!(env.version.as_deref(), Some("3.12.1"));
    }
}

#[test]
fn find_reports_project_local_envs() {
    let mut fs = MemFs::default();
    let project = format!("{}/proj", TEMP);
    fs.create_dir_all(&project);
    fs.write(
        &format!("{}/pyproject.toml", project),
        "[tool.hatch.dirs.env]\nvirtual = \".hatch\"\n",
    );
    let prefix = format!("{}/.hatch/default", project);
    write_pyvenv_cfg(&mut fs, &prefix, "default", "3.11.0");
    write_python_exe(&mut fs, &prefix);

    let virtual_dirs = resolve_project_virtual_dirs(&fs, &project);
    assert_eq!(virtual_dirs.len(), 1);
    let envs = find_envs_in_flat_dir(&fs, &MemProbe(&fs), &virtual_dirs[0], Some(project.clone()));
    assert_eq!(envs.len(), 1);
    assert_eq!(envs[0].project, Some(project));
}

#[test]
fn resolve_project_virtual_dirs_skips_non_hatch_projects() {
    let mut fs = MemFs::default();
    let project = format!("{}/proj", TEMP);
    fs.create_dir_all(&project);
    fs.write(
        &format!("{}/pyproject.toml", project),
        "[project]\nname = \"foo\"\n",
    );
    assert!(resolve_project_virtual_dirs(&fs, &project).is_empty());
}

#[test]
fn resolve_project_virtual_dirs_supports_absolute_path() {
    let mut fs = MemFs::default();
    let project = format!("{}/proj", TEMP);
    fs.create_dir_all(&project);
    let absolute = format!("{}/custom-envs", TEMP);
    fs.create_dir_all(&absolute);
    fs.write(
        &format!("{}/pyproject.toml", project),
        &format!(
            "[tool.hatch.dirs.env]\nvirtual = \"{}\"\n",
            absolute.replace('\\', "\\\\")
        ),
    );

    let dirs = resolve_project_virtual_dirs(&fs, &project);
    assert_eq!(dirs, vec![absolute]);
}

#[test]
fn default_virtual_dir_honours_hatch_data_dir_env_var() {
    let mut fs = MemFs::default();
    let virt = format!("{}/env/virtual", TEMP);
    fs.create_dir_all(&virt);
    let env = env_with(TEMP, &[("HATCH_DATA_DIR", TEMP)]);
    assert_eq!(get_default_virtual_dir(&fs, &env, Platform::Linux), Some(virt));
}

#[test]
fn default_virtual_dir_does_not_fall_back_when_hatch_data_dir_is_set() {
    let mut fs = MemFs::default();
    fs.create_dir_all(TEMP);
    let env = env_with(TEMP, &[("HATCH_DATA_DIR", TEMP)]);
    assert_eq!(get_default_virtual_dir(&fs, &env, Platform::Linux), None);
}

#[test]
fn hatch_data_dir_hides_an_existing_platform_default() {
    let mut fs = MemFs::default();
    fs.create_dir_all(&format!("{}/.local/share/hatch/env/virtual", TEMP));
    let env = env_with(TEMP, &[("HATCH_DATA_DIR", "/elsewhere")]);
    assert_eq!(get_default_virtual_dir(&fs, &env, Platform::Linux), None);
    let env = env_with(TEMP, &[]);
    assert_eq!(
        get_default_virtual_dir(&fs, &env, Platform::Linux),
        Some(format!("{}/.local/share/hatch/env/virtual", TEMP))
    );
}

#[test]
fn try_from_derives_prefix_from_executable_when_missing() {
    let mut fs = MemFs::default();
    let storage = format!("{}/env/virtual", TEMP);
    let prefix = format!("{}/myproj/ABCDEF12/lint", storage);
    write_pyvenv_cfg(&mut fs, &prefix, "lint", "3.12.1");
    let exe = write_python_exe(&mut fs, &prefix);

    let locator = make_locator(Some(storage));
    let env = PythonEnv::new(exe.clone(), None, None);
    let identified = locator.try_from(&fs, &MemProbe(&fs), &env).unwrap();
    assert_eq!(identified.prefix, Some(prefix));
    assert_eq!(identified.executable, Some(exe));
    assert_eq!(identified.name, Some("lint".to_string()));
}
