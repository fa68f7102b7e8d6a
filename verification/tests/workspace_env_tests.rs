use pet::locator::PythonEnv;
use pet::os_environment::{FileSystem, PythonProbe, ResolvedPython};
use pet::pipenv::{get_pipenv_project, EnvVariables, PipEnv};
use pet::pixi::{is_pixi_env, Pixi};
use pet::python_environment::PythonEnvironmentKind;
use pet::pyvenv_cfg::parse_contents;
use std::collections::{BTreeMap, BTreeSet};

/// An in-memory tree of folders and files.
#[derive(Default)]
struct MemFs {
    dirs: BTreeSet<String>,
    files: BTreeMap<String, String>,
}

impl MemFs {
    fn create_dir_all(&mut self, p: &str) {
        let mut cur = String::new();
        for piece in p.split('/').filter(|s| !s.is_empty()) {
            cur.push('/');
            cur.push_str(piece);
            self.dirs.insert(cur.clone());
        }
    }
    fn write(&mut self, p: &str, contents: &str) {
        if let Some(i) = p.rfind('/') {
            self.create_dir_all(&p[..i]);
        }
        self.files.insert(p.to_string(), contents.to_string());
    }
    fn parent(p: &str) -> &str {
        match p.rfind('/') {
            Some(0) => "/",
            Some(i) => &p[..i],
            None => "",
        }
    }
}

impl FileSystem for MemFs {
    fn path_exists(&self, path: &str) -> bool {
        self.is_dir(path) || self.is_file(path)
    }
    fn is_file(&self, path: &str) -> bool {
        self.files.contains_key(path.trim_end_matches('/'))
    }
    fn is_dir(&self, path: &str) -> bool {
        self.dirs.contains(path.trim_end_matches('/'))
    }
    fn read_to_string(&self, path: &str) -> Option<String> {
        self.files.get(path).cloned()
    }
    fn read_dir(&self, path: &str) -> Vec<String> {
        let dir = path.trim_end_matches('/');
        self.dirs
            .iter()
            .chain(self.files.keys())
            .filter(|p| MemFs::parent(p) == dir)
            .cloned()
            .collect()
    }
    fn canonicalize(&self, path: &str) -> Option<String> {
        if self.path_exists(path) {
            Some(path.to_string())
        } else {
            None
        }
    }
    fn is_symlink(&self, _path: &str) -> bool {
        false
    }
}

impl PythonProbe for MemFs {
    fn find_executable(&self, prefix: &str) -> Option<String> {
        let exe = format!("{}/bin/python", prefix);
        if self.is_file(&exe) {
            Some(exe)
        } else {
            None
        }
    }
    fn find_executables(&self, dir: &str) -> Vec<String> {
        self.find_executable(dir).into_iter().collect()
    }
    fn version_from_creator(&self, prefix: &str) -> Option<String> {
        self.read_to_string(&format!("{}/pyvenv.cfg", prefix))
            .and_then(|text| parse_contents(&text))
            .map(|cfg| cfg.version)
    }
    fn version_from_header_files(&self, _prefix: &str) -> Option<String> {
        None
    }
    fn resolve(&self, _exe: &str) -> Option<ResolvedPython> {
        None
    }
    fn is_virtualenv(&self, env: &PythonEnv) -> bool {
        env.prefix
            .as_ref()
            .map_or(false, |p| self.is_file(&format!("{}/pyvenv.cfg", p)))
    }
}

const TEMP: &str = "/tmp/pet-test";

fn create_pixi_prefix(fs: &mut MemFs) -> String {
    let prefix = format!("{}/prefix/pixi-env", TEMP);
    fs.create_dir_all(&format!("{}/conda-meta", prefix));
    fs.write(&format!("{}/conda-meta/pixi", prefix), "");
    fs.create_dir_all(&format!("{}/bin", prefix));
    prefix
}

#[test]
fn is_pixi_env_checks_for_pixi_marker_file() {
    let mut fs = MemFs::default();
    let prefix = create_pixi_prefix(&mut fs);

    assert!(is_pixi_env(&fs, &prefix));
    assert!(!is_pixi_env(&fs, &format!("{}/conda-meta", prefix)));
}

#[test]
fn try_from_identifies_pixi_env_from_explicit_prefix() {
    let mut fs = MemFs::default();
    let prefix = create_pixi_prefix(&mut fs);
    let executable = format!("{}/bin/python", prefix);
    fs.write(&executable, "");
    let locator = Pixi::new();
    let env = PythonEnv::new(
        executable.clone(),
        Some(prefix.clone()),
        Some("3.12.0".to_string()),
    );

    let pixi_env = locator.try_from(&fs, &fs, &env).unwrap();

    assert_eq!(pixi_env.category, PythonEnvironmentKind::Pixi);
    assert_eq!(pixi_env.name, Some("pixi-env".to_string()));
    assert_eq!(pixi_env.prefix, Some(prefix));
    assert_eq!(pixi_env.executable, Some(executable));
}

#[test]
fn try_from_derives_pixi_prefix_from_nested_python_executable() {
    let mut fs = MemFs::default();
    let prefix = create_pixi_prefix(&mut fs);
    let executable = format!("{}/bin/python", prefix);
    fs.write(&executable, "");
    let locator = Pixi::new();
    let env = PythonEnv::new(executable, None, None);

    let pixi_env = locator.try_from(&fs, &fs, &env).unwrap();

    assert_eq!(pixi_env.category, PythonEnvironmentKind::Pixi);
    assert_eq!(pixi_env.prefix, Some(prefix));
}

#[test]
fn try_from_rejects_non_pixi_environments() {
    let mut fs = MemFs::default();
    let prefix = format!("{}/plain-prefix", TEMP);
    fs.create_dir_all(&prefix);
    let executable = format!("{}/python", prefix);
    fs.write(&executable, "");
    let locator = Pixi::new();
    let env = PythonEnv::new(executable, Some(prefix), None);

    assert!(locator.try_from(&fs, &fs, &env).is_none());
}

#[test]
fn test_pyvenv_cfg_detects_uv() {
    let contents = "home = /usr/bin/python3.12\nimplementation = CPython\nuv = 0.8.14\nversion_info = 3.12.11\ninclude-system-site-packages = false\nprompt = test-uv-env\n";
    let cfg = parse_contents(contents).unwrap();
    assert!(cfg.is_uv());
    assert_eq!(cfg.uv_version, Some("0.8.14".to_string()));
    assert_eq!(cfg.prompt, Some("test-uv-env".to_string()));
}

#[test]
fn test_pyvenv_cfg_regular_venv() {
    let contents = "home = /usr/bin/python3.12\ninclude-system-site-packages = false\nversion = 3.13.5\nexecutable = /usr/bin/python3.12\ncommand = python -m venv /path/to/env\n";
    let cfg = parse_contents(contents).unwrap();
    assert!(!cfg.is_uv());
    assert_eq!(cfg.uv_version, None);
}

#[test]
fn infer_project_for_venv_in_project() {
    let mut fs = MemFs::default();
    let project_dir = format!("{}/project", TEMP);
    let venv_dir = format!("{}/.venv", project_dir);
    let bin_dir = format!("{}/bin", venv_dir);
    let python_exe = format!("{}/python", bin_dir);

    fs.create_dir_all(&bin_dir);
    fs.write(&format!("{}/Pipfile", project_dir), "[[source]]\n");
    fs.write(&python_exe, "");
    fs.write(&format!("{}/pyvenv.cfg", venv_dir), "version = 3.12.0\n");

    let env = PythonEnv::new(python_exe, Some(venv_dir), None);

    let inferred = get_pipenv_project(&fs, &env).expect("expected project path");
    assert_eq!(inferred, project_dir);

    let locator = PipEnv {
        env_vars: EnvVariables {
            pipenv_max_depth: 3,
            pipenv_pipfile: "Pipfile".to_string(),
        },
    };
    let result = locator
        .try_from(&fs, &fs, &env)
        .expect("expected locator to return environment");
    assert_eq!(result.project, Some(project_dir));
}
