use pet::cache::LocatorCache;
use pet::conda::environments::{get_conda_dir_from_cmd, get_conda_dir_from_cmd_on};
use pet::hatch::{platform_default_data_dir, Hatch};
use pet::locator::{Locator, LocatorKind};
use pet::os_environment::{Environment, FileSystem, Platform};
use pet::pixi::Pixi;
use pet::python_environment::PythonEnvironmentKind;
use pet::pyvenv_cfg::parse_uv_version;

/// A file system with nothing on it.
struct EmptyFs;

impl FileSystem for EmptyFs {
    fn path_exists(&self, _path: &str) -> bool {
        false
    }
    fn is_file(&self, _path: &str) -> bool {
        false
    }
    fn is_dir(&self, _path: &str) -> bool {
        false
    }
    fn read_to_string(&self, _path: &str) -> Option<String> {
        None
    }
    fn read_dir(&self, _path: &str) -> Vec<String> {
        Vec::new()
    }
    fn canonicalize(&self, _path: &str) -> Option<String> {
        None
    }
    fn is_symlink(&self, _path: &str) -> bool {
        false
    }
}

fn env_with(home: Option<&str>, vars: &[(&str, &str)]) -> Environment {
    Environment {
        home: home.map(|h| h.to_string()),
        root: None,
        vars: vars
            .iter()
            .map(|(k, v)| (k.to_string(), v.to_string()))
            .collect(),
        global_search_locations: Vec::new(),
    }
}

#[test]
fn test_cache_get_and_insert() {
    let mut cache: LocatorCache<String, i32> = LocatorCache::new();

    assert!(cache.get(&"key1".to_string()).is_none());
    assert!(!cache.contains_key(&"key1".to_string()));

    cache.insert("key1".to_string(), 42);

    assert_eq!(cache.get(&"key1".to_string()), Some(42));
    assert!(cache.contains_key(&"key1".to_string()));
}

#[test]
fn test_cache_get_or_insert_with() {
    let mut cache: LocatorCache<String, i32> = LocatorCache::new();

    let result = cache.get_or_insert_with("key1".to_string(), || Some(42));
    assert_eq!(result, Some(42));

    let result = cache.get_or_insert_with("key1".to_string(), || Some(100));
    assert_eq!(result, Some(42));

    let result = cache.get_or_insert_with("key2".to_string(), || None);
    assert!(result.is_none());
    assert!(!cache.contains_key(&"key2".to_string()));
}

#[test]
fn test_cache_clear() {
    let mut cache: LocatorCache<String, i32> = LocatorCache::new();

    cache.insert("key1".to_string(), 42);
    cache.insert("key2".to_string(), 100);

    assert_eq!(cache.len(), 2);

    cache.clear();

    assert!(cache.is_empty());
    assert_eq!(cache.len(), 0);
}

#[test]
fn test_cache_values() {
    let mut cache: LocatorCache<String, i32> = LocatorCache::new();

    cache.insert("key1".to_string(), 42);
    cache.insert("key2".to_string(), 100);

    let mut values = cache.values();
    values.sort();
    assert_eq!(values, vec![42, 100]);
}

#[test]
fn test_cache_insert_many() {
    let mut cache: LocatorCache<String, i32> = LocatorCache::new();

    let entries = vec![
        ("key1".to_string(), 42),
        ("key2".to_string(), 100),
        ("key3".to_string(), 200),
    ];

    cache.insert_many(entries);

    assert_eq!(cache.len(), 3);
    assert_eq!(cache.get(&"key1".to_string()), Some(42));
    assert_eq!(cache.get(&"key2".to_string()), Some(100));
    assert_eq!(cache.get(&"key3".to_string()), Some(200));
}

#[test]
fn cache_insert_replaces_and_returns_the_previous_value() {
    let mut cache: LocatorCache<u64, String> = LocatorCache::new();
    assert_eq!(cache.insert(7, "a".to_string()), None);
    assert_eq!(cache.insert(7, "b".to_string()), Some("a".to_string()));
    assert_eq!(cache.len(), 1);
    assert_eq!(cache.get(&7), Some("b".to_string()));
}

#[test]
fn test_parse_uv_version() {
    assert_eq!(parse_uv_version("uv = 0.8.14"), Some("0.8.14".to_string()));
    assert_eq!(parse_uv_version("uv=0.8.14"), Some("0.8.14".to_string()));
    assert_eq!(parse_uv_version("uv = \"0.8.14\""), Some("0.8.14".to_string()));
    assert_eq!(parse_uv_version("uv = '0.8.14'"), Some("0.8.14".to_string()));
    assert_eq!(parse_uv_version("version = 3.12.11"), None);
    assert_eq!(parse_uv_version("prompt = test-env"), None);
}

#[test]
fn environments_parse_cmd_line() {
    let line = "# cmd: C:\\Users\\donja\\miniconda3\\lib\\site-packages\\conda\\__main__.py create --yes --prefix .conda python=3.9";
    let conda_dir = get_conda_dir_from_cmd_on(&EmptyFs, line, Platform::Windows).unwrap();

    assert_eq!(conda_dir, "C:\\Users\\donja\\miniconda3".to_string());

    let line =
        "# cmd: C:\\Users\\donja\\miniconda3\\Scripts\\conda-script.py create -n samlpe1";
    let conda_dir = get_conda_dir_from_cmd_on(&EmptyFs, line, Platform::Windows).unwrap();

    assert_eq!(conda_dir, "C:\\Users\\donja\\miniconda3".to_string());

    // From root install folder
    let line = "# cmd: build.py --product miniconda --python 3.9 --installer-type exe --output-dir C:\\ci\\containers\\000029l07m4\\tmp\\build\\dd3144c1\\output-installer/220421/ --standalone C:\\ci\\containers\\000029l07m4\\tmp\\build\\dd3144c1\\mc/standalone_conda/conda.exe";
    let conda_dir = get_conda_dir_from_cmd_on(&EmptyFs, line, Platform::Windows);

    assert!(conda_dir.is_none());
}

#[test]
fn parse_cmd_line() {
    let line = "# cmd: /Users/donjayamanne/.pyenv/versions/mambaforge-22.11.1-3/lib/python3.10/site-packages/conda/__main__.py create --yes --prefix .conda python=3.12";
    let conda_dir = get_conda_dir_from_cmd(&EmptyFs, line).unwrap();

    assert_eq!(
        conda_dir,
        "/Users/donjayamanne/.pyenv/versions/mambaforge-22.11.1-3".to_string()
    );
}

#[test]
fn conda_cmd_line_through_bin_folder() {
    let line = "# cmd: /Users/donjayamanne/miniconda3/bin/conda create -n conda1";
    assert_eq!(
        get_conda_dir_from_cmd(&EmptyFs, line),
        Some("/Users/donjayamanne/miniconda3".to_string())
    );
    assert_eq!(get_conda_dir_from_cmd(&EmptyFs, "# cmd: conda install x"), None);
}

#[test]
fn kind_and_supported_categories() {
    let locator = Hatch::from(&EmptyFs, &env_with(None, &[]), Platform::Linux);
    assert_eq!(locator.get_kind(), LocatorKind::Hatch);
    assert_eq!(
        locator.supported_categories(),
        vec![PythonEnvironmentKind::Hatch]
    );
}

#[test]
fn data_dir_falls_back_to_local_share_on_linux() {
    let env = env_with(Some("/home/test"), &[]);
    assert_eq!(
        platform_default_data_dir(&env, Platform::Linux),
        Some("/home/test/.local/share/hatch".to_string())
    );
}

#[test]
fn data_dir_uses_application_support_on_macos() {
    let env = env_with(Some("/Users/test"), &[]);
    assert_eq!(
        platform_default_data_dir(&env, Platform::MacOs),
        Some("/Users/test/Library/Application Support/hatch".to_string())
    );
}

#[test]
fn data_dir_uses_localappdata_on_windows() {
    let env = env_with(
        Some("C:\\Users\\test"),
        &[("LOCALAPPDATA", "C:\\Users\\test\\AppData\\Local")],
    );
    assert_eq!(
        platform_default_data_dir(&env, Platform::Windows),
        Some("C:\\Users\\test\\AppData\\Local\\hatch".to_string())
    );
}

#[test]
fn data_dir_uses_xdg_data_home_when_set() {
    let env = env_with(Some("/home/test"), &[("XDG_DATA_HOME", "/custom/data")]);
    assert_eq!(
        platform_default_data_dir(&env, Platform::Linux),
        Some("/custom/data/hatch".to_string())
    );
}

#[test]
fn pixi_locator_reports_kind_and_supported_category() {
    let locator = Pixi::default();

    assert_eq!(locator.get_kind(), LocatorKind::Pixi);
    assert_eq!(
        locator.supported_categories(),
        vec![PythonEnvironmentKind::Pixi]
    );
}
