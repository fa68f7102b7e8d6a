//! Poetry's `config.toml` and `poetry.toml` settings.
use vstd::prelude::*;
use crate::os_environment::FileSystem;
use crate::paths::{join, join_path};
use crate::poetry::env_variables::EnvVariables;
use crate::text::{chars_to_string, opt_view, str_to_chars, trim_chars, trim_ws};
use crate::toml_doc::{toml_lookup, toml_value_at, TomlLookup, TomlView};

verus! {

/// Where Poetry keeps virtual environments, whether it creates them inside
/// projects, and the file these settings came from.
#[derive(Debug, Clone, PartialEq, Eq)]
pub struct Config {
    pub virtualenvs_in_project: Option<bool>,
    pub virtualenvs_path: String,
    pub file: Option<String>,
}

/// What a Poetry configuration file sets.
#[derive(Debug, Clone, PartialEq, Eq)]
pub struct ConfigToml {
    pub virtualenvs_in_project: Option<bool>,
    pub cache_dir: Option<String>,
    pub virtualenvs_path: Option<String>,
}

/// The trimmed text at `keys`, if a string is stored there.
pub open spec fn text_at(contents: Seq<char>, keys: Seq<Seq<char>>) -> Option<Seq<char>> {
    match toml_value_at(contents, keys) {
        TomlView::Text(t) => Some(trim_ws(t)),
        _ => None,
    }
}

/// The settings a configuration text gives: `None` when it is not TOML;
/// `virtualenvs.path`, `virtualenvs.in-project` and `cache-dir`, the
/// environments' folder defaulting to `<cache-dir>/virtualenvs`.
pub open spec fn config_of(contents: Seq<char>) -> Option<(Option<bool>, Option<Seq<char>>, Option<Seq<char>>)> {
    if toml_value_at(contents, seq![]) is Invalid {
        None
    } else {
        let path = text_at(contents, seq!["virtualenvs"@, "path"@]);
        let in_project = match toml_value_at(contents, seq!["virtualenvs"@, "in-project"@]) {
            TomlView::Flag(b) => Some(b),
            _ => None,
        };
        let cache = text_at(contents, seq!["cache-dir"@]);
        let venvs = match (path, cache) {
            (None, Some(c)) => Some(join(c, "virtualenvs"@)),
            _ => path,
        };
        Some((in_project, venvs, cache))
    }
}

fn lookup_text(contents: &str, keys: &Vec<&str>) -> (r: Option<String>)
    ensures
        opt_view(r) == text_at(contents@, keys@.map_values(|k: &str| k@)),
{
    match toml_lookup(contents, keys) {
        TomlLookup::Text(t) => {
            let trimmed = trim_chars(&str_to_chars(t.as_str()));
            Some(chars_to_string(trimmed.as_slice()))
        },
        _ => None,
    }
}

/// Reads a Poetry configuration text (see [`config_of`]).
pub fn parse_contents(contents: &str) -> (r: Option<ConfigToml>)
    ensures
        match config_of(contents@) {
            Some((in_project, venvs, cache)) => r matches Some(c) && c.virtualenvs_in_project
                == in_project && opt_view(c.virtualenvs_path) == venvs && opt_view(c.cache_dir)
                == cache,
            None => r is None,
        },
{
    let root: Vec<&str> = Vec::new();
    assert(root@.map_values(|k: &str| k@) =~= Seq::<Seq<char>>::empty());
    match toml_lookup(contents, &root) {
        TomlLookup::Invalid => {
            return None;
        },
        _ => {},
    }
    let path_keys: Vec<&str> = vec!["virtualenvs", "path"];
    let flag_keys: Vec<&str> = vec!["virtualenvs", "in-project"];
    let cache_keys: Vec<&str> = vec!["cache-dir"];
    assert(path_keys@.map_values(|k: &str| k@) =~= seq!["virtualenvs"@, "path"@]);
    assert(flag_keys@.map_values(|k: &str| k@) =~= seq!["virtualenvs"@, "in-project"@]);
    assert(cache_keys@.map_values(|k: &str| k@) =~= seq!["cache-dir"@]);
    let path = lookup_text(contents, &path_keys);
    let in_project = match toml_lookup(contents, &flag_keys) {
        TomlLookup::Flag(b) => Some(b),
        _ => None,
    };
    let cache_dir = lookup_text(contents, &cache_keys);
    let virtualenvs_path = match (&path, &cache_dir) {
        (None, Some(c)) => Some(join_path(c.as_str(), "virtualenvs")),
        _ => path,
    };
    Some(ConfigToml { virtualenvs_in_project: in_project, cache_dir, virtualenvs_path })
}

/// `c` is what the configuration text `t` sets.
pub open spec fn config_read_from(t: Seq<char>, c: ConfigToml) -> bool {
    config_of(t) == Some((c.virtualenvs_in_project, opt_view(c.virtualenvs_path), opt_view(c.cache_dir)))
}

/// Reads the configuration file `file`.
pub fn parse<F: FileSystem>(fs: &F, file: &str) -> (r: Option<ConfigToml>)
    ensures
        r matches Some(c) ==> exists|t: Seq<char>| #[trigger] config_read_from(t, c),
{
    match fs.read_to_string(file) {
        Some(contents) => {
            let r = parse_contents(contents.as_str());
            proof {
                if r is Some {
                    assert(config_read_from(contents@, r->0));
                }
            }
            r
        },
        None => None,
    }
}

/// Poetry's cache folder for `env` (see [`get_default_cache_dir`]).
pub open spec fn default_cache_dir(env: EnvVariables) -> Option<String> {
    match env.poetry_cache_dir {
        Some(c) => Some(c),
        None => env.user_cache_dir,
    }
}

/// `c` is the configuration made with `file`: its environments' folder either
/// the one a configuration text sets, with that text's `in-project` flag, or
/// `virtualenvs` in the cache folder, with no flag.
pub open spec fn config_made(env: EnvVariables, file: Option<String>, c: Config) -> bool {
    &&& c.file == file
    &&& (default_cache_dir(env) matches Some(cache) && c.virtualenvs_path@ == join(cache@, "virtualenvs"@)
        && c.virtualenvs_in_project is None) || (file is Some && exists|t: Seq<char>|
        #[trigger] config_of(t) matches Some((ip, Some(v), ca)) && v == c.virtualenvs_path@ && ip
        == c.virtualenvs_in_project)
}

/// Poetry's cache folder: `POETRY_CACHE_DIR`, or the per-user cache folder.
pub fn get_default_cache_dir(env: &EnvVariables) -> (r: Option<String>)
    ensures
        r == (match env.poetry_cache_dir {
            Some(c) => Some(c),
            None => env.user_cache_dir,
        }),
{
    match &env.poetry_cache_dir {
        Some(c) => Some(c.clone()),
        None => env.user_cache_dir.clone(),
    }
}

/// Poetry's configuration folder: `POETRY_CONFIG_DIR` when it is a folder,
/// otherwise the per-user configuration folder.
pub fn get_config_dir<F: FileSystem>(fs: &F, env: &EnvVariables) -> (r: Option<String>)
    ensures
        r == env.poetry_config_dir || r == env.user_config_dir,
        env.poetry_config_dir is None ==> r == env.user_config_dir,
{
    match &env.poetry_config_dir {
        Some(c) => {
            if fs.is_dir(c.as_str()) {
                return Some(c.clone());
            }
        },
        None => {},
    }
    env.user_config_dir.clone()
}

/// `config.toml` in Poetry's configuration folder, if it exists.
pub fn find_config_file<F: FileSystem>(fs: &F, env: &EnvVariables) -> (r: Option<String>)
    ensures
        r matches Some(f) ==> exists|d: String|
            (Some(d) == env.poetry_config_dir || Some(d) == env.user_config_dir) && f@ == join(
                d@,
                "config.toml"@,
            ),
{
    let dir = match get_config_dir(fs, env) {
        Some(d) => d,
        None => {
            return None;
        },
    };
    let file = join_path(dir.as_str(), "config.toml");
    if fs.path_exists(file.as_str()) {
        Some(file)
    } else {
        None
    }
}

/// The configuration that `file` (when given) sets, the environments' folder
/// defaulting to `<cache folder>/virtualenvs`.
pub fn create_config<F: FileSystem>(fs: &F, file: Option<String>, env: &EnvVariables) -> (r: Option<
    Config,
>)
    ensures
        r matches Some(c) ==> c.file == file && config_made(*env, file, c),
        default_cache_dir(*env) is Some ==> r is Some,
        file is None ==> (r is Some <==> default_cache_dir(*env) is Some),
{
    let cfg = match &file {
        Some(f) => parse(fs, f.as_str()),
        None => None,
    };
    match &cfg {
        Some(c) => match &c.virtualenvs_path {
            Some(p) => {
                proof {
                    let t = choose|t: Seq<char>| #[trigger] config_read_from(t, *c);
                    assert(config_of(t) matches Some((ip, Some(v), ca)) && v == p@ && ip == c.virtualenvs_in_project);
                }
                return Some(Config::new(file, p.clone(), c.virtualenvs_in_project));
            },
            None => {},
        },
        None => {},
    }
    match get_default_cache_dir(env) {
        Some(cache) => Some(Config::new(file, join_path(cache.as_str(), "virtualenvs"), None)),
        None => None,
    }
}

impl Config {
    pub fn new(file: Option<String>, virtualenvs_path: String, virtualenvs_in_project: Option<bool>) -> (r:
        Self)
        ensures
            r.file == file,
            r.virtualenvs_path == virtualenvs_path,
            r.virtualenvs_in_project == virtualenvs_in_project,
    {
        Config { file, virtualenvs_path, virtualenvs_in_project }
    }

    /// The global configuration.
    pub fn find_global<F: FileSystem>(fs: &F, env: &EnvVariables) -> (r: Option<Self>)
        ensures
            r matches Some(c) ==> config_made(*env, c.file, c),
            default_cache_dir(*env) is Some ==> r is Some,
    {
        let file = find_config_file(fs, env);
        create_config(fs, file, env)
    }

    /// The configuration of the project at `path`, from its `poetry.toml`.
    pub fn find_local<F: FileSystem>(fs: &F, path: &str, env: &EnvVariables) -> (r: Option<Self>)
        ensures
            r matches Some(c) ==> c.file matches Some(f) && f@ == join(path@, "poetry.toml"@)
                && config_made(*env, c.file, c),
    {
        let file = join_path(path, "poetry.toml");
        if fs.is_file(file.as_str()) {
            create_config(fs, Some(file), env)
        } else {
            None
        }
    }
}

} // verus!
