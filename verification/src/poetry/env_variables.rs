//! The environment variables Poetry discovery reads.
use vstd::prelude::*;
use crate::os_environment::{var_lookup, Environment};

verus! {

/// What Poetry discovery reads of the process environment. `user_cache_dir` and
/// `user_config_dir` are the platform's per-user cache and configuration folders
/// for Poetry, as the application determines them.
#[derive(Debug, Clone)]
pub struct EnvVariables {
    pub home: Option<String>,
    pub poetry_cache_dir: Option<String>,
    pub poetry_config_dir: Option<String>,
    pub poetry_virtualenvs_in_project: Option<bool>,
    pub user_cache_dir: Option<String>,
    pub user_config_dir: Option<String>,
    pub poetry_home: Option<String>,
    pub app_data: Option<String>,
    pub path: Option<String>,
}

/// A boolean setting given as text: `true` or `1` is true, anything else false.
pub open spec fn flag_value(v: Seq<char>) -> bool {
    v == "true"@ || v == "1"@
}

impl EnvVariables {
    pub fn from(env: &Environment, user_cache_dir: Option<String>, user_config_dir: Option<String>) -> (r: Self)
        ensures
            r.home == env.home,
            r.poetry_cache_dir == var_lookup(env.vars@, "POETRY_CACHE_DIR"@),
            r.poetry_config_dir == var_lookup(env.vars@, "POETRY_CONFIG_DIR"@),
            r.poetry_virtualenvs_in_project == match var_lookup(env.vars@, "POETRY_VIRTUALENVS_IN_PROJECT"@) {
                Some(v) => Some(flag_value(v@)),
                None => None,
            },
            r.user_cache_dir == user_cache_dir,
            r.user_config_dir == user_config_dir,
            r.poetry_home == var_lookup(env.vars@, "POETRY_HOME"@),
            r.app_data == var_lookup(env.vars@, "APPDATA"@),
            r.path == var_lookup(env.vars@, "PATH"@),
    {
        let in_project = match env.get_env_var("POETRY_VIRTUALENVS_IN_PROJECT") {
            Some(v) => {
                let c = crate::text::str_to_chars(v.as_str());
                let t = crate::text::chars_eq(&c, &crate::text::str_to_chars("true"));
                let o = crate::text::chars_eq(&c, &crate::text::str_to_chars("1"));
                Some(t || o)
            },
            None => None,
        };
        EnvVariables {
            home: env.get_user_home(),
            poetry_cache_dir: env.get_env_var("POETRY_CACHE_DIR"),
            poetry_config_dir: env.get_env_var("POETRY_CONFIG_DIR"),
            poetry_virtualenvs_in_project: in_project,
            user_cache_dir,
            user_config_dir,
            poetry_home: env.get_env_var("POETRY_HOME"),
            app_data: env.get_env_var("APPDATA"),
            path: env.get_env_var("PATH"),
        }
    }
}

} // verus!
