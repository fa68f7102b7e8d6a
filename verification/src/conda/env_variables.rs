//! The environment variables conda discovery reads.
use vstd::prelude::*;
use crate::os_environment::{var_lookup, Environment};

verus! {

/// The variables conda discovery reads, taken from the process environment.
#[derive(Debug, Clone)]
pub struct EnvVariables {
    pub home: Option<String>,
    /// A stand-in for `/`, set only when testing.
    pub root: Option<String>,
    pub path: Option<String>,
    pub userprofile: Option<String>,
    pub allusersprofile: Option<String>,
    pub programdata: Option<String>,
    pub homedrive: Option<String>,
    pub conda_root: Option<String>,
    pub conda: Option<String>,
    pub conda_prefix: Option<String>,
    pub condarc: Option<String>,
    pub xdg_config_home: Option<String>,
    pub conda_dir: Option<String>,
    pub mamba_root_prefix: Option<String>,
    pub conda_envs_path: Option<String>,
    pub anaconda_project_envs_path: Option<String>,
    pub project_dir: Option<String>,
    pub localappdata: Option<String>,
    pub systemdrive: Option<String>,
    /// `USERNAME`, or else `USER`.
    pub username: Option<String>,
    pub known_global_search_locations: Vec<String>,
}

impl EnvVariables {
    pub fn from(env: &Environment) -> (r: Self)
        ensures
            r.home == env.home,
            r.root == env.root,
            r.path == var_lookup(env.vars@, "PATH"@),
            r.userprofile == var_lookup(env.vars@, "USERPROFILE"@),
            r.allusersprofile == var_lookup(env.vars@, "ALLUSERSPROFILE"@),
            r.programdata == var_lookup(env.vars@, "PROGRAMDATA"@),
            r.homedrive == var_lookup(env.vars@, "HOMEDRIVE"@),
            r.conda_root == var_lookup(env.vars@, "CONDA_ROOT"@),
            r.conda == var_lookup(env.vars@, "CONDA"@),
            r.conda_prefix == var_lookup(env.vars@, "CONDA_PREFIX"@),
            r.condarc == var_lookup(env.vars@, "CONDARC"@),
            r.xdg_config_home == var_lookup(env.vars@, "XDG_CONFIG_HOME"@),
            r.conda_dir == var_lookup(env.vars@, "CONDA_DIR"@),
            r.mamba_root_prefix == var_lookup(env.vars@, "MAMBA_ROOT_PREFIX"@),
            r.conda_envs_path == var_lookup(env.vars@, "CONDA_ENVS_PATH"@),
            r.anaconda_project_envs_path == var_lookup(env.vars@, "ANACONDA_PROJECT_ENVS_PATH"@),
            r.project_dir == var_lookup(env.vars@, "PROJECT_DIR"@),
            r.localappdata == var_lookup(env.vars@, "LOCALAPPDATA"@),
            r.systemdrive == var_lookup(env.vars@, "SYSTEMDRIVE"@),
            r.username == match var_lookup(env.vars@, "USERNAME"@) {
                Some(u) => Some(u),
                None => var_lookup(env.vars@, "USER"@),
            },
            r.known_global_search_locations@ == env.global_search_locations@,
    {
        EnvVariables {
            home: env.get_user_home(),
            root: env.get_root(),
            path: env.get_env_var("PATH"),
            userprofile: env.get_env_var("USERPROFILE"),
            allusersprofile: env.get_env_var("ALLUSERSPROFILE"),
            programdata: env.get_env_var("PROGRAMDATA"),
            homedrive: env.get_env_var("HOMEDRIVE"),
            conda_root: env.get_env_var("CONDA_ROOT"),
            conda: env.get_env_var("CONDA"),
            conda_prefix: env.get_env_var("CONDA_PREFIX"),
            condarc: env.get_env_var("CONDARC"),
            xdg_config_home: env.get_env_var("XDG_CONFIG_HOME"),
            conda_dir: env.get_env_var("CONDA_DIR"),
            mamba_root_prefix: env.get_env_var("MAMBA_ROOT_PREFIX"),
            conda_envs_path: env.get_env_var("CONDA_ENVS_PATH"),
            anaconda_project_envs_path: env.get_env_var("ANACONDA_PROJECT_ENVS_PATH"),
            project_dir: env.get_env_var("PROJECT_DIR"),
            localappdata: env.get_env_var("LOCALAPPDATA"),
            systemdrive: env.get_env_var("SYSTEMDRIVE"),
            username: match env.get_env_var("USERNAME") {
                Some(u) => Some(u),
                None => env.get_env_var("USER"),
            },
            known_global_search_locations: env.get_know_global_search_locations(),
        }
    }
}

} // verus!
