//! Discovery logic for Python environments: path patterns, configuration
//! parsing, the JSON-RPC transport framing and the environment model.
pub mod text;
pub mod braces;
pub mod glob;
pub mod walk;
pub mod cache;
pub mod io_errors;
pub mod framing;
pub mod output;
pub mod server;
pub mod paths;
pub mod picking;
pub mod manager;
pub mod python_environment;
pub mod os_environment;
pub mod locator;
pub mod regexes;
pub mod pyvenv_cfg;
pub mod json;
pub mod conda;
pub mod yaml;
pub mod toml_doc;
pub mod digest;
pub mod poetry;
pub mod pixi;
pub mod hatch;
pub mod pipenv;
pub mod homebrew;
pub mod pyenv;
pub mod env_var_path;
pub mod mac;
pub mod linux_global;
pub mod laws;
