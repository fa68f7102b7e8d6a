//! Poetry projects and the environments Poetry creates for them.
pub mod env_variables;
pub mod config;
pub mod pyproject_toml;
pub mod environment_locations;
pub mod manager;
pub mod locator;
