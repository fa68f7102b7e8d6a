//! Conda installations and environments.
pub mod utils;
pub mod package;
pub mod environments;
pub mod manager;
pub mod env_variables;
pub mod conda_rc;
pub mod environment_locations;
pub mod locator;
