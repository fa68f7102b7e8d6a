//! What every locator offers, and the configuration and results they share.
use vstd::prelude::*;
use crate::manager::EnvManager;
use crate::python_environment::{PythonEnvironment, PythonEnvironmentKind};

verus! {

/// The locators. Declared in name order, so the derived order is the order of
/// the names.
#[derive(Debug, Clone, Copy, PartialEq, Eq, Structural, PartialOrd, Ord, Hash)]
pub enum LocatorKind {
    Conda,
    Hatch,
    Homebrew,
    LinuxGlobal,
    MacCommandLineTools,
    MacPythonOrg,
    MacXCode,
    PipEnv,
    Pixi,
    Poetry,
    PyEnv,
    Venv,
    VenvUv,
    VirtualEnv,
    VirtualEnvWrapper,
    WindowsRegistry,
    WindowsStore,
}

/// The managers and environments that a search found.
#[derive(Debug, Clone, PartialEq, Eq)]
pub struct LocatorResult {
    pub managers: Vec<EnvManager>,
    pub environments: Vec<PythonEnvironment>,
}

/// Settings handed to the locators.
#[derive(Debug, Clone, Default)]
pub struct Configuration {
    /// Folders (such as workspace folders) where environments may be found.
    pub workspace_directories: Option<Vec<String>>,
    pub executables: Option<Vec<String>>,
    pub conda_executable: Option<String>,
    pub poetry_executable: Option<String>,
    /// Folders where environments are expected.
    pub environment_directories: Option<Vec<String>>,
    /// Folder for cached environment details.
    pub cache_directory: Option<String>,
}

/// A locator of one kind of Python environment.
pub trait Locator {
    /// Which locator this is.
    fn get_kind(&self) -> LocatorKind;
    /// Takes in the parts of the configuration this locator uses.
    fn configure(&mut self, config: &Configuration);
    /// The kinds of environment this locator reports.
    fn supported_categories(&self) -> Vec<PythonEnvironmentKind>;
}

/// Receives the managers, environments and timings that searches find. The
/// application implements it (sending each report to the client); nothing is
/// assumed of what it does.
pub trait Reporter {
    fn report_manager(&self, manager: &EnvManager);
    fn report_environment(&self, env: &PythonEnvironment);
    fn report_telemetry(&self, event: &TelemetryEvent);
}

/// A cache of environments keyed by executable.
pub trait Cache {
    fn get(&self, executable: &str) -> Option<PythonEnvironment>;
    fn set(&mut self, environment: PythonEnvironment);
}

/// A Python executable to identify, with what is already known of it.
#[derive(Debug, Clone, PartialEq, Eq)]
pub struct PythonEnv {
    pub executable: String,
    pub prefix: Option<String>,
    pub version: Option<String>,
    /// Paths known to lead to the same executable.
    pub symlinks: Option<Vec<String>>,
}

impl PythonEnv {
    pub fn new(executable: String, prefix: Option<String>, version: Option<String>) -> (r: Self)
        ensures
            r.executable == executable,
            r.prefix == prefix,
            r.version == version,
            r.symlinks is None,
    {
        PythonEnv { executable, prefix, version, symlinks: None }
    }
}

/// Timing events reported while searching (durations in milliseconds).
#[derive(Debug, Clone, Copy, PartialEq, Eq, Structural)]
pub enum TelemetryEvent {
    /// Time taken to search for global environments.
    GlobalEnvironmentsSearchCompleted(u64),
    /// Time taken to search for global virtual environments.
    GlobalVirtualEnvironmentsSearchCompleted(u64),
    /// Time taken to search the `PATH` variable.
    GlobalPathVariableEnvironmentsSearchCompleted(u64),
    /// Time taken to search the paths given by the user, and how many there were.
    AllSearchPathsEnvironmentsSearchCompleted(u64, u32),
    /// Time taken by the whole search.
    SearchCompleted(u64),
}

} // verus!
