use pet::conda::utils::conda_meta_path;
use pet::output::{ErrorSnapshot, Limits, OutputState};
use pet::pixi::pixi_marker_path;
use pet::python_environment::{PythonEnvironmentBuilder, PythonEnvironmentKind};
use pet::walk::{place_listing, Placement};
use std::io;

fn names(items: &[&str]) -> Vec<String> {
    items.iter().map(|s| s.to_string()).collect()
}

#[test]
fn listing_keeps_matching_entries_as_found_on_the_last_component() {
    let entries = names(&["a.py", "b.txt", "c.py"]);
    let places = place_listing(&entries, "*.py", true, false, &vec![false; 3], &vec![false; 3]);
    assert_eq!(places, vec![Placement::Found, Placement::Dropped, Placement::Found]);
}

#[test]
fn listing_descends_into_matching_folders_before_the_last_component() {
    let entries = names(&["env1", "notes", "env2"]);
    let places = place_listing(
        &entries,
        "env*",
        false,
        false,
        &vec![false; 3],
        &vec![true, true, false],
    );
    assert_eq!(places, vec![Placement::Pending, Placement::Dropped, Placement::Dropped]);
}

#[test]
fn listing_requiring_a_folder_drops_files_and_walks_on_from_folders() {
    let entries = names(&["lib", "lib.txt"]);
    let places = place_listing(
        &entries,
        "lib*",
        true,
        true,
        &vec![true, false],
        &vec![false, false],
    );
    assert_eq!(places, vec![Placement::Found, Placement::Dropped]);
}

#[test]
fn marker_paths_of_pixi_and_conda_environments() {
    assert_eq!(pixi_marker_path("/work/.pixi/envs/default"), "/work/.pixi/envs/default/conda-meta/pixi");
    assert_eq!(conda_meta_path("/opt/conda/envs/py39"), "/opt/conda/envs/py39/conda-meta");
}

#[test]
fn builder_keeps_its_executable_among_the_symlinks() {
    let env = PythonEnvironmentBuilder::new(PythonEnvironmentKind::Conda)
        .executable(Some("/opt/conda/bin/python".to_string()))
        .symlinks(None)
        .build();
    assert_eq!(env.symlinks, Some(vec!["/opt/conda/bin/python".to_string()]));

    let env = PythonEnvironmentBuilder::new(PythonEnvironmentKind::Conda)
        .symlinks(Some(vec!["/usr/bin/python3".to_string()]))
        .executable(Some("/opt/conda/bin/python".to_string()))
        .build();
    assert_eq!(
        env.symlinks,
        Some(vec!["/opt/conda/bin/python".to_string(), "/usr/bin/python3".to_string()])
    );
}

#[test]
fn later_failures_do_not_replace_the_first_output_error() {
    let mut state = OutputState::open(Limits::default());
    state.fail(ErrorSnapshot::new(io::Error::new(io::ErrorKind::BrokenPipe, "first")));
    state.fail(ErrorSnapshot::new(io::Error::new(io::ErrorKind::WouldBlock, "second")));
    state.close();
    let error = state.error().expect("the first error was lost");
    assert_eq!(error.kind(), io::ErrorKind::BrokenPipe);
    assert_eq!(error.to_string(), "first");
    assert!(!state.is_accepting());
}

use pet::conda::locator::Conda;
use pet::env_var_path::get_search_paths_from_env_variables;
use pet::framing::{read_line_step, FrameError, LineStep};
use pet::os_environment::{Environment, FileSystem, Platform};
use pet::output::{buffer_error_snapshot, BufferError};
use std::collections::BTreeMap;

#[test]
fn header_lines_step_through_a_frame() {
    assert_eq!(read_line_step(0, None, b""), LineStep::CleanEof);
    assert_eq!(read_line_step(0, None, b"Content-Length: 2\r\n"), LineStep::More(19, Some(2)));
    assert_eq!(read_line_step(19, Some(2), b"\r\n"), LineStep::Payload(2));
    assert_eq!(read_line_step(5, None, b"abc"), LineStep::Failed(FrameError::EofInHeaders));
    assert_eq!(read_line_step(0, None, b"\n"), LineStep::Failed(FrameError::MissingContentLength));
    assert_eq!(
        read_line_step(8190, None, b"abc\n"),
        LineStep::Failed(FrameError::HeadersTooLong)
    );
}

#[test]
fn buffer_refusals_are_reported_with_their_kinds() {
    let e = buffer_error_snapshot(&BufferError::LengthOverflow);
    assert_eq!(e.kind, io::ErrorKind::InvalidData);
    assert_eq!(e.message, "JSON payload too large");
    let e = buffer_error_snapshot(&BufferError::AllocationFailed { message: "no room".to_string() });
    assert_eq!(e.kind, io::ErrorKind::OutOfMemory);
    assert_eq!(e.message, "failed to allocate JSONRPC payload: no room");
    let e = buffer_error_snapshot(&BufferError::CapacityExceeded);
    assert_eq!(e.kind, io::ErrorKind::OutOfMemory);
}

#[test]
fn conda_lists_environments_that_were_not_found() {
    let env = Environment { home: None, root: None, vars: vec![], global_search_locations: vec![] };
    let mut conda = Conda::from(&env);
    let found = PythonEnvironmentBuilder::new(PythonEnvironmentKind::Conda)
        .prefix(Some("/opt/conda/envs/a".to_string()))
        .build();
    conda.environments.insert("/opt/conda/envs/a".to_string(), found);
    let listed = names(&["/opt/conda/envs/a", "/opt/conda/envs/b", "/opt/conda/envs/c"]);
    assert_eq!(conda.missing_envs(&listed), names(&["/opt/conda/envs/b", "/opt/conda/envs/c"]));
}

/// Folders that resolve through symbolic links, and nothing else.
struct Links(BTreeMap<String, String>);

impl FileSystem for Links {
    fn path_exists(&self, _path: &str) -> bool {
        false
    }
    fn is_file(&self, _path: &str) -> bool {
        false
    }
    fn is_dir(&self, _path: &str) -> bool {
        false
    }
    fn read_to_string(&self, _path: &str) -> Option<String> {
        None
    }
    fn read_dir(&self, _path: &str) -> Vec<String> {
        Vec::new()
    }
    fn canonicalize(&self, path: &str) -> Option<String> {
        self.0.get(path).cloned()
    }
    fn is_symlink(&self, path: &str) -> bool {
        self.0.contains_key(path)
    }
}

#[test]
fn search_paths_are_resolved_and_kept_once_off_windows() {
    let mut links = BTreeMap::new();
    links.insert("/bin".to_string(), "/usr/bin".to_string());
    let env = Environment {
        home: Some("/home/u".to_string()),
        root: None,
        vars: vec![],
        global_search_locations: names(&["/usr/bin", "/bin", "/usr/local/bin"]),
    };
    let paths = get_search_paths_from_env_variables(&Links(links), &env, Platform::Linux);
    assert_eq!(paths, names(&["/usr/bin", "/usr/local/bin"]));
    let none = Environment { home: None, ..env };
    assert!(get_search_paths_from_env_variables(&Links(BTreeMap::new()), &none, Platform::Linux).is_empty());
}
