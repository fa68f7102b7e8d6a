use pet::poetry::config::parse_contents;
use pet::poetry::environment_locations::generate_env_name;
use pet::poetry::locator::is_poetry_cache_environment;
use pet::poetry::pyproject_toml::parse_contents as parse_pyproject;

fn test_poetry_path_pattern(path: &str) -> bool {
    is_poetry_cache_environment(path)
}

#[test]
fn test_poetry_path_pattern_macos() {
    assert!(test_poetry_path_pattern(
        "/Users/eleanorboyd/Library/Caches/pypoetry/virtualenvs/nestedpoetry-yJwtIF_Q-py3.11"
    ));
}

#[test]
fn test_poetry_path_pattern_linux() {
    assert!(test_poetry_path_pattern(
        "/home/user/.cache/pypoetry/virtualenvs/myproject-a1B2c3D4-py3.10"
    ));
}

#[test]
fn test_poetry_path_pattern_windows() {
    assert!(test_poetry_path_pattern(
        r"C:\Users\user\AppData\Local\pypoetry\Cache\virtualenvs\myproject-f7sQRtG5-py3.11"
    ));
}

#[test]
fn test_poetry_path_pattern_no_version() {
    assert!(test_poetry_path_pattern(
        "/home/user/.cache/pypoetry/virtualenvs/testproject-XyZ12345-py"
    ));
}

#[test]
fn test_non_poetry_path_rejected() {
    assert!(!test_poetry_path_pattern("/home/user/projects/myenv"));
    assert!(!test_poetry_path_pattern("/home/user/.venv"));
    assert!(!test_poetry_path_pattern("/usr/local/venv"));
}

#[test]
fn test_poetry_path_without_pypoetry_rejected() {
    assert!(!test_poetry_path_pattern(
        "/home/user/virtualenvs/myproject-a1B2c3D4-py3.10"
    ));
}

#[test]
fn test_poetry_path_wrong_hash_length_rejected() {
    assert!(!test_poetry_path_pattern(
        "/home/user/.cache/pypoetry/virtualenvs/myproject-a1B2c3D456-py3.10"
    ));
    assert!(!test_poetry_path_pattern(
        "/home/user/.cache/pypoetry/virtualenvs/myproject-a1B2c3-py3.10"
    ));
}

#[test]
fn test_real_world_poetry_paths() {
    assert!(test_poetry_path_pattern(
        "/Users/eleanorboyd/Library/Caches/pypoetry/virtualenvs/nestedpoetry-yJwtIF_Q-py3.11"
    ));
    assert!(test_poetry_path_pattern(
        "/Users/donjayamanne/.cache/pypoetry/virtualenvs/poetry-demo-gNT2WXAV-py3.9"
    ));
}

#[test]
fn parse_virtualenvs_in_poetry_toml() {
    let cfg = r#"
[virtualenvs]
in-project = false
create = false

"#;
    assert_eq!(
        parse_contents(cfg)
            .unwrap()
            .virtualenvs_in_project
            .unwrap_or_default(),
        false
    );

    let cfg = r#"
[virtualenvs]
in-project = true
create = false

"#;
    assert_eq!(
        parse_contents(cfg)
            .unwrap()
            .virtualenvs_in_project
            .unwrap_or_default(),
        true
    );

    let cfg = r#"
[virtualenvs]
create = false

"#;
    assert_eq!(
        parse_contents(cfg)
            .unwrap()
            .virtualenvs_in_project
            .unwrap_or_default(),
        false
    );

    let cfg = r#"
virtualenvs.in-project = true # comment
"#;
    assert_eq!(
        parse_contents(cfg)
            .unwrap()
            .virtualenvs_in_project
            .unwrap_or_default(),
        true
    );

    let cfg = r#"
"#;
    assert_eq!(
        parse_contents(cfg)
            .unwrap()
            .virtualenvs_in_project
            .unwrap_or_default(),
        false
    );
}

#[test]
fn parse_cache_dir_in_poetry_toml() {
    let cfg = r#"
cache-dir = "/path/to/cache/directory"

"#;
    assert_eq!(
        parse_contents(cfg).unwrap().cache_dir,
        Some("/path/to/cache/directory".to_string())
    );

    let cfg = r#"
some-other-value = 1234

"#;
    assert_eq!(parse_contents(cfg).unwrap().cache_dir, None);
}

#[test]
fn parse_virtualenvs_path_in_poetry_toml() {
    let cfg = r#"
virtualenvs.path = "/path/to/virtualenvs"

"#;
    assert_eq!(
        parse_contents(cfg).unwrap().virtualenvs_path,
        Some("/path/to/virtualenvs".to_string())
    );

    let cfg = r#"
some-other-value = 1234

"#;
    assert_eq!(parse_contents(cfg).unwrap().virtualenvs_path, None);
}

#[test]
fn use_cache_dir_to_build_virtualenvs_path() {
    let cfg = r#"
cache-dir = "/path/to/cache/directory"
"#;
    assert_eq!(
        parse_contents(cfg).unwrap().virtualenvs_path,
        Some("/path/to/cache/directory/virtualenvs".to_string())
    );
}

#[test]
fn test_hash_generation() {
    let hashed_name = generate_env_name(
        "poetry-demo",
        "/Users/donjayamanne/temp/poetry-sample1/poetry-demo",
    );
    assert_eq!(hashed_name, "poetry-demo-gNT2WXAV-py");
}

#[test]
fn extract_name_from_pyproject_toml() {
    let cfg = r#"
[tool.poetry]
name = "poetry-demo"
version = "0.1.0"
description = ""
authors = ["User Name <bogus.user@some.email.com>"]
readme = "README.md"

[tool.poetry.dependencies]
python = "^3.12"


[build-system]
requires = ["poetry-core"]
build-backend = "poetry.core.masonry.api"
"#;
    assert_eq!(parse_pyproject(cfg).unwrap().name, "poetry-demo");
}

#[test]
fn env_name_lowercases_and_sanitizes_project_names() {
    let hashed_name = generate_env_name(
        "Poetry Demo",
        "/Users/donjayamanne/temp/poetry-sample1/poetry-demo",
    );
    assert_eq!(hashed_name, "poetry_demo-gNT2WXAV-py");
}
