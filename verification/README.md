# pet

Discovery of Python environments (conda, pyenv, Poetry, Pipenv, Pixi, Hatch,
Homebrew, the python.org and Xcode builds on macOS, global Pythons on Linux)
and the JSON-RPC transport a client talks to it over, written in Verus.

## Layout

- `src/` is the verified library: Verus proves every function in it against
  its contract. The file system, the Python executables and the process
  environment reach it through the traits `FileSystem`, `WalkFileSystem`,
  `GlobSearch` and `PythonProbe` and the `Environment` snapshot; nothing is
  assumed of their answers. The decisions taken on those answers are
  functions of their own with exact contracts (for example `read_line_step`,
  `place_listing`, `choose_poetry`, `select_linked`); the functions that ask
  state what holds of their results whatever the answers are. A few, such as
  `is_conda_env`, hand one answer back as it is. Calls into regex, toml,
  yaml-rust2, serde_json, sha2, base64 and glob's pattern matching go
  through small trusted wrappers whose contracts name what those crates
  compute.
  - `text`, `paths`, `braces`, `glob`, `walk`: strings, paths, brace and glob
    expansion (bounded, with its limits proved).
  - `framing`, `output`, `server`: reading and writing `Content-Length` frames,
    the output queue and its first-error rule, and how a message is routed.
  - `cache`, `python_environment`, `manager`, `locator`, `os_environment`: the
    environment model, the cache and what locators share.
  - one module (or folder) per kind of environment.
  - `laws`: properties that relate several functions.
- `app/` holds what Verus does not see: the real file system and process
  environment, standard input and output with their threads, running conda
  and Poetry, and the serde forms of the library's types.
- `tests/` exercises the library on in-memory file systems.
