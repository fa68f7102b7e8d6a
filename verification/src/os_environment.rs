//! What the locators read of the process environment and of the file system.
use vstd::prelude::*;

verus! {

/// The value of the first `(key, value)` pair of `vars` whose key is `key`.
pub open spec fn var_lookup(vars: Seq<(String, String)>, key: Seq<char>) -> Option<String>
    decreases vars.len(),
{
    if vars.len() == 0 {
        None
    } else if vars[0].0@ == key {
        Some(vars[0].1)
    } else {
        var_lookup(vars.drop_first(), key)
    }
}

/// The operating system family whose conventions apply.
#[derive(Debug, Clone, Copy, PartialEq, Eq, Structural)]
pub enum Platform {
    Linux,
    MacOs,
    Windows,
}

/// A snapshot of the process environment: the user's home, an optional root used
/// in place of `/`, the environment variables and the known global search folders.
#[derive(Debug, Clone)]
pub struct Environment {
    pub home: Option<String>,
    pub root: Option<String>,
    pub vars: Vec<(String, String)>,
    pub global_search_locations: Vec<String>,
}

impl Environment {
    pub fn get_user_home(&self) -> (r: Option<String>)
        ensures
            r == self.home,
    {
        self.home.clone()
    }

    pub fn get_root(&self) -> (r: Option<String>)
        ensures
            r == self.root,
    {
        self.root.clone()
    }

    /// The value of the environment variable `key`.
    pub fn get_env_var(&self, key: &str) -> (r: Option<String>)
        ensures
            r == var_lookup(self.vars@, key@),
    {
        let mut i: usize = 0;
        let k = crate::text::str_to_chars(key);
        assert(self.vars@.subrange(0, self.vars@.len() as int) =~= self.vars@);
        while i < self.vars.len()
            invariant
                0 <= i <= self.vars@.len(),
                k@ == key@,
                var_lookup(self.vars@, key@) == var_lookup(
                    self.vars@.subrange(i as int, self.vars@.len() as int),
                    key@,
                ),
            decreases self.vars.len() - i,
        {
            let ghost rest = self.vars@.subrange(i as int, self.vars@.len() as int);
            assert(rest.drop_first() =~= self.vars@.subrange(i + 1, self.vars@.len() as int));
            assert(rest[0] == self.vars@[i as int]);
            if crate::text::chars_eq(&crate::text::str_to_chars(self.vars[i].0.as_str()), &k) {
                return Some(self.vars[i].1.clone());
            }
            i = i + 1;
        }
        None
    }

    pub fn get_know_global_search_locations(&self) -> (r: Vec<String>)
        ensures
            r@ == self.global_search_locations@,
    {
        crate::python_environment::copy_strings(&self.global_search_locations)
    }
}

/// Read access to the file system. The library decides; an implementation of this
/// trait (in the application) performs the reads. Nothing is assumed of what it
/// answers: every function that takes one is verified for any answers.
pub trait FileSystem {
    /// Whether `path` exists.
    fn path_exists(&self, path: &str) -> bool;
    /// Whether `path` is a regular file (symlinks followed).
    fn is_file(&self, path: &str) -> bool;
    /// Whether `path` is a directory (symlinks followed).
    fn is_dir(&self, path: &str) -> bool;
    /// The text of the file at `path`, if it can be read as UTF-8.
    fn read_to_string(&self, path: &str) -> Option<String>;
    /// The paths of the entries of the directory `path` (empty when it cannot be read).
    fn read_dir(&self, path: &str) -> Vec<String>;
    /// The canonical form of `path`, symlinks resolved, if it exists.
    fn canonicalize(&self, path: &str) -> Option<String>;
    /// Whether `path` itself is a symbolic link (not followed).
    fn is_symlink(&self, path: &str) -> bool;
}

/// `fs` can answer `answer` when asked whether `path` exists: a call of
/// [`FileSystem::path_exists`] on it gave that answer.
pub open spec fn answered_exists<F: FileSystem>(fs: &F, path: Seq<char>, answer: bool) -> bool {
    exists|p: &str| p@ == path && call_ensures(F::path_exists, (fs, p), answer)
}

/// `fs` can answer `answer` when asked whether `path` is a directory.
pub open spec fn answered_is_dir<F: FileSystem>(fs: &F, path: Seq<char>, answer: bool) -> bool {
    exists|p: &str| p@ == path && call_ensures(F::is_dir, (fs, p), answer)
}

/// `fs` can answer `answer` when asked whether `path` is a regular file.
pub open spec fn answered_is_file<F: FileSystem>(fs: &F, path: Seq<char>, answer: bool) -> bool {
    exists|p: &str| p@ == path && call_ensures(F::is_file, (fs, p), answer)
}

/// `fs` can answer `answer` when asked whether `path` itself is a symbolic link.
pub open spec fn answered_is_symlink<F: FileSystem>(fs: &F, path: Seq<char>, answer: bool) -> bool {
    exists|p: &str| p@ == path && call_ensures(F::is_symlink, (fs, p), answer)
}

/// `fs` can give `target` (none when it gives none) as the canonical form of `path`.
pub open spec fn answered_canonical<F: FileSystem>(fs: &F, path: Seq<char>, target: Option<Seq<char>>) -> bool {
    exists|p: &str, t: Option<String>|
        p@ == path && call_ensures(F::canonicalize, (fs, p), t) && crate::text::opt_view(t) == target
}

/// `fs` can give the text `text` (none when it cannot be read) for the file `path`.
pub open spec fn answered_text<F: FileSystem>(fs: &F, path: Seq<char>, text: Option<Seq<char>>) -> bool {
    exists|p: &str, t: Option<String>|
        p@ == path && call_ensures(F::read_to_string, (fs, p), t) && crate::text::opt_view(t) == text
}

/// `fs` can give the entries `entries` for the folder `path`.
pub open spec fn answered_listing<F: FileSystem>(fs: &F, path: Seq<char>, entries: Seq<Seq<char>>) -> bool {
    exists|p: &str, v: Vec<String>|
        p@ == path && call_ensures(F::read_dir, (fs, p), v) && crate::paths::string_views(v@) == entries
}

/// `probe` can give `version` (none when it gives none) from the header files of
/// the installation at `prefix`.
pub open spec fn answered_header<X: PythonProbe>(probe: &X, prefix: Seq<char>, version: Option<Seq<char>>) -> bool {
    exists|p: &str, v: Option<String>|
        p@ == prefix && call_ensures(X::version_from_header_files, (probe, p), v) && crate::text::opt_view(v)
            == version
}

/// Finding Python executables in environment folders, and the versions that
/// the files of an installation record. An implementation (in the application)
/// does the searching and reading; nothing is assumed of what it finds.
pub trait PythonProbe {
    /// The Python executable of the environment folder `prefix`, if any.
    fn find_executable(&self, prefix: &str) -> Option<String>;
    /// The Python executables in the folder `dir` (or its `bin` or `Scripts` folder).
    fn find_executables(&self, dir: &str) -> Vec<String>;
    /// The version of the Python that created the virtual environment at `prefix`.
    fn version_from_creator(&self, prefix: &str) -> Option<String>;
    /// The version that the header files of the installation at `prefix` give.
    fn version_from_header_files(&self, prefix: &str) -> Option<String>;
    /// What running the Python executable `exe` reports of itself: its
    /// `sys.executable`, its version, its `sys.prefix` and whether it is 64-bit.
    fn resolve(&self, exe: &str) -> Option<ResolvedPython>;
    /// Whether `env` is a virtual environment (its prefix or the folder above its
    /// executable's folder holds a `pyvenv.cfg`, or the activation scripts of one).
    fn is_virtualenv(&self, env: &crate::locator::PythonEnv) -> bool;
}

/// What a Python executable reports of itself when run.
#[derive(Debug, Clone, PartialEq, Eq)]
pub struct ResolvedPython {
    pub executable: String,
    pub version: String,
    pub prefix: String,
    /// The interpreter is a 64-bit build.
    pub is64_bit: bool,
}

} // verus!
