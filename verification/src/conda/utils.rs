//! Recognising conda installations and environments.
use vstd::prelude::*;
use crate::os_environment::{answered_exists, answered_is_dir, FileSystem, Platform};
use crate::paths::{join, join_path};
use crate::text::{chars_to_string, str_to_chars, sub_chars};

verus! {

/// Whether `path` is a conda installation: it has `condabin` or `envs`, and `conda-meta`.
/// The answer to it, given whether `condabin`, `envs` and `conda-meta` exist.
pub fn is_conda_install_from(has_condabin: bool, has_envs: bool, has_conda_meta: bool) -> (r: bool)
    ensures
        r == ((has_condabin || has_envs) && has_conda_meta),
{
    (has_condabin || has_envs) && has_conda_meta
}

/// `fs` answered so that `path` counts as a conda installation (`answer`): it
/// has `condabin` or `envs`, and `conda-meta`, as the file system said.
pub open spec fn install_answer<F: FileSystem>(fs: &F, path: Seq<char>, answer: bool) -> bool {
    exists|has_condabin: bool, has_envs: bool, has_conda_meta: bool|
        answered_exists(fs, join(path, "condabin"@), has_condabin) && answered_exists(
            fs,
            join(path, "envs"@),
            has_envs,
        ) && answered_exists(fs, join(path, "conda-meta"@), has_conda_meta) && answer == ((
        has_condabin || has_envs) && has_conda_meta)
}

/// Whether `path` is a conda installation (see [`is_conda_install_from`]), the
/// file system asked about `condabin`, `envs` and `conda-meta` under it.
pub fn is_conda_install<F: FileSystem>(fs: &F, path: &str) -> (r: bool)
    ensures
        exists|has_condabin: bool, has_envs: bool, has_conda_meta: bool|
            answered_exists(fs, join(path@, "condabin"@), has_condabin) && answered_exists(
                fs,
                join(path@, "envs"@),
                has_envs,
            ) && answered_exists(fs, join(path@, "conda-meta"@), has_conda_meta) && r == ((
            has_condabin || has_envs) && has_conda_meta),
        install_answer(fs, path@, r),
{
    let condabin = join_path(path, "condabin");
    let c: &str = condabin.as_str();
    let has_condabin = fs.path_exists(c);
    assert(answered_exists(fs, join(path@, "condabin"@), has_condabin));
    let envs = join_path(path, "envs");
    let e: &str = envs.as_str();
    let has_envs = fs.path_exists(e);
    assert(answered_exists(fs, join(path@, "envs"@), has_envs));
    let meta = join_path(path, "conda-meta");
    let m: &str = meta.as_str();
    let has_conda_meta = fs.path_exists(m);
    assert(answered_exists(fs, join(path@, "conda-meta"@), has_conda_meta));
    is_conda_install_from(has_condabin, has_envs, has_conda_meta)
}

/// The `conda-meta` folder of the environment at `path`.
pub fn conda_meta_path(path: &str) -> (r: String)
    ensures
        r@ == join(path@, "conda-meta"@),
{
    join_path(path, "conda-meta")
}

/// Whether `path` is a conda environment: the file system's answer to whether
/// [`conda_meta_path`] of it is a directory, handed back as it is.
pub fn is_conda_env<F: FileSystem>(fs: &F, path: &str) -> (r: bool)
    ensures
        answered_is_dir(fs, join(path@, "conda-meta"@), r),
{
    let meta = conda_meta_path(path);
    let m: &str = meta.as_str();
    let r = fs.is_dir(m);
    assert(answered_is_dir(fs, join(path@, "conda-meta"@), r));
    r
}

/// `path` moved under `new_root` (a stand-in for `/` used when testing);
/// unchanged without one.
pub open spec fn rerooted(path: Seq<char>, new_root: Option<Seq<char>>) -> Seq<char> {
    match new_root {
        Some(root) => join(root, path.drop_first()),
        None => path,
    }
}

/// Moves `path` under `new_root` by dropping its leading `/`; on Windows the
/// path stays as it is.
pub fn change_root_of_path(path: &str, new_root: &Option<String>, platform: Platform) -> (r: String)
    requires
        platform != Platform::Windows && new_root is Some ==> path@.len() > 0 && (path@[0] as u32) < 128,
    ensures
        platform == Platform::Windows ==> r@ == path@,
        platform != Platform::Windows ==> r@ == rerooted(path@, crate::text::opt_view(*new_root)),
{
    if platform == Platform::Windows {
        return path.to_owned();
    }
    match new_root {
        Some(root) => {
            let chars = str_to_chars(path);
            let rest = sub_chars(&chars, 1, chars.len());
            assert(rest@ =~= path@.drop_first());
            let rest_text = chars_to_string(rest.as_slice());
            join_path(root.as_str(), rest_text.as_str())
        },
        None => path.to_owned(),
    }
}

} // verus!
