//! Conda environments: how to activate them and which installation made them.
use vstd::prelude::*;
use crate::conda::utils::is_conda_install;
use crate::manager::EnvManager;
use crate::conda::manager::CondaManager;
use crate::conda::package::{CondaPackageInfo, Package};
use crate::conda::utils::is_conda_env;
use crate::os_environment::{FileSystem, Platform, PythonProbe};
use crate::python_environment::{PythonEnvironment, PythonEnvironmentBuilder, PythonEnvironmentKind};
use crate::paths::{
    path_starts_with, path_starts_with_exec,
    file_name, file_name_of, join_path, last_component_is, ends_with_component, parent_of,
    parent_path, resolve_symlink,
};
use crate::python_environment::Architecture;
use crate::text::{
    opt_view, replace_seq, replace_text,
    chars_eq, chars_to_string, contains_sub, contains_text, ends_with, ends_with_chars, find_sub,
    find_sub_from, lines_exec, lower_chars, lower_seq, starts_with_chars, str_to_chars,
    sub_chars, trim_chars, trim_ws,
};

verus! {

/// A conda environment: its prefix, Python executable and version, the conda
/// installation it belongs to, and its architecture.
#[derive(Debug, Clone, PartialEq, Eq)]
pub struct CondaEnvironment {
    pub prefix: String,
    pub executable: Option<String>,
    pub version: Option<String>,
    pub conda_dir: Option<String>,
    pub arch: Option<Architecture>,
}

/// The command that runs Python in the environment: by name when one is given,
/// otherwise by prefix.
pub fn get_activation_command(env: &CondaEnvironment, manager: &EnvManager, name: Option<String>) -> (r:
    Option<Vec<String>>)
    ensures
        r matches Some(cmd) && cmd@.len() == 5 && cmd@[0]@ == manager.executable@ && cmd@[1]@
            == "run"@ && cmd@[4]@ == "python"@ && match name {
            Some(n) => cmd@[2]@ == "-n"@ && cmd@[3]@ == n@,
            None => cmd@[2]@ == "-p"@ && cmd@[3]@ == env.prefix@,
        },
{
    let conda_exe = manager.executable.clone();
    let mut cmd: Vec<String> = Vec::new();
    cmd.push(conda_exe);
    cmd.push("run".to_owned());
    match name {
        Some(n) => {
            cmd.push("-n".to_owned());
            cmd.push(n);
        },
        None => {
            cmd.push("-p".to_owned());
            cmd.push(env.prefix.clone());
        },
    }
    cmd.push("python".to_owned());
    Some(cmd)
}

/// The conda executable named in a `# cmd:` history line: the trimmed text between
/// `# cmd:` and ` create -` (both found ignoring ASCII case).
pub open spec fn cmd_conda_exe(cmd: Seq<char>) -> Option<Seq<char>> {
    let lower = lower_seq(cmd);
    match (find_sub_from(lower, "# cmd:"@, 0), find_sub_from(lower, " create -"@, 0)) {
        (Some(s), Some(e)) => if s + 6 <= e {
            Some(trim_ws(cmd.subrange(s + 6, e)))
        } else {
            None
        },
        _ => None,
    }
}

/// `p` with trailing components removed while it contains `lib` without ending
/// in it.
pub open spec fn trim_to_lib(p: Seq<char>) -> Seq<char>
    decreases p.len(),
{
    if contains_sub(p, "lib"@) && !ends_with(p, "lib"@) {
        match parent_of(p) {
            Some(q) => if q.len() < p.len() {
                trim_to_lib(q)
            } else {
                p
            },
            None => p,
        }
    } else {
        p
    }
}

/// For a folder inside `lib/.../site-packages`, the folder above `lib`;
/// otherwise the folder itself.
pub open spec fn above_site_packages(p: Seq<char>) -> Seq<char> {
    if contains_sub(p, "site-packages"@) && contains_sub(p, "lib"@) {
        let t = trim_to_lib(p);
        if last_component_is(t, "lib"@) && parent_of(t) is Some {
            parent_of(t)->0
        } else {
            t
        }
    } else {
        p
    }
}

/// The conda installation folder of a conda executable (or of conda's
/// `__main__.py`): above its `bin` or `Scripts` folder, or above
/// `lib/.../site-packages`.
pub open spec fn conda_dir_of_exe(exe: Seq<char>) -> Option<Seq<char>> {
    match parent_of(exe) {
        None => None,
        Some(par) => match file_name_of(par) {
            None => None,
            Some(f) => {
                let lf = lower_seq(f);
                if (lf == "bin"@ || lf == "scripts"@) && parent_of(par) is Some {
                    parent_of(par)
                } else {
                    Some(above_site_packages(par))
                }
            },
        },
    }
}

/// The conda executable a `# cmd:` line names.
pub fn conda_exe_from_cmd(cmd_line: &str) -> (r: Option<String>)
    ensures
        crate::text::opt_view(r) == cmd_conda_exe(cmd_line@),
{
    let cmd = str_to_chars(cmd_line);
    let lower = lower_chars(&cmd);
    let start = match find_sub(&lower, &str_to_chars("# cmd:")) {
        Some(s) => s,
        None => {
            return None;
        },
    };
    let end = match find_sub(&lower, &str_to_chars(" create -")) {
        Some(e) => e,
        None => {
            return None;
        },
    };
    proof {
        reveal_strlit("# cmd:");
        crate::text::lemma_find_sub_props(lower@, " create -"@, 0);
    }
    if start > end || end - start < 6 {
        return None;
    }
    assert(end <= lower@.len());
    let inner = sub_chars(&cmd, start + 6, end);
    let trimmed = trim_chars(&inner);
    Some(chars_to_string(trimmed.as_slice()))
}

fn trim_to_lib_exec(p: &str) -> (r: String)
    ensures
        r@ == trim_to_lib(p@),
{
    let mut cur = p.to_owned();
    loop
        invariant
            trim_to_lib(cur@) == trim_to_lib(p@),
        decreases cur@.len(),
    {
        if contains_text(cur.as_str(), "lib") && !ends_with_chars(
            &str_to_chars(cur.as_str()),
            &str_to_chars("lib"),
        ) {
            match parent_path(cur.as_str()) {
                Some(q) => {
                    let ql = str_to_chars(q.as_str()).len();
                    let cl = str_to_chars(cur.as_str()).len();
                    if ql < cl {
                        cur = q;
                    } else {
                        return cur;
                    }
                },
                None => {
                    return cur;
                },
            }
        } else {
            return cur;
        }
    }
}

/// Exec counterpart of [`above_site_packages`].
pub fn folder_above_site_packages(p: &str) -> (r: String)
    ensures
        r@ == above_site_packages(p@),
{
    if contains_text(p, "site-packages") && contains_text(p, "lib") {
        let t = trim_to_lib_exec(p);
        if ends_with_component(t.as_str(), "lib") {
            match parent_path(t.as_str()) {
                Some(q) => q,
                None => t,
            }
        } else {
            t
        }
    } else {
        p.to_owned()
    }
}

/// Exec counterpart of [`conda_dir_of_exe`].
pub fn conda_dir_from_exe(exe: &str) -> (r: Option<String>)
    ensures
        crate::text::opt_view(r) == conda_dir_of_exe(exe@),
{
    let par = match parent_path(exe) {
        Some(p) => p,
        None => {
            return None;
        },
    };
    let f = match file_name(par.as_str()) {
        Some(f) => f,
        None => {
            return None;
        },
    };
    let lf = lower_chars(&str_to_chars(f.as_str()));
    let is_bin = chars_eq(&lf, &str_to_chars("bin")) || chars_eq(&lf, &str_to_chars("scripts"));
    if is_bin {
        match parent_path(par.as_str()) {
            Some(gp) => {
                return Some(gp);
            },
            None => {},
        }
    }
    Some(folder_above_site_packages(par.as_str()))
}

/// The conda installation that a `# cmd:` history line names, the executable's
/// symlink resolved first.
pub fn get_conda_dir_from_cmd<F: FileSystem>(fs: &F, cmd_line: &str) -> (r: Option<String>)
    ensures
        r is Some ==> cmd_conda_exe(cmd_line@) is Some,
        cmd_conda_exe(cmd_line@) matches Some(exe) ==> opt_view(r) == conda_dir_of_exe(exe) || (
        crate::paths::file_name_of(exe) matches Some(n) && crate::paths::resolvable_name(n) && exists|
            target: Seq<char>,
        | target != exe && opt_view(r) == conda_dir_of_exe(target)),
{
    let exe = match conda_exe_from_cmd(cmd_line) {
        Some(e) => e,
        None => {
            return None;
        },
    };
    let resolved = match resolve_symlink(fs, exe.as_str()) {
        Some(t) => t,
        None => exe,
    };
    conda_dir_from_exe(resolved.as_str())
}

/// A Windows path with its `\\` separators written as `/`.
pub open spec fn forward_slashes(p: Seq<char>) -> Seq<char> {
    replace_seq(p, seq!['\\'], seq!['/'])
}

/// A path with its `/` separators written as `\\`.
pub open spec fn back_slashes(p: Seq<char>) -> Seq<char> {
    replace_seq(p, seq!['/'], seq!['\\'])
}

/// The conda installation that a `# cmd:` history line names, with the path
/// conventions of `platform`: on Windows `\\` separates components, the
/// executable is taken as the line writes it, and the installation is written
/// with `\\`; elsewhere see [`get_conda_dir_from_cmd`].
pub fn get_conda_dir_from_cmd_on<F: FileSystem>(fs: &F, cmd_line: &str, platform: Platform) -> (r:
    Option<String>)
    ensures
        r is Some ==> cmd_conda_exe(cmd_line@) is Some,
        platform == Platform::Windows ==> match cmd_conda_exe(cmd_line@) {
            Some(exe) => match conda_dir_of_exe(forward_slashes(exe)) {
                Some(d) => opt_view(r) == Some(back_slashes(d)),
                None => r is None,
            },
            None => r is None,
        },
{
    if platform != Platform::Windows {
        return get_conda_dir_from_cmd(fs, cmd_line);
    }
    let exe = match conda_exe_from_cmd(cmd_line) {
        Some(e) => e,
        None => {
            return None;
        },
    };
    proof {
        reveal_strlit("\\");
        reveal_strlit("/");
    }
    let slashed = replace_text(exe.as_str(), "\\", "/");
    assert("\\"@ == seq!['\\']);
    assert("/"@ == seq!['/']);
    match conda_dir_from_exe(slashed.as_str()) {
        Some(d) => Some(replace_text(d.as_str(), "/", "\\")),
        None => None,
    }
}

/// The parent of the parent of `p`.
pub open spec fn grandparent_of(p: Seq<char>) -> Option<Seq<char>> {
    match parent_of(p) {
        Some(q) => parent_of(q),
        None => None,
    }
}

/// Whether a (trimmed) history line records a `create` command.
pub open spec fn is_create_line(line: Seq<char>) -> bool {
    crate::text::starts_with(lower_seq(line), "# cmd:"@) && contains_sub(lower_seq(line), " create -"@)
}

/// The conda installation that created the environment at `env_path`: the
/// environment itself when it is an installation, the folder above its `envs`
/// folder, or the installation named in its history.
pub fn get_conda_installation_used_to_create_conda_env<F: FileSystem>(fs: &F, env_path: &str) -> (r:
    Option<String>)
    ensures
        r matches Some(d) ==> d@ == env_path@ || grandparent_of(env_path@) == Some(d@) || exists|
            t: Seq<char>,
        | conda_dir_of_exe(t) == Some(d@),
{
    if is_conda_install(fs, env_path) {
        return Some(env_path.to_owned());
    }
    match parent_path(env_path) {
        Some(p) => match parent_path(p.as_str()) {
            Some(gp) => {
                if is_conda_install(fs, gp.as_str()) {
                    return Some(gp);
                }
            },
            None => {},
        },
        None => {},
    }
    let history = join_path(join_path(env_path, "conda-meta").as_str(), "history");
    match fs.read_to_string(history.as_str()) {
        Some(contents) => {
            let lines = lines_exec(&str_to_chars(contents.as_str()));
            let mut i: usize = 0;
            while i < lines.len()
                invariant
                    0 <= i <= lines@.len(),
                decreases lines.len() - i,
            {
                let line = trim_chars(&lines[i]);
                let lower = lower_chars(&line);
                if starts_with_chars(&lower, &str_to_chars("# cmd:")) && find_sub(
                    &lower,
                    &str_to_chars(" create -"),
                ).is_some() {
                    let text = chars_to_string(line.as_slice());
                    match get_conda_dir_from_cmd(fs, text.as_str()) {
                        Some(dir) => {
                            if is_conda_install(fs, dir.as_str()) {
                                return Some(dir);
                            }
                        },
                        None => {},
                    }
                    return None;
                }
                i = i + 1;
            }
        },
        None => {},
    }
    None
}

/// The environment at `env_path` assembled from what was found: the conda
/// installation (kept only when it exists), the Python executable, and the
/// Python package record. Without an executable nothing of Python is known;
/// with one, the version and architecture come from the package record.
pub fn conda_environment_from_parts(
    env_path: &str,
    conda_dir: Option<String>,
    conda_dir_exists: bool,
    python_binary: Option<String>,
    python_package: Option<CondaPackageInfo>,
) -> (r: CondaEnvironment)
    ensures
        r.prefix@ == env_path@,
        r.conda_dir == (if conda_dir_exists {
            conda_dir
        } else {
            None
        }),
        r.executable == python_binary,
        python_binary is None ==> r.version is None && r.arch is None,
        python_binary is Some ==> match python_package {
            Some(pkg) => r.version == Some(pkg.version) && r.arch == pkg.arch,
            None => r.version is None && r.arch is None,
        },
{
    let dir = if conda_dir_exists {
        conda_dir
    } else {
        None
    };
    match python_binary {
        Some(exe) => match python_package {
            Some(pkg) => CondaEnvironment {
                prefix: env_path.to_owned(),
                executable: Some(exe),
                version: Some(pkg.version),
                conda_dir: dir,
                arch: pkg.arch,
            },
            None => CondaEnvironment {
                prefix: env_path.to_owned(),
                executable: Some(exe),
                version: None,
                conda_dir: dir,
                arch: None,
            },
        },
        None => CondaEnvironment {
            prefix: env_path.to_owned(),
            executable: None,
            version: None,
            conda_dir: dir,
            arch: None,
        },
    }
}

/// What is known of the conda environment at `env_path`, when it is one: its
/// installation comes from `manager` when given, else from the environment's
/// own files; the Python executable and its package record are looked up.
pub fn get_conda_environment_info<F: FileSystem, X: PythonProbe>(
    fs: &F,
    probe: &X,
    env_path: &str,
    manager: &Option<CondaManager>,
) -> (r: Option<CondaEnvironment>)
    ensures
        r matches Some(e) ==> e.prefix@ == env_path@ && (e.executable is None ==> e.version is None
            && e.arch is None) && (manager matches Some(m) ==> (e.conda_dir is None
            || e.conda_dir == m.conda_dir)),
{
    if !is_conda_env(fs, env_path) {
        return None;
    }
    let install = match manager {
        Some(m) => m.conda_dir.clone(),
        None => get_conda_installation_used_to_create_conda_env(fs, env_path),
    };
    let exists = match &install {
        Some(d) => fs.path_exists(d.as_str()),
        None => true,
    };
    let python_binary = probe.find_executable(env_path);
    let package = match &python_binary {
        Some(_) => CondaPackageInfo::from(fs, env_path, &Package::Python),
        None => None,
    };
    Some(conda_environment_from_parts(env_path, install, exists, python_binary, package))
}

/// The name an environment is activated by: `base` for an installation, else
/// the folder's name; none when a known installation folder does not contain it.
pub open spec fn conda_env_name(prefix: Seq<char>, is_install: bool, conda_dir: Option<Seq<char>>) -> Option<
    Seq<char>,
> {
    match conda_dir {
        Some(d) => if !path_starts_with(prefix, d) {
            None
        } else if is_install {
            Some("base"@)
        } else {
            file_name_of(prefix)
        },
        None => if is_install {
            Some("base"@)
        } else {
            file_name_of(prefix)
        },
    }
}

/// Exec counterpart of [`conda_env_name`].
pub fn conda_env_name_exec(prefix: &str, is_install: bool, conda_dir: &Option<String>) -> (r: Option<
    String,
>)
    ensures
        opt_view(r) == conda_env_name(prefix@, is_install, opt_view(*conda_dir)),
{
    match conda_dir {
        Some(d) => {
            if !path_starts_with_exec(prefix, d.as_str()) {
                return None;
            }
        },
        None => {},
    }
    if is_install {
        Some("base".to_owned())
    } else {
        file_name(prefix)
    }
}

impl CondaEnvironment {
    /// What is known of the conda environment at `path` (see [`get_conda_environment_info`]).
    pub fn from<F: FileSystem, X: PythonProbe>(
        fs: &F,
        probe: &X,
        path: &str,
        manager: &Option<CondaManager>,
    ) -> (r: Option<Self>)
        ensures
            r matches Some(e) ==> e.prefix@ == path@ && (e.executable is None ==> e.version is None
                && e.arch is None) && (manager matches Some(m) ==> (e.conda_dir is None
                || e.conda_dir == m.conda_dir)),
    {
        get_conda_environment_info(fs, probe, path, manager)
    }

    /// The environment as a conda [`PythonEnvironment`], named as
    /// [`conda_env_name`] says, with the executables found in its prefix.
    pub fn to_python_environment<F: FileSystem, X: PythonProbe>(
        &self,
        fs: &F,
        probe: &X,
        conda_dir: Option<String>,
        conda_manager: Option<EnvManager>,
    ) -> (r: PythonEnvironment)
        ensures
            r.category == PythonEnvironmentKind::Conda,
            r.executable == self.executable,
            r.version == self.version,
            opt_view(r.prefix) == Some(self.prefix@),
            r.arch == self.arch,
            r.manager == conda_manager,
            r.project is None,
            r.display_name is None,
            exists|is_install: bool| opt_view(r.name) == conda_env_name(
                self.prefix@,
                is_install,
                opt_view(conda_dir),
            ),
    {
        let is_install = is_conda_install(fs, self.prefix.as_str());
        let name = conda_env_name_exec(self.prefix.as_str(), is_install, &conda_dir);
        PythonEnvironmentBuilder::new(PythonEnvironmentKind::Conda)
            .executable(self.executable.clone())
            .version(self.version.clone())
            .prefix(Some(self.prefix.clone()))
            .arch(self.arch)
            .symlinks(Some(probe.find_executables(self.prefix.as_str())))
            .name(name)
            .manager(conda_manager)
            .build()
    }
}

} // verus!
