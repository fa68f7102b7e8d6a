//! Global Python installations on Linux, in `/bin`, `/usr/bin` and `/usr/local/bin`.
use vstd::prelude::*;
use crate::cache::{lemma_insert_all_keeps_keys, LocatorCache};
use crate::locator::{Configuration, Locator, LocatorKind, PythonEnv, Reporter};
use crate::os_environment::{FileSystem, Platform, PythonProbe};
use crate::paths::{
    contains_path, path_eq, path_starts_with, path_starts_with_exec, same_path, sort_dedup_paths,
};
use crate::paths::{holds_path, parent_of, parent_path, resolve_symlink, string_views};
use crate::python_environment::{
    symlink_inputs, Architecture, PythonEnvironment, PythonEnvironmentBuilder, PythonEnvironmentKind,
};
use crate::text::{chars_to_string, str_to_chars};

verus! {

/// The Linux global Python locator, with the environments it reported, by executable.
pub struct LinuxGlobalPython {
    pub reported_executables: LocatorCache<String, PythonEnvironment>,
}

impl LinuxGlobalPython {
    /// The cache is well formed.
    pub open spec fn wf(&self) -> bool {
        self.reported_executables.wf()
    }

    pub fn new() -> (r: LinuxGlobalPython)
        ensures
            r.wf(),
            r.reported_executables.view() == Map::<Seq<char>, PythonEnvironment>::empty(),
    {
        LinuxGlobalPython { reported_executables: LocatorCache::new() }
    }
}

impl Default for LinuxGlobalPython {
    fn default() -> (r: Self)
        ensures
            r.wf(),
            r.reported_executables.view() == Map::<Seq<char>, PythonEnvironment>::empty(),
    {
        LinuxGlobalPython::new()
    }
}

impl Locator for LinuxGlobalPython {
    fn get_kind(&self) -> (r: LocatorKind)
        ensures
            r == LocatorKind::LinuxGlobal,
    {
        LocatorKind::LinuxGlobal
    }

    fn configure(&mut self, config: &Configuration) {
    }

    fn supported_categories(&self) -> (r: Vec<PythonEnvironmentKind>)
        ensures
            r@ == seq![PythonEnvironmentKind::LinuxGlobal],
    {
        let mut v: Vec<PythonEnvironmentKind> = Vec::new();
        v.push(PythonEnvironmentKind::LinuxGlobal);
        v
    }
}

/// Whether `p` lies in one of the folders global Pythons are looked for in.
pub open spec fn in_global_bin(p: Seq<char>) -> bool {
    path_starts_with(p, "/bin"@) || path_starts_with(p, "/usr/bin"@) || path_starts_with(
        p,
        "/usr/local/bin"@,
    )
}

/// Exec counterpart of [`in_global_bin`].
pub fn is_in_global_bin(p: &str) -> (r: bool)
    ensures
        r == in_global_bin(p@),
{
    path_starts_with_exec(p, "/bin") || path_starts_with_exec(p, "/usr/bin") || path_starts_with_exec(
        p,
        "/usr/local/bin",
    )
}

/// `try_from_reported` finds an entry in the reported executables `m` for `env`.
pub open spec fn reported_found(
    m: Map<Seq<char>, PythonEnvironment>,
    env: PythonEnv,
    is_virtualenv: bool,
    platform: Platform,
    canonical: Option<String>,
) -> bool {
    &&& platform == Platform::Linux && !is_virtualenv && env.version is Some
    &&& in_global_bin(env.executable@) || (canonical matches Some(c) && in_global_bin(c@))
    &&& m.contains_key(env.executable@) || (canonical matches Some(c) && !same_path(c@, env.executable@)
        && m.contains_key(c@))
}

impl LinuxGlobalPython {
    /// The reported environment for an executable, as `try_from` finds it: only
    /// on Linux, never for a virtual environment or an environment without a
    /// version, only for an executable in (or resolving into) a global `bin`
    /// folder; the executable's own entry first, else the entry of the path it
    /// resolves to (`canonical`), which then gets the executable among its
    /// symlinks and is cached under both paths.
    pub fn try_from_reported(
        &mut self,
        env: &PythonEnv,
        is_virtualenv: bool,
        platform: Platform,
        canonical: Option<String>,
    ) -> (r: Option<PythonEnvironment>)
        requires
            old(self).wf(),
        ensures
            final(self).wf(),
            platform != Platform::Linux || is_virtualenv || env.version is None ==> r is None && final(self).reported_executables.view() == old(self).reported_executables.view(),
            !in_global_bin(env.executable@) && !(canonical matches Some(c) && in_global_bin(c@)) ==> r
                is None,
            r is Some ==> old(self).reported_executables.view().contains_key(env.executable@) || (
            canonical matches Some(c) && old(self).reported_executables.view().contains_key(c@)),
            old(self).reported_executables.view().contains_key(env.executable@) && r is Some ==> final(self).reported_executables.view() == old(self).reported_executables.view(),
            forall|k: Seq<char>| #[trigger] old(self).reported_executables.view().contains_key(k)
                ==> final(self).reported_executables.view().contains_key(k),
            r is Some <==> reported_found(
                old(self).reported_executables.view(),
                *env,
                is_virtualenv,
                platform,
                canonical,
            ),
    {
        if platform != Platform::Linux || is_virtualenv {
            return None;
        }
        if env.version.is_none() {
            return None;
        }
        let executable = &env.executable;
        let allowed = is_in_global_bin(executable.as_str()) || match &canonical {
            Some(c) => is_in_global_bin(c.as_str()),
            None => false,
        };
        if !allowed {
            return None;
        }
        match self.reported_executables.get(executable) {
            Some(found) => {
                return Some(found);
            },
            None => {},
        }
        let c = match canonical {
            Some(c) => c,
            None => {
                return None;
            },
        };
        if path_eq(c.as_str(), executable.as_str()) {
            return None;
        }
        let mut found = match self.reported_executables.get(&c) {
            Some(e) => e,
            None => {
                return None;
            },
        };
        let mut symlinks = match &found.symlinks {
            Some(s) => crate::python_environment::copy_strings(s),
            None => Vec::new(),
        };
        if !contains_path(&symlinks, executable.as_str()) {
            symlinks.push(executable.clone());
            symlinks = sort_dedup_paths(symlinks);
            found.symlinks = Some(symlinks);
        }
        self.reported_executables.insert(c, found.clone());
        self.reported_executables.insert(executable.clone(), found.clone());
        Some(found)
    }
}

/// `a` and `b` are the same path.
fn same(a: &Option<String>, b: &str) -> (r: bool)
    ensures
        r == (a matches Some(x) && same_path(x@, b@)),
{
    match a {
        Some(x) => path_eq(x.as_str(), b),
        None => false,
    }
}

/// The global Python that `env` (a Python as it reports itself) is, when its
/// version and prefix are known: its symlinks are the executables in its folder
/// that resolve to one of them, and those that resolve to the same file
/// elsewhere as it does; the architecture is as given.
pub fn get_python_in_bin<F: FileSystem, X: PythonProbe>(
    fs: &F,
    probe: &X,
    env: &PythonEnv,
    is_64bit: bool,
) -> (r: Option<PythonEnvironment>)
    ensures
        r is Some <==> env.version is Some && env.prefix is Some && parent_of(env.executable@) is Some,
        r matches Some(e) ==> {
            &&& e.category == PythonEnvironmentKind::LinuxGlobal
            &&& e.executable == Some(env.executable)
            &&& e.version == env.version
            &&& e.prefix == env.prefix
            &&& e.arch == Some(if is_64bit { Architecture::X64 } else { Architecture::X86 })
            &&& e.symlinks matches Some(links)
            &&& holds_path(string_views(links@), env.executable@)
        },
{
    if env.version.is_none() || env.prefix.is_none() {
        return None;
    }
    let executable = env.executable.clone();
    let mut symlinks: Vec<String> = match &env.symlinks {
        Some(s) => crate::python_environment::copy_strings(s),
        None => Vec::new(),
    };
    symlinks.push(executable.clone());
    let bin = match parent_path(executable.as_str()) {
        Some(b) => b,
        None => {
            return None;
        },
    };
    let mut from_another_dir: Option<String> = None;
    let first = match resolve_symlink(fs, executable.as_str()) {
        Some(t) => Some(t),
        None => fs.canonicalize(executable.as_str()),
    };
    match first {
        Some(target) => {
            if path_starts_with_exec(target.as_str(), bin.as_str()) {
                symlinks.push(target);
            } else {
                from_another_dir = Some(target);
            }
        },
        None => {},
    }
    match fs.canonicalize(executable.as_str()) {
        Some(target) => {
            if path_starts_with_exec(target.as_str(), bin.as_str()) {
                symlinks.push(target);
            } else {
                from_another_dir = Some(target);
            }
        },
        None => {},
    }
    let candidates = probe.find_executables(bin.as_str());
    let mut i: usize = 0;
    while i < candidates.len()
        decreases candidates.len() - i,
    {
        let possible = &candidates[i];
        let resolved = match resolve_symlink(fs, possible.as_str()) {
            Some(t) => Some(t),
            None => fs.canonicalize(possible.as_str()),
        };
        match resolved {
            Some(target) => {
                if path_starts_with_exec(target.as_str(), bin.as_str()) && contains_path(
                    &symlinks,
                    target.as_str(),
                ) {
                    symlinks.push(possible.clone());
                }
                if same(&from_another_dir, target.as_str()) {
                    symlinks.push(possible.clone());
                }
            },
            None => {},
        }
        i = i + 1;
    }
    let arch = if is_64bit {
        Architecture::X64
    } else {
        Architecture::X86
    };
    let found = PythonEnvironmentBuilder::new(PythonEnvironmentKind::LinuxGlobal)
        .executable(Some(executable))
        .version(env.version.clone())
        .arch(Some(arch))
        .prefix(env.prefix.clone())
        .symlinks(Some(symlinks))
        .build();
    assert(symlink_inputs(found.executable, Some(symlinks))[0] == env.executable@);
    Some(found)
}

impl LinuxGlobalPython {
    /// Remembers and reports (when a reporter is given) the global Pythons in
    /// `bin` not remembered yet: each executable that runs and reports a version
    /// and prefix, remembered under its executable and each of its symlinks.
    pub fn find_and_report_global_pythons_in<F: FileSystem, X: PythonProbe, R: Reporter>(
        &mut self,
        fs: &F,
        probe: &X,
        bin: &str,
        reporter: Option<&R>,
    )
        requires
            old(self).wf(),
        ensures
            final(self).wf(),
            forall|k: Seq<char>| #[trigger] old(self).reported_executables.view().contains_key(k)
                ==> final(self).reported_executables.view().contains_key(k),
    {
        let executables = probe.find_executables(bin);
        let mut i: usize = 0;
        while i < executables.len()
            invariant
                0 <= i <= executables@.len(),
                self.wf(),
                forall|k: Seq<char>| #[trigger] old(self).reported_executables.view().contains_key(k)
                    ==> self.reported_executables.view().contains_key(k),
            decreases executables.len() - i,
        {
            let exe = &executables[i];
            if !self.reported_executables.contains_key(exe) {
                match probe.resolve(exe.as_str()) {
                    Some(resolved) => {
                        let as_env = PythonEnv {
                            executable: resolved.executable,
                            prefix: Some(resolved.prefix),
                            version: Some(resolved.version),
                            symlinks: None,
                        };
                        match get_python_in_bin(fs, probe, &as_env, resolved.is64_bit) {
                            Some(env) => {
                                let mut entries: Vec<(String, PythonEnvironment)> = Vec::new();
                                match &env.symlinks {
                                    Some(links) => {
                                        let mut j: usize = 0;
                                        while j < links.len()
                                            decreases links.len() - j,
                                        {
                                            entries.push((links[j].clone(), env.clone()));
                                            j = j + 1;
                                        }
                                    },
                                    None => {},
                                }
                                match &env.executable {
                                    Some(x) => entries.push((x.clone(), env.clone())),
                                    None => {},
                                }
                                let ghost before = self.reported_executables.view();
                                let ghost entries_view = entries@;
                                self.reported_executables.insert_many(entries);
                                assert forall|k: Seq<char>| #[trigger] before.contains_key(k)
                                    implies self.reported_executables.view().contains_key(k) by {
                                    lemma_insert_all_keeps_keys(before, entries_view, k);
                                }
                                match reporter {
                                    Some(r) => r.report_environment(&env),
                                    None => {},
                                }
                            },
                            None => {},
                        }
                    },
                    None => {},
                }
            }
            i = i + 1;
        }
    }

    /// Searches `/bin`, `/usr/bin` and `/usr/local/bin` (each canonicalized, the
    /// same folder once) on Linux.
    pub fn find_cached<F: FileSystem, X: PythonProbe, R: Reporter>(
        &mut self,
        fs: &F,
        probe: &X,
        platform: Platform,
        reporter: Option<&R>,
    )
        requires
            old(self).wf(),
        ensures
            final(self).wf(),
            platform != Platform::Linux ==> final(self).reported_executables.view()
                == old(self).reported_executables.view(),
            forall|k: Seq<char>| #[trigger] old(self).reported_executables.view().contains_key(k)
                ==> final(self).reported_executables.view().contains_key(k),
    {
        if platform != Platform::Linux {
            return;
        }
        let mut dirs: Vec<String> = Vec::new();
        let bins: Vec<&str> = vec!["/bin", "/usr/bin", "/usr/local/bin"];
        let mut i: usize = 0;
        while i < bins.len()
            decreases bins.len() - i,
        {
            let dir = match fs.canonicalize(bins[i]) {
                Some(c) => c,
                None => bins[i].to_owned(),
            };
            dirs.push(dir);
            i = i + 1;
        }
        let dirs = sort_dedup_paths(dirs);
        let mut k: usize = 0;
        while k < dirs.len()
            invariant
                self.wf(),
                forall|key: Seq<char>| #[trigger] old(self).reported_executables.view().contains_key(key)
                    ==> self.reported_executables.view().contains_key(key),
            decreases dirs.len() - k,
        {
            self.find_and_report_global_pythons_in(fs, probe, dirs[k].as_str(), reporter);
            k = k + 1;
        }
    }

    /// Identifies `env` as a global Python: on Linux, not a virtual environment,
    /// with a known version, after the global folders were searched (see
    /// [`LinuxGlobalPython::try_from_reported`]).
    pub fn try_from<F: FileSystem, X: PythonProbe>(
        &mut self,
        fs: &F,
        probe: &X,
        platform: Platform,
        env: &PythonEnv,
    ) -> (r: Option<PythonEnvironment>)
        requires
            old(self).wf(),
        ensures
            final(self).wf(),
            platform != Platform::Linux || env.version is None ==> r is None
                && final(self).reported_executables.view() == old(self).reported_executables.view(),
            forall|k: Seq<char>| #[trigger] old(self).reported_executables.view().contains_key(k)
                ==> final(self).reported_executables.view().contains_key(k),
    {
        if platform != Platform::Linux || env.version.is_none() {
            return None;
        }
        let venv = probe.is_virtualenv(env);
        if venv {
            return None;
        }
        self.find_cached::<F, X, NoReporter>(fs, probe, platform, None);
        let canonical = fs.canonicalize(env.executable.as_str());
        self.try_from_reported(env, venv, platform, canonical)
    }

    /// Forgets what was reported, then reports every global Python (on Linux).
    pub fn find<F: FileSystem, X: PythonProbe, R: Reporter>(
        &mut self,
        fs: &F,
        probe: &X,
        platform: Platform,
        reporter: &R,
    )
        requires
            old(self).wf(),
        ensures
            final(self).wf(),
            platform != Platform::Linux ==> final(self).reported_executables.view()
                == old(self).reported_executables.view(),
    {
        if platform != Platform::Linux {
            return;
        }
        self.reported_executables.clear();
        self.find_cached(fs, probe, platform, Some(reporter));
    }
}

/// A reporter that is never called: searches that only fill the cache.
pub struct NoReporter;

impl Reporter for NoReporter {
    fn report_manager(&self, manager: &crate::manager::EnvManager) {
    }

    fn report_environment(&self, env: &PythonEnvironment) {
    }

    fn report_telemetry(&self, event: &crate::locator::TelemetryEvent) {
    }
}

} // verus!
