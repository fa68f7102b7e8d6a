//! The macOS locators: the Python of Xcode's command line tools, and the
//! python.org installer's framework builds.
use vstd::prelude::*;
use crate::locator::{Configuration, Locator, LocatorKind, PythonEnv, Reporter};
use crate::os_environment::{FileSystem, Platform, PythonProbe};
use crate::paths::{
    contains_path, file_name_of, holds_path, join_path, resolvable_name, parent_of, parent_path, path_eq, path_starts_with, same_path,
    path_starts_with_exec, resolve_symlink, string_views,
};
use crate::python_environment::{
    symlink_inputs, PythonEnvironment, PythonEnvironmentBuilder, PythonEnvironmentKind,
};
use crate::text::{
    opt_view, chars_to_string, contains_sub, contains_text, split_chars, split_on, starts_with,
    starts_with_chars, str_to_chars,
};

verus! {

/// The Xcode command line tools locator.
#[derive(Debug, Clone, PartialEq, Eq)]
pub struct MacXCode {}

impl MacXCode {
    pub fn new() -> (r: MacXCode)
        ensures
            r == (MacXCode {  }),
    {
        MacXCode {  }
    }
}

impl Default for MacXCode {
    fn default() -> (r: Self)
        ensures
            r == (MacXCode {  }),
    {
        MacXCode::new()
    }
}

impl Locator for MacXCode {
    fn get_kind(&self) -> (r: LocatorKind)
        ensures
            r == LocatorKind::MacXCode,
    {
        LocatorKind::MacXCode
    }

    fn configure(&mut self, config: &Configuration)
        ensures
            *final(self) == *old(self),
    {
    }

    fn supported_categories(&self) -> (r: Vec<PythonEnvironmentKind>)
        ensures
            r@ == seq![PythonEnvironmentKind::MacCommandLineTools],
    {
        let mut v: Vec<PythonEnvironmentKind> = Vec::new();
        v.push(PythonEnvironmentKind::MacCommandLineTools);
        v
    }
}

/// Whether an executable can be Xcode's Python: it lies under `/Applications`
/// or in a `Contents/Developer/usr/bin` folder (Xcode's folder is named
/// differently on some machines).
pub open spec fn may_be_xcode_python(exe: Seq<char>) -> bool {
    starts_with(exe, "/Applications"@) || contains_sub(exe, "Contents/Developer/usr/bin"@)
}

/// Exec counterpart of [`may_be_xcode_python`].
pub fn is_xcode_python_path(exe: &str) -> (r: bool)
    ensures
        r == may_be_xcode_python(exe@),
{
    starts_with_chars(&str_to_chars(exe), &str_to_chars("/Applications")) || contains_text(
        exe,
        "Contents/Developer/usr/bin",
    )
}

/// The python.org framework locator.
#[derive(Debug, Clone, PartialEq, Eq)]
pub struct MacPythonOrg {}

impl MacPythonOrg {
    pub fn new() -> (r: MacPythonOrg)
        ensures
            r == (MacPythonOrg {  }),
    {
        MacPythonOrg {  }
    }
}

impl Default for MacPythonOrg {
    fn default() -> (r: Self)
        ensures
            r == (MacPythonOrg {  }),
    {
        MacPythonOrg::new()
    }
}

impl Locator for MacPythonOrg {
    fn get_kind(&self) -> (r: LocatorKind)
        ensures
            r == LocatorKind::MacPythonOrg,
    {
        LocatorKind::MacPythonOrg
    }

    fn configure(&mut self, config: &Configuration)
        ensures
            *final(self) == *old(self),
    {
    }

    fn supported_categories(&self) -> (r: Vec<PythonEnvironmentKind>)
        ensures
            r@ == seq![PythonEnvironmentKind::MacPythonOrg],
    {
        let mut v: Vec<PythonEnvironmentKind> = Vec::new();
        v.push(PythonEnvironmentKind::MacPythonOrg);
        v
    }
}

/// Whether a (resolved) executable lies in a python.org framework build.
pub open spec fn in_python_org_framework(exe: Seq<char>) -> bool {
    starts_with(exe, "/Library/Frameworks/Python.framework/Versions/"@)
}

/// Exec counterpart of [`in_python_org_framework`].
pub fn is_python_org_framework_path(exe: &str) -> (r: bool)
    ensures
        r == in_python_org_framework(exe@),
{
    starts_with_chars(&str_to_chars(exe), &str_to_chars("/Library/Frameworks/Python.framework/Versions/"))
}

/// The `Current` version folder of the python.org framework.
pub open spec fn framework_current() -> Seq<char> {
    "/Library/Frameworks/Python.framework/Versions/Current"@
}

/// `paths` with the entries of `candidates` that are in it already or whose
/// symlink target (as `resolve_symlink` finds it) is in it, in order.
fn add_linked<F: FileSystem>(fs: &F, symlinks: &mut Vec<String>, candidates: &Vec<String>)
    ensures
        string_views(old(symlinks)@).is_prefix_of(string_views(final(symlinks)@)),
        forall|k: int|
            old(symlinks)@.len() <= k < final(symlinks)@.len() ==> string_views(candidates@).contains(
                #[trigger] final(symlinks)@[k]@,
            ) && resolvable_name(file_name_of(final(symlinks)@[k]@)->0),
{
    let mut i: usize = 0;
    while i < candidates.len()
        invariant
            0 <= i <= candidates@.len(),
            string_views(old(symlinks)@).is_prefix_of(string_views(symlinks@)),
            forall|k: int|
                old(symlinks)@.len() <= k < symlinks@.len() ==> string_views(candidates@).contains(
                    #[trigger] symlinks@[k]@,
                ) && resolvable_name(file_name_of(symlinks@[k]@)->0),
        decreases candidates.len() - i,
    {
        let exe = &candidates[i];
        if !contains_path(symlinks, exe.as_str()) {
            match resolve_symlink(fs, exe.as_str()) {
                Some(target) => {
                    if contains_path(symlinks, target.as_str()) {
                        let ghost before = string_views(symlinks@);
                        let ghost before_v = symlinks@;
                        symlinks.push(exe.clone());
                        assert(string_views(symlinks@) =~= before.push(exe@));
                        assert(string_views(candidates@)[i as int] == exe@);
                        assert forall|k: int|
                            old(symlinks)@.len() <= k < symlinks@.len() implies string_views(candidates@).contains(
                                #[trigger] symlinks@[k]@,
                            ) && resolvable_name(file_name_of(symlinks@[k]@)->0) by {
                            if k < before_v.len() {
                                assert(symlinks@[k] == before_v[k]);
                            }
                        }
                    }
                },
                None => {},
            }
        }
        i = i + 1;
    }
}

/// The `Current` version folder's `python3`.
pub open spec fn current_python3() -> Seq<char> {
    "/Library/Frameworks/Python.framework/Versions/Current/bin/python3"@
}

/// The executable a python.org build is described by, and whether it is the
/// `Current` version, given what `exe` resolves to (`resolved`) and what the
/// `Current` folder's `python3` resolves to (`current_target`): the resolved
/// executable must lie in the framework's `Versions` folder; one in `Current`
/// stands for the version `Current` leads to, when that is a version folder.
pub open spec fn python_org_pick(
    exe: Seq<char>,
    resolved: Option<Seq<char>>,
    current_target: Option<Seq<char>>,
) -> Option<(Seq<char>, bool)> {
    let x = match resolved {
        Some(t) => t,
        None => exe,
    };
    if !in_python_org_framework(x) {
        None
    } else if path_starts_with(x, framework_current()) {
        match current_target {
            Some(t) => if path_starts_with(t, "/Library/Frameworks/Python.framework/Versions"@)
                && !path_starts_with(t, framework_current()) && in_python_org_framework(t) {
                Some((t, true))
            } else {
                Some((x, false))
            },
            None => Some((x, false)),
        }
    } else {
        match current_target {
            Some(t) => Some((x, same_path(t, x))),
            None => Some((x, false)),
        }
    }
}

/// What identifying a python.org build gives, given the answers: the
/// executable (see [`python_org_pick`]), the prefix two folders above it, and
/// the version the header files of that prefix give (`header`); none off
/// macOS, for a virtual environment, or when one of them is missing.
pub open spec fn python_org_outcome(
    platform: Platform,
    is_virtualenv: bool,
    exe: Seq<char>,
    resolved: Option<Seq<char>>,
    current_target: Option<Seq<char>>,
    header: Option<Seq<char>>,
) -> Option<(Seq<char>, Seq<char>, Seq<char>)> {
    if platform != Platform::MacOs || is_virtualenv {
        None
    } else {
        match python_org_pick(exe, resolved, current_target) {
            None => None,
            Some((x, _)) => match parent_of(x) {
                None => None,
                Some(bin) => match parent_of(bin) {
                    None => None,
                    Some(p) => match header {
                        None => None,
                        Some(v) => Some((x, p, v)),
                    },
                },
            },
        }
    }
}

/// The executable, prefix and version an environment is described by.
pub open spec fn described_by(r: Option<PythonEnvironment>) -> Option<(Seq<char>, Seq<char>, Seq<char>)> {
    match r {
        Some(e) => match (e.executable, e.prefix, e.version) {
            (Some(x), Some(p), Some(v)) => Some((x@, p@, v@)),
            _ => None,
        },
        None => None,
    }
}

/// Exec counterpart of [`python_org_pick`].
pub fn python_org_pick_exec(exe: &str, resolved: Option<String>, current_target: Option<String>) -> (r: Option<
    (String, bool),
>)
    ensures
        match r {
            Some((x, c)) => python_org_pick(exe@, opt_view(resolved), opt_view(current_target)) == Some((x@, c)),
            None => python_org_pick(exe@, opt_view(resolved), opt_view(current_target)) is None,
        },
{
    let x = match resolved {
        Some(t) => t,
        None => chars_to_string(str_to_chars(exe).as_slice()),
    };
    if !is_python_org_framework_path(x.as_str()) {
        return None;
    }
    if path_starts_with_exec(x.as_str(), "/Library/Frameworks/Python.framework/Versions/Current") {
        match current_target {
            Some(t) => {
                if path_starts_with_exec(t.as_str(), "/Library/Frameworks/Python.framework/Versions")
                    && !path_starts_with_exec(
                    t.as_str(),
                    "/Library/Frameworks/Python.framework/Versions/Current",
                ) && is_python_org_framework_path(t.as_str()) {
                    Some((t, true))
                } else {
                    Some((x, false))
                }
            },
            None => Some((x, false)),
        }
    } else {
        match current_target {
            Some(t) => {
                let same = path_eq(t.as_str(), x.as_str());
                Some((x, same))
            },
            None => Some((x, false)),
        }
    }
}

/// The header answer `header` is the probe's, when the pick of
/// [`python_org_pick`] leaves a prefix to ask about.
pub open spec fn header_read<X: PythonProbe>(probe: &X, pick: Option<(Seq<char>, bool)>, header: Option<Seq<char>>) -> bool {
    match pick {
        Some((x, _)) => match parent_of(x) {
            Some(bin) => match parent_of(bin) {
                Some(p) => crate::os_environment::answered_header(probe, p, header),
                None => true,
            },
            None => true,
        },
        None => true,
    }
}

impl MacPythonOrg {
    /// Identifies `env` as a python.org framework build: only on macOS and never
    /// for a virtual environment; its executable (a symlink resolved) must lie in
    /// the framework's `Versions` folder, one in `Current` standing for the
    /// version `Current` leads to (see [`python_org_outcome`]). The prefix is two
    /// folders above the executable and must give a version in its header files;
    /// the symlinks are the paths that lead to the executable, among them those
    /// in `/usr/local/bin` and in `Current/bin`.
    pub fn try_from<F: FileSystem, X: PythonProbe>(
        &self,
        fs: &F,
        probe: &X,
        platform: Platform,
        is_virtualenv: bool,
        env: &PythonEnv,
    ) -> (r: Option<PythonEnvironment>)
        ensures
            platform != Platform::MacOs || is_virtualenv ==> r is None,
            r matches Some(e) ==> {
                &&& e.category == PythonEnvironmentKind::MacPythonOrg
                &&& e.executable matches Some(x)
                &&& in_python_org_framework(x@)
                &&& e.prefix matches Some(p)
                &&& parent_of(x@) matches Some(bin)
                &&& parent_of(bin) == Some(p@)
                &&& e.version is Some
                &&& e.symlinks matches Some(links)
                &&& holds_path(string_views(links@), x@)
            },
            exists|resolved: Option<Seq<char>>, current_target: Option<Seq<char>>, header: Option<Seq<char>>|
                #[trigger] python_org_outcome(
                    platform,
                    is_virtualenv,
                    env.executable@,
                    resolved,
                    current_target,
                    header,
                ) == described_by(r),
            platform == Platform::MacOs && !is_virtualenv ==> exists|
                resolved: Option<Seq<char>>,
                current_target: Option<Seq<char>>,
                header: Option<Seq<char>>,
            |
                #[trigger] python_org_outcome(
                    platform,
                    is_virtualenv,
                    env.executable@,
                    resolved,
                    current_target,
                    header,
                ) == described_by(r) && crate::paths::symlink_read(fs, env.executable@, resolved)
                    && crate::paths::symlink_read(
                    fs,
                    "/Library/Frameworks/Python.framework/Versions/Current/bin/python3"@,
                    current_target,
                ) && header_read(probe, python_org_pick(env.executable@, resolved, current_target), header),
    {
        if platform != Platform::MacOs || is_virtualenv {
            assert(python_org_outcome(platform, is_virtualenv, env.executable@, None, None, None) == described_by(None));
            return None;
        }
        let resolved = resolve_symlink(fs, env.executable.as_str());
        let current_python3 = "/Library/Frameworks/Python.framework/Versions/Current/bin/python3";
        let current_target = resolve_symlink(fs, current_python3);
        let ghost rv = opt_view(resolved);
        let ghost cv = opt_view(current_target);
        let first = match &resolved {
            Some(t) => t.clone(),
            None => env.executable.clone(),
        };
        let (executable, version_is_current) = match python_org_pick_exec(
            env.executable.as_str(),
            resolved,
            match &current_target {
                Some(t) => Some(t.clone()),
                None => None,
            },
        ) {
            Some(p) => p,
            None => {
                assert(python_org_outcome(platform, is_virtualenv, env.executable@, rv, cv, None) == described_by(None));
                assert(python_org_pick(env.executable@, rv, cv) is None);
                assert(header_read(probe, python_org_pick(env.executable@, rv, cv), None));
                return None;
            },
        };
        let mut symlinks: Vec<String> = Vec::new();
        symlinks.push(first);
        symlinks.push(env.executable.clone());
        if version_is_current {
            match current_target {
                Some(t) => {
                    symlinks.push(t);
                    symlinks.push(current_python3.to_owned());
                },
                None => {},
            }
        }
        let bin = match parent_path(executable.as_str()) {
            Some(b) => b,
            None => {
                assert(python_org_outcome(platform, is_virtualenv, env.executable@, rv, cv, None) == described_by(None));
                assert(header_read(probe, python_org_pick(env.executable@, rv, cv), None));
                return None;
            },
        };
        let prefix = match parent_path(bin.as_str()) {
            Some(p) => p,
            None => {
                assert(python_org_outcome(platform, is_virtualenv, env.executable@, rv, cv, None) == described_by(None));
                return None;
            },
        };
        let pp: &str = prefix.as_str();
        let header = probe.version_from_header_files(pp);
        let ghost hv = opt_view(header);
        assert(crate::os_environment::answered_header(probe, prefix@, hv));
        assert(header_read(probe, python_org_pick(env.executable@, rv, cv), hv));
        let version = match header {
            Some(v) => v,
            None => {
                assert(python_org_outcome(platform, is_virtualenv, env.executable@, rv, cv, hv) == described_by(None));
                return None;
            },
        };
        let siblings = probe.find_executables(bin.as_str());
        add_linked(fs, &mut symlinks, &siblings);
        let local_bin = probe.find_executables("/usr/local/bin");
        add_linked(fs, &mut symlinks, &local_bin);
        let current_bin = probe.find_executables(
            "/Library/Frameworks/Python.framework/Versions/Current/bin",
        );
        if version_is_current {
            let mut k: usize = 0;
            let mut others: Vec<String> = Vec::new();
            while k < current_bin.len()
                decreases current_bin.len() - k,
            {
                if path_starts_with_exec(
                    current_bin[k].as_str(),
                    "/Library/Frameworks/Python.framework/Versions/Current/bin",
                ) {
                    symlinks.push(current_bin[k].clone());
                } else {
                    others.push(current_bin[k].clone());
                }
                k = k + 1;
            }
            add_linked(fs, &mut symlinks, &others);
        } else {
            add_linked(fs, &mut symlinks, &current_bin);
        }
        let ghost x = executable@;
        let ghost ex = env.executable@;
        let ghost pv = prefix@;
        let ghost vv = version@;
        let env = PythonEnvironmentBuilder::new(PythonEnvironmentKind::MacPythonOrg)
            .executable(Some(executable))
            .version(Some(version))
            .prefix(Some(prefix))
            .symlinks(Some(symlinks))
            .build();
        assert(in_python_org_framework(x));
        assert(symlink_inputs(env.executable, Some(symlinks))[0] == x);
        assert(python_org_outcome(platform, is_virtualenv, ex, rv, cv, hv) == Some((x, pv, vv)));
        Some(env)
    }

    /// Reports the framework builds in the python.org `Versions` folder (not
    /// `Current`, whose files lead to one of them), on macOS.
    pub fn find<F: FileSystem, X: PythonProbe, R: Reporter>(
        &self,
        fs: &F,
        probe: &X,
        platform: Platform,
        reporter: &R,
    ) {
        if platform != Platform::MacOs {
            return;
        }
        let entries = fs.read_dir("/Library/Frameworks/Python.framework/Versions/");
        let mut i: usize = 0;
        while i < entries.len()
            decreases entries.len() - i,
        {
            let prefix = &entries[i];
            if !starts_with_chars(
                &str_to_chars(prefix.as_str()),
                &str_to_chars("/Library/Frameworks/Python.framework/Versions/Current"),
            ) {
                let executable = crate::paths::join_path(
                    crate::paths::join_path(prefix.as_str(), "bin").as_str(),
                    "python3",
                );
                let version = probe.version_from_header_files(prefix.as_str());
                let candidate = PythonEnv::new(executable, Some(prefix.clone()), version);
                let venv = probe.is_virtualenv(&candidate);
                match self.try_from(fs, probe, platform, venv, &candidate) {
                    Some(env) => reporter.report_environment(&env),
                    None => {},
                }
            }
            i = i + 1;
        }
    }
}

fn push_all(symlinks: &mut Vec<String>, more: &Vec<String>)
    ensures
        string_views(final(symlinks)@) == string_views(old(symlinks)@) + string_views(more@),
{
    let mut i: usize = 0;
    while i < more.len()
        invariant
            0 <= i <= more@.len(),
            string_views(symlinks@) == string_views(old(symlinks)@) + string_views(more@).subrange(0, i as int),
        decreases more.len() - i,
    {
        let ghost before = string_views(symlinks@);
        symlinks.push(more[i].clone());
        assert(string_views(symlinks@) =~= before.push(more@[i as int]@));
        assert(string_views(more@).subrange(0, i + 1) =~= string_views(more@).subrange(0, i as int).push(more@[i as int]@));
        i = i + 1;
    }
    assert(string_views(more@).subrange(0, more@.len() as int) =~= string_views(more@));
}

/// The name of the folder under `/Applications` that an executable path names
/// (its third `/`-separated piece), empty when there is none.
pub fn xcode_folder_name(exe: &str) -> (r: String)
    ensures
        split_on(exe@, '/').len() > 2 ==> r@ == split_on(exe@, '/')[2],
        split_on(exe@, '/').len() <= 2 ==> r@ == Seq::<char>::empty(),
{
    let pieces = split_chars(&str_to_chars(exe), '/');
    if pieces.len() > 2 {
        assert(pieces@.map_values(|v: Vec<char>| v@)[2] == pieces@[2]@);
        chars_to_string(pieces[2].as_slice())
    } else {
        String::new()
    }
}

/// The version and prefix of Xcode's Python, given the ones known (`given_v`,
/// `given_p`), what `/usr/bin/python3` reports when it is the same Python
/// (`usr_bin`), the version the header files of the prefix give (`header`,
/// asked only when the version is still unknown and a prefix is known), and
/// what the executable reports (`resolved`, used when either is still unknown).
pub open spec fn xcode_details(
    given_v: Option<Seq<char>>,
    given_p: Option<Seq<char>>,
    usr_bin: Option<(Seq<char>, Seq<char>)>,
    header: Option<Seq<char>>,
    resolved: Option<(Seq<char>, Seq<char>)>,
) -> (Option<Seq<char>>, Option<Seq<char>>) {
    let (v1, p1) = match usr_bin {
        Some((v, p)) => (Some(v), Some(p)),
        None => (given_v, given_p),
    };
    let v2 = if v1 is None && p1 is Some {
        header
    } else {
        v1
    };
    if v2 is None || p1 is None {
        match resolved {
            Some((v, p)) => (Some(v), Some(p)),
            None => (v2, p1),
        }
    } else {
        (v2, p1)
    }
}

impl MacXCode {
    /// Identifies `env` as the Python of Xcode's command line tools: only on
    /// macOS, never for a virtual environment, and only for an executable under
    /// `/Applications` or in a `Contents/Developer/usr/bin` folder. Its symlinks
    /// are the paths found to lead to the same Python (the target of its symlink
    /// and that folder's executables, Xcode's `usr/bin`, `/usr/bin/python3` when
    /// it runs as the same Python); its version and prefix are those of
    /// `/usr/bin/python3` when that runs as the same Python (and is then among
    /// the symlinks), else the ones given, else the version from the header
    /// files, else what the executable reports.
    pub fn try_from<F: FileSystem, X: PythonProbe>(
        &self,
        fs: &F,
        probe: &X,
        platform: Platform,
        is_virtualenv: bool,
        env: &PythonEnv,
    ) -> (r: Option<PythonEnvironment>)
        ensures
            platform != Platform::MacOs || is_virtualenv || !may_be_xcode_python(env.executable@)
                <==> r is None,
            r matches Some(e) ==> {
                &&& e.category == PythonEnvironmentKind::MacXCode
                &&& e.executable == Some(env.executable)
                &&& e.symlinks matches Some(links)
                &&& holds_path(string_views(links@), env.executable@)
            },
            r matches Some(e) ==> exists|
                usr_bin: Option<(Seq<char>, Seq<char>)>,
                header: Option<Seq<char>>,
                resolved: Option<(Seq<char>, Seq<char>)>,
            |
            {
                &&& #[trigger] xcode_details(opt_view(env.version), opt_view(env.prefix), usr_bin, header, resolved)
                    == (opt_view(e.version), opt_view(e.prefix))
                &&& usr_bin is Some ==> (e.symlinks matches Some(links) && holds_path(
                    string_views(links@),
                    "/usr/bin/python3"@,
                ))
            },
            r matches Some(e) ==> (env.version is Some && env.prefix is Some && !(e.symlinks matches Some(
                links,
            ) && holds_path(string_views(links@), "/usr/bin/python3"@)) ==> e.version == env.version
                && e.prefix == env.prefix),
    {
        if platform != Platform::MacOs || is_virtualenv {
            return None;
        }
        let exe = &env.executable;
        if !is_xcode_python_path(exe.as_str()) {
            return None;
        }
        let mut version = match &env.version {
            Some(v) => Some(v.clone()),
            None => None,
        };
        let mut prefix = match &env.prefix {
            Some(p) => Some(p.clone()),
            None => None,
        };
        let mut symlinks: Vec<String> = Vec::new();
        symlinks.push(exe.clone());
        match &env.symlinks {
            Some(existing) => push_all(&mut symlinks, existing),
            None => {},
        }
        match resolve_symlink(fs, exe.as_str()) {
            Some(target) => {
                symlinks.push(target.clone());
                match parent_path(target.as_str()) {
                    Some(dir) => push_all(&mut symlinks, &probe.find_executables(dir.as_str())),
                    None => {},
                }
            },
            None => {},
        }
        let folder = xcode_folder_name(exe.as_str());
        let bin = join_path(
            join_path(join_path("/Applications", folder.as_str()).as_str(), "Contents/Developer/usr")
                .as_str(),
            "bin",
        );
        let python3 = join_path(bin.as_str(), "python3");
        match resolve_symlink(fs, python3.as_str()) {
            Some(target) => {
                if contains_path(&symlinks, target.as_str()) {
                    symlinks.push(python3.clone());
                    push_all(&mut symlinks, &probe.find_executables(bin.as_str()));
                }
            },
            None => {},
        }
        let ghost gv = opt_view(version);
        let ghost gp = opt_view(prefix);
        let ghost mut usr_bin: Option<(Seq<char>, Seq<char>)> = None;
        let ghost mut usr_at: int = 0;
        if !contains_path(&symlinks, "/usr/bin/python3") {
            match probe.resolve("/usr/bin/python3") {
                Some(resolved) => {
                    if contains_path(&symlinks, resolved.executable.as_str()) {
                        symlinks.push("/usr/bin/python3".to_owned());
                        proof {
                            usr_bin = Some((resolved.version@, resolved.prefix@));
                            usr_at = symlinks@.len() - 1;
                        }
                        version = Some(resolved.version);
                        prefix = Some(resolved.prefix);
                    }
                },
                None => {},
            }
        }
        let mut k: usize = 0;
        let mut real_exe: Option<String> = None;
        while k < symlinks.len()
            decreases symlinks.len() - k,
        {
            if contains_text(symlinks[k].as_str(), "Contents/Developer/Library/Frameworks") {
                real_exe = Some(symlinks[k].clone());
                break;
            }
            k = k + 1;
        }
        match real_exe {
            Some(framework_exe) => match parent_path(framework_exe.as_str()) {
                Some(dir) => {
                    let sibling = join_path(dir.as_str(), "python3");
                    if !contains_path(&symlinks, sibling.as_str()) {
                        match resolve_symlink(fs, sibling.as_str()) {
                            Some(target) => {
                                if contains_path(&symlinks, target.as_str()) {
                                    let ghost before = symlinks@;
                                    symlinks.push(sibling);
                                    assert(usr_bin is Some ==> symlinks@[usr_at] == before[usr_at]);
                                }
                            },
                            None => {},
                        }
                    }
                },
                None => {},
            },
            None => {},
        }
        let ghost mut header: Option<Seq<char>> = None;
        if version.is_none() {
            match &prefix {
                Some(p) => {
                    version = probe.version_from_header_files(p.as_str());
                    proof {
                        header = opt_view(version);
                    }
                },
                None => {},
            }
        }
        let ghost mut resolved_answer: Option<(Seq<char>, Seq<char>)> = None;
        if version.is_none() || prefix.is_none() {
            match probe.resolve(exe.as_str()) {
                Some(resolved) => {
                    proof {
                        resolved_answer = Some((resolved.version@, resolved.prefix@));
                    }
                    version = Some(resolved.version);
                    prefix = Some(resolved.prefix);
                },
                None => {},
            }
        }
        assert(xcode_details(gv, gp, usr_bin, header, resolved_answer) == (opt_view(version), opt_view(prefix)));
        let env_found = PythonEnvironmentBuilder::new(PythonEnvironmentKind::MacXCode)
            .executable(Some(exe.clone()))
            .version(version)
            .prefix(prefix)
            .symlinks(Some(symlinks))
            .build();
        assert(symlink_inputs(env_found.executable, Some(symlinks))[0] == exe@);
        proof {
            if usr_bin is Some {
                assert(symlink_inputs(env_found.executable, Some(symlinks))[usr_at + 1]
                    == "/usr/bin/python3"@);
            }
        }
        Some(env_found)
    }
}

} // verus!
