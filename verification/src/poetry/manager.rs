//! Finding the Poetry executable.
use vstd::prelude::*;
use crate::conda::environment_locations::{sep_of, split_search_paths};
use crate::manager::{EnvManager, EnvManagerType};
use crate::os_environment::{FileSystem, Platform};
use crate::paths::{join_path_with, join_with, string_views};
use crate::poetry::env_variables::EnvVariables;
use crate::regexes::{capture_group, regex_capture};
use crate::text::{opt_view, split_on};
use crate::picking::{first_flag_from, first_flagged, lemma_first_flag_in_range};

verus! {

/// The Poetry executable and its version.
#[derive(Debug, Clone, PartialEq, Eq)]
pub struct PoetryManager {
    pub executable: String,
    pub version: Option<String>,
}

/// `base` joined with each of `parts` in turn.
pub open spec fn join_all(base: Seq<char>, parts: Seq<Seq<char>>, sep: char) -> Seq<char>
    decreases parts.len(),
{
    if parts.len() == 0 {
        base
    } else {
        join_with(join_all(base, parts.drop_last(), sep), parts.last(), sep)
    }
}

/// Exec counterpart of [`join_all`].
pub fn join_all_exec(base: &str, parts: &Vec<&str>, sep: char) -> (r: String)
    ensures
        r@ == join_all(base@, parts@.map_values(|p: &str| p@), sep),
{
    let ghost pv = parts@.map_values(|p: &str| p@);
    let mut cur = base.to_owned();
    let mut i: usize = 0;
    assert(pv.subrange(0, 0) =~= Seq::<Seq<char>>::empty());
    while i < parts.len()
        invariant
            0 <= i <= parts@.len(),
            pv == parts@.map_values(|p: &str| p@),
            cur@ == join_all(base@, pv.subrange(0, i as int), sep),
        decreases parts.len() - i,
    {
        assert(pv.subrange(0, i + 1).drop_last() =~= pv.subrange(0, i as int));
        assert(pv.subrange(0, i + 1).last() == parts@[i as int]@);
        cur = join_path_with(cur.as_str(), parts[i], sep);
        i = i + 1;
    }
    assert(pv.subrange(0, parts@.len() as int) =~= pv);
    cur
}

/// The places Poetry's executable is looked for, in order.
pub open spec fn poetry_search_paths(
    home: Seq<char>,
    poetry_home: Option<Seq<char>>,
    app_data: Option<Seq<char>>,
    platform: Platform,
) -> Seq<Seq<char>> {
    let s = sep_of(platform);
    let win = platform == Platform::Windows;
    seq![
        join_all(home, seq![".poetry"@, "bin"@, "poetry"@], s),
        join_all(home, seq![".local"@, "pipx"@, "venvs"@, "poetry"@, "bin"@, "poetry"@], s),
    ] + (match poetry_home {
        Some(ph) => (if win {
            seq![
                join_all(ph, seq!["bin"@, "poetry.exe"@], s),
                join_all(ph, seq!["venv"@, "bin"@, "poetry.exe"@], s),
            ]
        } else {
            seq![]
        }) + seq![
            join_all(ph, seq!["bin"@, "poetry"@], s),
            join_all(ph, seq!["venv"@, "bin"@, "poetry"@], s),
        ],
        None => seq![],
    }) + if win {
        (match app_data {
            Some(ad) => seq![
                join_all(ad, seq!["pypoetry"@, "venv"@, "Scripts"@, "poetry.exe"@], s),
                join_all(ad, seq!["Roaming"@, "Python"@, "Scripts"@, "poetry.exe"@], s),
                join_all(ad, seq!["pypoetry"@, "venv"@, "Scripts"@, "poetry"@], s),
                join_all(ad, seq!["Python"@, "scripts"@, "poetry.exe"@], s),
                join_all(ad, seq!["Python"@, "scripts"@, "poetry"@], s),
            ],
            None => seq![],
        }) + seq![join_all(home, seq![".local"@, "bin"@, "poetry"@], s)]
    } else if platform == Platform::MacOs {
        seq![
            join_all(
                home,
                seq!["Library"@, "Application Support"@, "pypoetry"@, "venv"@, "bin"@, "poetry"@],
                s,
            ),
            join_all(home, seq![".local"@, "bin"@, "poetry"@], s),
        ]
    } else {
        seq![
            join_all(home, seq![".local"@, "share"@, "pypoetry"@, "venv"@, "bin"@, "poetry"@], s),
            join_all(home, seq![".local"@, "bin"@, "poetry"@], s),
        ]
    }
}

fn push_joined_all(out: &mut Vec<String>, base: &str, parts: Vec<&str>, sep: char)
    ensures
        string_views(final(out)@) == string_views(old(out)@).push(
            join_all(base@, parts@.map_values(|p: &str| p@), sep),
        ),
{
    let ghost before = string_views(out@);
    out.push(join_all_exec(base, &parts, sep));
    assert(string_views(out@) =~= before.push(join_all(base@, parts@.map_values(|p: &str| p@), sep)));
}

/// The places Poetry's executable is looked for (see [`poetry_search_paths`]).
#[verifier::rlimit(30)]
pub fn search_paths(home: &str, env: &EnvVariables, platform: Platform) -> (r: Vec<String>)
    ensures
        string_views(r@) == poetry_search_paths(home@, opt_view(env.poetry_home), opt_view(env.app_data), platform),
{
    let s = if platform == Platform::Windows { '\\' } else { '/' };
    let win = platform == Platform::Windows;
    let mut out: Vec<String> = Vec::new();
    {
        let parts: Vec<&str> = vec![".poetry", "bin", "poetry"];
        assert(parts@.map_values(|q: &str| q@) =~= seq![".poetry"@, "bin"@, "poetry"@]);
        push_joined_all(&mut out, home, parts, s);
    }
    {
        let parts: Vec<&str> = vec![".local", "pipx", "venvs", "poetry", "bin", "poetry"];
        assert(parts@.map_values(|q: &str| q@) =~= seq![".local"@, "pipx"@, "venvs"@, "poetry"@, "bin"@, "poetry"@]);
        push_joined_all(&mut out, home, parts, s);
    }
    let ghost first = string_views(out@);
    match &env.poetry_home {
        Some(ph) => {
            if win {
                {
                    let parts: Vec<&str> = vec!["bin", "poetry.exe"];
                    assert(parts@.map_values(|q: &str| q@) =~= seq!["bin"@, "poetry.exe"@]);
                    push_joined_all(&mut out, ph.as_str(), parts, s);
                }
                {
                    let parts: Vec<&str> = vec!["venv", "bin", "poetry.exe"];
                    assert(parts@.map_values(|q: &str| q@) =~= seq!["venv"@, "bin"@, "poetry.exe"@]);
                    push_joined_all(&mut out, ph.as_str(), parts, s);
                }
            }
            {
                let parts: Vec<&str> = vec!["bin", "poetry"];
                assert(parts@.map_values(|q: &str| q@) =~= seq!["bin"@, "poetry"@]);
                push_joined_all(&mut out, ph.as_str(), parts, s);
            }
            {
                let parts: Vec<&str> = vec!["venv", "bin", "poetry"];
                assert(parts@.map_values(|q: &str| q@) =~= seq!["venv"@, "bin"@, "poetry"@]);
                push_joined_all(&mut out, ph.as_str(), parts, s);
            }
        },
        None => {},
    }
    let ghost second = string_views(out@);
    if win {
        match &env.app_data {
            Some(ad) => {
                {
                    let parts: Vec<&str> = vec!["pypoetry", "venv", "Scripts", "poetry.exe"];
                    assert(parts@.map_values(|q: &str| q@) =~= seq!["pypoetry"@, "venv"@, "Scripts"@, "poetry.exe"@]);
                    push_joined_all(&mut out, ad.as_str(), parts, s);
                }
                {
                    let parts: Vec<&str> = vec!["Roaming", "Python", "Scripts", "poetry.exe"];
                    assert(parts@.map_values(|q: &str| q@) =~= seq!["Roaming"@, "Python"@, "Scripts"@, "poetry.exe"@]);
                    push_joined_all(&mut out, ad.as_str(), parts, s);
                }
                {
                    let parts: Vec<&str> = vec!["pypoetry", "venv", "Scripts", "poetry"];
                    assert(parts@.map_values(|q: &str| q@) =~= seq!["pypoetry"@, "venv"@, "Scripts"@, "poetry"@]);
                    push_joined_all(&mut out, ad.as_str(), parts, s);
                }
                {
                    let parts: Vec<&str> = vec!["Python", "scripts", "poetry.exe"];
                    assert(parts@.map_values(|q: &str| q@) =~= seq!["Python"@, "scripts"@, "poetry.exe"@]);
                    push_joined_all(&mut out, ad.as_str(), parts, s);
                }
                {
                    let parts: Vec<&str> = vec!["Python", "scripts", "poetry"];
                    assert(parts@.map_values(|q: &str| q@) =~= seq!["Python"@, "scripts"@, "poetry"@]);
                    push_joined_all(&mut out, ad.as_str(), parts, s);
                }
            },
            None => {},
        }
        {
            let parts: Vec<&str> = vec![".local", "bin", "poetry"];
            assert(parts@.map_values(|q: &str| q@) =~= seq![".local"@, "bin"@, "poetry"@]);
            push_joined_all(&mut out, home, parts, s);
        }
    } else if platform == Platform::MacOs {
        {
            let parts: Vec<&str> = vec!["Library", "Application Support", "pypoetry", "venv", "bin", "poetry"];
            assert(parts@.map_values(|q: &str| q@) =~= seq!["Library"@, "Application Support"@, "pypoetry"@, "venv"@, "bin"@, "poetry"@]);
            push_joined_all(&mut out, home, parts, s);
        }
        {
            let parts: Vec<&str> = vec![".local", "bin", "poetry"];
            assert(parts@.map_values(|q: &str| q@) =~= seq![".local"@, "bin"@, "poetry"@]);
            push_joined_all(&mut out, home, parts, s);
        }
    } else {
        {
            let parts: Vec<&str> = vec![".local", "share", "pypoetry", "venv", "bin", "poetry"];
            assert(parts@.map_values(|q: &str| q@) =~= seq![".local"@, "share"@, "pypoetry"@, "venv"@, "bin"@, "poetry"@]);
            push_joined_all(&mut out, home, parts, s);
        }
        {
            let parts: Vec<&str> = vec![".local", "bin", "poetry"];
            assert(parts@.map_values(|q: &str| q@) =~= seq![".local"@, "bin"@, "poetry"@]);
            push_joined_all(&mut out, home, parts, s);
        }
    }
    assert(string_views(out@) =~= poetry_search_paths(home@, opt_view(env.poetry_home), opt_view(env.app_data), platform));
    out
}

/// The executables on `PATH` that are tried: `<dir>/poetry`, and on Windows also
/// `<dir>/poetry.exe`, for each folder of `PATH` in order.
pub open spec fn path_candidates(path: Seq<char>, platform: Platform) -> Seq<Seq<char>> {
    let dirs = split_on(path, if platform == Platform::Windows { ';' } else { ':' });
    candidates_in(dirs, platform)
}

pub open spec fn candidates_in(dirs: Seq<Seq<char>>, platform: Platform) -> Seq<Seq<char>>
    decreases dirs.len(),
{
    if dirs.len() == 0 {
        seq![]
    } else {
        candidates_in(dirs.drop_last(), platform) + seq![join_with(dirs.last(), "poetry"@, sep_of(platform))] + if platform == Platform::Windows {
            seq![join_with(dirs.last(), "poetry.exe"@, sep_of(platform))]
        } else {
            seq![]
        }
    }
}

/// The Poetry version a Homebrew Cellar path names (`.../Cellar/poetry/X.Y.Z`).
pub open spec fn cellar_version(path: Seq<char>) -> Option<Seq<char>> {
    regex_capture("/Cellar/poetry/(\\d+\\.\\d+\\.\\d+)"@, path, 1)
}

/// The Poetry version that the (resolved) executable path `resolved` names, if
/// it is a Homebrew Cellar path.
pub fn version_from_resolved(resolved: &str) -> (r: Option<String>)
    ensures
        opt_view(r) == cellar_version(resolved@),
{
    capture_group("/Cellar/poetry/(\\d+\\.\\d+\\.\\d+)", resolved, 1)
}

impl PoetryManager {
    /// The version that the executable's resolved path names, if it is a Homebrew
    /// Cellar path.
    pub fn extract_version_from_path<F: FileSystem>(fs: &F, executable: &str) -> (r: Option<String>)
        ensures
            r matches Some(v) ==> exists|p: Seq<char>| cellar_version(p) == Some(v@),
            exists|resolved: Seq<char>| #[trigger] cellar_version(resolved) == opt_view(r),
    {
        let resolved = match fs.canonicalize(executable) {
            Some(t) => t,
            None => executable.to_owned(),
        };
        version_from_resolved(resolved.as_str())
    }

    /// The Poetry executable: the one given, if it is a file; otherwise the first
    /// of [`poetry_candidates`] that is a file (see [`poetry_choice`]); with the
    /// version its resolved path names.
    pub fn find<F: FileSystem>(fs: &F, executable: Option<String>, env: &EnvVariables, platform: Platform) -> (r: Option<Self>)
        ensures
            r matches Some(m) ==> opt_view(executable) == Some(m.executable@) || (env.home matches Some(h)
                && (poetry_search_paths(h@, opt_view(env.poetry_home), opt_view(env.app_data), platform).contains(m.executable@)
                || (env.path matches Some(p) && path_candidates(p@, platform).contains(m.executable@)))),
            exists|given_is_file: bool, answers: Seq<bool>|
                answers.len() == poetry_candidates(*env, platform).len() && #[trigger] poetry_choice(
                    executable,
                    given_is_file,
                    poetry_candidates(*env, platform),
                    answers,
                ) == (match r {
                    Some(m) => Some(m.executable@),
                    None => None,
                }),
            r matches Some(m) ==> exists|resolved: Seq<char>| #[trigger] cellar_version(resolved) == opt_view(m.version),
            exists|given_is_file: bool, answers: Seq<bool>|
                #[trigger] poetry_choice(executable, given_is_file, poetry_candidates(*env, platform), answers)
                    == (match r {
                    Some(m) => Some(m.executable@),
                    None => None,
                }) && answers.len() == poetry_candidates(*env, platform).len() && (executable matches Some(
                    e,
                ) ==> crate::os_environment::answered_is_file(fs, e@, given_is_file)) && (executable is None
                    ==> !given_is_file) && (!given_is_file ==> forall|k: int|
                    0 <= k < answers.len() ==> crate::os_environment::answered_is_file(
                        fs,
                        poetry_candidates(*env, platform)[k],
                        #[trigger] answers[k],
                    )),
    {
        let given_is_file = match &executable {
            Some(exe) => {
                let ep: &str = exe.as_str();
                let a = fs.is_file(ep);
                assert(crate::os_environment::answered_is_file(fs, exe@, a));
                a
            },
            None => false,
        };
        let candidates = poetry_candidate_list(env, platform);
        let mut answers: Vec<bool> = Vec::new();
        if !given_is_file {
            let mut i: usize = 0;
            while i < candidates.len()
                invariant
                    0 <= i <= candidates@.len(),
                    answers@.len() == i,
                    forall|k: int|
                        0 <= k < i ==> crate::os_environment::answered_is_file(
                            fs,
                            (#[trigger] candidates@[k])@,
                            answers@[k],
                        ),
                decreases candidates.len() - i,
            {
                let cp: &str = candidates[i].as_str();
                let a = fs.is_file(cp);
                assert(crate::os_environment::answered_is_file(fs, candidates@[i as int]@, a));
                answers.push(a);
                i = i + 1;
            }
            assert forall|k: int| 0 <= k < answers@.len() implies crate::os_environment::answered_is_file(
                fs,
                poetry_candidates(*env, platform)[k],
                #[trigger] answers@[k],
            ) by {
                assert(string_views(candidates@)[k] == candidates@[k]@);
            }
        } else {
            let mut i: usize = 0;
            while i < candidates.len()
                invariant
                    0 <= i <= candidates@.len(),
                    answers@.len() == i,
                decreases candidates.len() - i,
            {
                answers.push(false);
                i = i + 1;
            }
        }
        let chosen = choose_poetry(&executable, given_is_file, &candidates, &answers);
        proof {
            if chosen is Some && !(executable is Some && given_is_file) {
                lemma_first_flag_in_range(answers@, 0);
                let k = first_flag_from(answers@, 0)->0;
                let pc = poetry_candidates(*env, platform);
                assert(string_views(candidates@).len() == candidates@.len());
                assert(answers@.len() == pc.len());
                assert(chosen->0@ == pc[k]);
                match &env.home {
                    Some(h) => {
                        let sp = poetry_search_paths(h@, opt_view(env.poetry_home), opt_view(env.app_data), platform);
                        if k < sp.len() {
                            assert(sp[k] == pc[k]);
                            assert(sp.contains(pc[k]));
                        } else {
                            match &env.path {
                                Some(p) => {
                                    assert(path_candidates(p@, platform)[k - sp.len()] == pc[k]);
                                    assert(path_candidates(p@, platform).contains(pc[k]));
                                },
                                None => {},
                            }
                        }
                    },
                    None => {},
                }
            }
        }
        match chosen {
            Some(exe) => {
                let version = Self::extract_version_from_path(fs, exe.as_str());
                Some(PoetryManager { executable: exe, version })
            },
            None => None,
        }
    }

    /// The manager as an [`EnvManager`] of type Poetry.
    pub fn to_manager(&self) -> (r: EnvManager)
        ensures
            r.executable == self.executable,
            r.version == self.version,
            r.tool == EnvManagerType::Poetry,
    {
        EnvManager {
            executable: self.executable.clone(),
            version: self.version.clone(),
            tool: EnvManagerType::Poetry,
        }
    }
}

proof fn lemma_candidates_prefix(dirs: Seq<Seq<char>>, platform: Platform, k: int)
    requires
        0 <= k < dirs.len(),
    ensures
        candidates_in(dirs, platform).contains(join_with(dirs[k], "poetry"@, sep_of(platform))),
        platform == Platform::Windows ==> candidates_in(dirs, platform).contains(
            join_with(dirs[k], "poetry.exe"@, sep_of(platform)),
        ),
    decreases dirs.len(),
{
    let c = candidates_in(dirs, platform);
    let p = candidates_in(dirs.drop_last(), platform);
    if k == dirs.len() - 1 {
        assert(c[p.len() as int] == join_with(dirs[k], "poetry"@, sep_of(platform)));
        if platform == Platform::Windows {
            assert(c[p.len() as int + 1] == join_with(dirs[k], "poetry.exe"@, sep_of(platform)));
        }
    } else {
        lemma_candidates_prefix(dirs.drop_last(), platform, k);
        let j = choose|j: int| 0 <= j < p.len() && p[j] == join_with(dirs[k], "poetry"@, sep_of(platform));
        assert(c[j] == p[j]);
        if platform == Platform::Windows {
            let j2 = choose|j: int| 0 <= j < p.len() && p[j] == join_with(dirs[k], "poetry.exe"@, sep_of(platform));
            assert(c[j2] == p[j2]);
        }
    }
}

/// The executables tried for Poetry, in order: the usual places under the home
/// folder, then those on `PATH`; none without a home folder.
pub open spec fn poetry_candidates(env: EnvVariables, platform: Platform) -> Seq<Seq<char>> {
    match env.home {
        Some(h) => poetry_search_paths(h@, opt_view(env.poetry_home), opt_view(env.app_data), platform)
            + match env.path {
            Some(p) => path_candidates(p@, platform),
            None => Seq::<Seq<char>>::empty(),
        },
        None => Seq::<Seq<char>>::empty(),
    }
}

/// The Poetry executable chosen, given whether the given one is a file and, for
/// each candidate, whether it is: the given one when it is a file, else the
/// first candidate that is.
pub open spec fn poetry_choice(
    executable: Option<String>,
    given_is_file: bool,
    candidates: Seq<Seq<char>>,
    answers: Seq<bool>,
) -> Option<Seq<char>> {
    if executable is Some && given_is_file {
        Some(executable->0@)
    } else {
        match first_flag_from(answers, 0) {
            Some(k) => Some(candidates[k]),
            None => None,
        }
    }
}

/// Exec counterpart of [`poetry_choice`].
pub fn choose_poetry(
    executable: &Option<String>,
    given_is_file: bool,
    candidates: &Vec<String>,
    answers: &Vec<bool>,
) -> (r: Option<String>)
    requires
        answers@.len() == candidates@.len(),
    ensures
        opt_view(r) == poetry_choice(*executable, given_is_file, string_views(candidates@), answers@),
{
    match executable {
        Some(e) => {
            if given_is_file {
                let c = e.clone();
                assert(c@ == e@);
                return Some(c);
            }
        },
        None => {},
    }
    assert(string_views(candidates@).len() == candidates@.len());
    match first_flagged(answers) {
        Some(k) => {
            proof {
                lemma_first_flag_in_range(answers@, 0);
            }
            assert(string_views(candidates@)[k as int] == candidates@[k as int]@);
            let c = candidates[k].clone();
            assert(c@ == candidates@[k as int]@);
            assert(first_flag_from(answers@, 0) == Some(k as int));
            assert(!(*executable is Some && given_is_file));
            assert(poetry_choice(*executable, given_is_file, string_views(candidates@), answers@) == Some(c@));
            Some(c)
        },
        None => None,
    }
}

/// The executables on `PATH` that are tried (see [`path_candidates`]).
pub fn path_candidate_list(p: &str, platform: Platform) -> (r: Vec<String>)
    ensures
        string_views(r@) == path_candidates(p@, platform),
{
    let dirs = split_search_paths(p, platform);
    let ghost dv = string_views(dirs@);
    let sep = if platform == Platform::Windows { '\\' } else { '/' };
    let mut out: Vec<String> = Vec::new();
    let mut k: usize = 0;
    assert(dv.subrange(0, 0) =~= Seq::<Seq<char>>::empty());
    assert(string_views(out@) =~= Seq::<Seq<char>>::empty());
    while k < dirs.len()
        invariant
            0 <= k <= dirs@.len(),
            dv == string_views(dirs@),
            dv == split_on(p@, if platform == Platform::Windows { ';' } else { ':' }),
            sep == sep_of(platform),
            string_views(out@) == candidates_in(dv.subrange(0, k as int), platform),
        decreases dirs.len() - k,
    {
        let ghost before = string_views(out@);
        assert(dv.subrange(0, k + 1).drop_last() =~= dv.subrange(0, k as int));
        assert(dv[k as int] == dirs@[k as int]@);
        out.push(join_path_with(dirs[k].as_str(), "poetry", sep));
        if platform == Platform::Windows {
            out.push(join_path_with(dirs[k].as_str(), "poetry.exe", sep));
        }
        assert(string_views(out@) =~= candidates_in(dv.subrange(0, k + 1), platform));
        k = k + 1;
    }
    assert(dv.subrange(0, dv.len() as int) =~= dv);
    out
}

/// The executables tried for Poetry (see [`poetry_candidates`]).
pub fn poetry_candidate_list(env: &EnvVariables, platform: Platform) -> (r: Vec<String>)
    ensures
        string_views(r@) == poetry_candidates(*env, platform),
{
    match &env.home {
        Some(h) => {
            let mut out = search_paths(h.as_str(), env, platform);
            let ghost first = string_views(out@);
            match &env.path {
                Some(p) => {
                    let mut more = path_candidate_list(p.as_str(), platform);
                    let ghost second = string_views(more@);
                    out.append(&mut more);
                    assert(string_views(out@) =~= first + second);
                },
                None => {
                    assert(string_views(out@) =~= first + Seq::<Seq<char>>::empty());
                },
            }
            out
        },
        None => {
            let out: Vec<String> = Vec::new();
            assert(string_views(out@) =~= Seq::<Seq<char>>::empty());
            out
        },
    }
}

} // verus!
