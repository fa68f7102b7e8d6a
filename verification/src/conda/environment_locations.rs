//! Where conda installations and environments are looked for.
use vstd::prelude::*;
use crate::conda::conda_rc::{get_conda_rc_search_paths, Condarc};
use crate::conda::env_variables::EnvVariables;
use crate::conda::utils::{install_answer, is_conda_env, is_conda_install};
use crate::os_environment::{answered_exists, answered_is_dir, answered_listing, answered_text, FileSystem, Platform};
use crate::paths::{
    ends_with_component, join, expand_path, parent_of, expanded_path, join_path, join_path_with, join_with, parent_path, sort_dedup_paths,
    strictly_sorted, string_views, holds_path, last_component_is,
};
use crate::picking::{flagged, keep_flagged, lemma_flagged_picks, picked_in_order, picks};
use crate::text::{char_views, chars_to_string, lines_exec, opt_view, split_chars, str_to_chars};

verus! {

/// The folder separator of `platform`.
pub open spec fn sep_of(platform: Platform) -> char {
    if platform == Platform::Windows {
        '\\'
    } else {
        '/'
    }
}

/// The installation folder names tried under each prefix.
pub open spec fn install_names() -> Seq<Seq<char>> {
    seq!["anaconda"@, "anaconda3"@, "miniconda"@, "miniconda3"@, "miniforge3"@, "micromamba"@]
}

/// `prefix` joined with each installation folder name.
pub open spec fn install_variants(prefix: Seq<char>, sep: char) -> Seq<Seq<char>> {
    install_names().map_values(|n: Seq<char>| join_with(prefix, n, sep))
}

/// The expanded value of an optional variable, as a list of at most one path.
pub open spec fn expanded_opt(v: Option<String>, ev: EnvVariables) -> Seq<Seq<char>> {
    match v {
        Some(x) => seq![expanded_path(x@, opt_view(ev.home), opt_view(ev.username))],
        None => seq![],
    }
}

/// The prefixes under a home folder where Unix installations are tried.
pub open spec fn unix_prefixes(home: Seq<char>, platform: Platform) -> Seq<Seq<char>> {
    seq![
        home,
        join_with(home, "opt"@, '/'),
        join_with(home, ".conda"@, '/'),
        join_with(home, ".local"@, '/'),
        "/opt"@,
        "/usr/share"@,
        "/usr/local"@,
        "/usr"@,
        if platform == Platform::MacOs {
            "/opt/homebrew"@
        } else {
            "/home/linuxbrew/.linuxbrew"@
        },
    ]
}

/// The installation folders of each prefix, in order.
pub open spec fn variants_of_all(prefixes: Seq<Seq<char>>, sep: char) -> Seq<Seq<char>>
    decreases prefixes.len(),
{
    if prefixes.len() == 0 {
        seq![]
    } else {
        variants_of_all(prefixes.drop_last(), sep) + install_variants(prefixes.last(), sep)
    }
}

/// The installation folders tried on Unix, before sorting.
pub open spec fn unix_install_candidates(ev: EnvVariables, platform: Platform) -> Seq<Seq<char>> {
    seq![
        "/anaconda"@,
        "/anaconda3"@,
        "/miniconda"@,
        "/miniconda3"@,
        "/miniforge"@,
        "/miniforge3"@,
        "/micromamba"@,
    ] + expanded_opt(ev.conda_root, ev) + expanded_opt(ev.conda_prefix, ev) + expanded_opt(
        ev.mamba_root_prefix,
        ev,
    ) + expanded_opt(ev.conda_dir, ev) + expanded_opt(ev.conda, ev) + match ev.home {
        Some(h) => variants_of_all(unix_prefixes(h@, platform), '/') + seq![
            "/opt/conda"@,
            join_with(h@, ".conda"@, '/'),
            join_with(h@, ".local"@, '/'),
        ],
        None => seq![],
    }
}

/// The `base` folders of conda installed as a Homebrew cask (macOS only).
pub open spec fn caskroom_bases(platform: Platform) -> Seq<Seq<char>> {
    if platform == Platform::MacOs {
        seq![
            "/opt/homebrew/Caskroom/miniforge/base"@,
            "/opt/homebrew/Caskroom/miniconda/base"@,
            "/opt/homebrew/Caskroom/anaconda/base"@,
        ]
    } else {
        seq![]
    }
}

fn push_variants(out: &mut Vec<String>, prefix: &str, sep: char)
    ensures
        string_views(final(out)@) == string_views(old(out)@) + install_variants(prefix@, sep),
{
    let ghost before = string_views(out@);
    let names: Vec<&'static str> = vec![
        "anaconda", "anaconda3", "miniconda", "miniconda3", "miniforge3", "micromamba"
    ];
    assert(names@.map_values(|s: &'static str| s@) =~= install_names());
    let mut i: usize = 0;
    while i < names.len()
        invariant
            0 <= i <= names@.len(),
            names@.map_values(|s: &'static str| s@) == install_names(),
            string_views(out@) == before + install_variants(prefix@, sep).subrange(0, i as int),
        decreases names.len() - i,
    {
        let ghost mid = string_views(out@);
        out.push(join_path_with(prefix, names[i], sep));
        assert(install_names()[i as int] == names@[i as int]@);
        assert(string_views(out@) =~= mid.push(join_with(prefix@, names@[i as int]@, sep)));
        assert(install_variants(prefix@, sep).subrange(0, i + 1) =~= install_variants(
            prefix@,
            sep,
        ).subrange(0, i as int).push(join_with(prefix@, install_names()[i as int], sep)));
        i = i + 1;
    }
    assert(install_variants(prefix@, sep).subrange(0, 6) =~= install_variants(prefix@, sep));
}

fn push_expanded(out: &mut Vec<String>, v: &Option<String>, ev: &EnvVariables)
    ensures
        string_views(final(out)@) == string_views(old(out)@) + expanded_opt(*v, *ev),
{
    let ghost before = string_views(out@);
    match v {
        Some(x) => {
            out.push(expand_path(x.as_str(), &ev.home, &ev.username));
        },
        None => {},
    }
    assert(string_views(out@) =~= before + expanded_opt(*v, *ev));
}

fn push_text(out: &mut Vec<String>, s: &str)
    ensures
        string_views(final(out)@) == string_views(old(out)@).push(s@),
{
    let ghost before = string_views(out@);
    out.push(s.to_owned());
    assert(string_views(out@) =~= before.push(s@));
}

/// The installation folders tried on Unix (see [`unix_install_candidates`]).
#[verifier::spinoff_prover]
#[verifier::rlimit(30)]
pub fn unix_install_candidate_list(env_vars: &EnvVariables, platform: Platform) -> (r: Vec<String>)
    ensures
        string_views(r@) == unix_install_candidates(*env_vars, platform),
{
    let mut out: Vec<String> = Vec::new();
    push_text(&mut out, "/anaconda");
    push_text(&mut out, "/anaconda3");
    push_text(&mut out, "/miniconda");
    push_text(&mut out, "/miniconda3");
    push_text(&mut out, "/miniforge");
    push_text(&mut out, "/miniforge3");
    push_text(&mut out, "/micromamba");
    let ghost fixed = string_views(out@);
    push_expanded(&mut out, &env_vars.conda_root, env_vars);
    push_expanded(&mut out, &env_vars.conda_prefix, env_vars);
    push_expanded(&mut out, &env_vars.mamba_root_prefix, env_vars);
    push_expanded(&mut out, &env_vars.conda_dir, env_vars);
    push_expanded(&mut out, &env_vars.conda, env_vars);
    let ghost before_home = string_views(out@);
    match &env_vars.home {
        Some(h) => {
            let mut prefixes: Vec<String> = Vec::new();
            prefixes.push(h.clone());
            prefixes.push(join_path(h.as_str(), "opt"));
            prefixes.push(join_path(h.as_str(), ".conda"));
            prefixes.push(join_path(h.as_str(), ".local"));
            prefixes.push("/opt".to_owned());
            prefixes.push("/usr/share".to_owned());
            prefixes.push("/usr/local".to_owned());
            prefixes.push("/usr".to_owned());
            if platform == Platform::MacOs {
                prefixes.push("/opt/homebrew".to_owned());
            } else {
                prefixes.push("/home/linuxbrew/.linuxbrew".to_owned());
            }
            let ghost pv = unix_prefixes(h@, platform);
            assert(string_views(prefixes@) =~= pv);
            let mut i: usize = 0;
            assert(pv.subrange(0, 0) =~= Seq::<Seq<char>>::empty());
            while i < prefixes.len()
                invariant
                    0 <= i <= prefixes@.len(),
                    string_views(prefixes@) == pv,
                    string_views(out@) == before_home + variants_of_all(pv.subrange(0, i as int), '/'),
                decreases prefixes.len() - i,
            {
                assert(pv.subrange(0, i + 1).drop_last() =~= pv.subrange(0, i as int));
                assert(pv[i as int] == prefixes@[i as int]@);
                push_variants(&mut out, prefixes[i].as_str(), '/');
                i = i + 1;
            }
            assert(pv.subrange(0, pv.len() as int) =~= pv);
            let ghost mid = string_views(out@);
            push_text(&mut out, "/opt/conda");
            let dot_conda = join_path(h.as_str(), ".conda");
            push_text(&mut out, dot_conda.as_str());
            let dot_local = join_path(h.as_str(), ".local");
            push_text(&mut out, dot_local.as_str());
            assert(string_views(out@) =~= mid + seq![
                "/opt/conda"@,
                join_with(h@, ".conda"@, '/'),
                join_with(h@, ".local"@, '/'),
            ]);
        },
        None => {},
    }
    assert(string_views(out@) =~= unix_install_candidates(*env_vars, platform));
    out
}

/// The conda installation that `conda_executable` belongs to: the folder of the
/// executable or the one above it (or the given folder itself or the one above),
/// whichever is a conda environment.
pub fn get_conda_dir_from_exe<F: FileSystem>(fs: &F, conda_executable: &Option<String>) -> (r:
    Option<String>)
    ensures
        r is Some ==> conda_executable is Some,
        r matches Some(d) ==> conda_executable matches Some(e) && (d@ == e@ || parent_of(e@) == Some(
            d@,
        ) || crate::conda::environments::grandparent_of(e@) == Some(d@)),
        r matches Some(d) ==> answered_is_dir(fs, join(d@, "conda-meta"@), true),
{
    let exe = match conda_executable {
        Some(e) => e,
        None => {
            return None;
        },
    };
    let start = if fs.is_file(exe.as_str()) {
        match parent_path(exe.as_str()) {
            Some(p) => p,
            None => {
                return None;
            },
        }
    } else {
        exe.clone()
    };
    if is_conda_env(fs, start.as_str()) {
        return Some(start);
    }
    match parent_path(start.as_str()) {
        Some(p) => {
            if is_conda_env(fs, p.as_str()) {
                return Some(p);
            }
        },
        None => {},
    }
    None
}

/// The installation folders looked at: the candidates, then the folder found
/// for the conda executable (when one is).
pub open spec fn install_search(ev: EnvVariables, platform: Platform, d: Option<Seq<char>>) -> Seq<Seq<char>> {
    unix_install_candidates(ev, platform) + match d {
        Some(x) => seq![x],
        None => Seq::<Seq<char>>::empty(),
    }
}

/// `r` holds (as paths) each of `found` and of `extra`, and nothing else.
pub open spec fn holds_exactly(r: Seq<Seq<char>>, found: Seq<Seq<char>>, extra: Seq<Seq<char>>) -> bool {
    &&& forall|k: int| 0 <= k < found.len() ==> holds_path(r, #[trigger] found[k])
    &&& forall|k: int| 0 <= k < extra.len() ==> holds_path(r, #[trigger] extra[k])
    &&& forall|k: int| 0 <= k < r.len() ==> found.contains(#[trigger] r[k]) || extra.contains(r[k])
}

/// The known installation folders: those of [`install_search`] that the file
/// system answers exist for, and on macOS the `base` folders of conda installed
/// as a Homebrew cask (whether or not they exist); in path order without repeats.
pub fn get_known_conda_install_locations<F: FileSystem>(
    fs: &F,
    env_vars: &EnvVariables,
    conda_executable: &Option<String>,
    platform: Platform,
) -> (r: Vec<String>)
    ensures
        strictly_sorted(string_views(r@)),
        exists|d: Option<Seq<char>>, answers: Seq<bool>|
            (d matches Some(x) ==> conda_dir_candidate(*conda_executable, x)) && answers.len()
                == install_search(*env_vars, platform, d).len() && #[trigger] holds_exactly(
                string_views(r@),
                flagged(install_search(*env_vars, platform, d), answers),
                caskroom_bases(platform),
            ),
{
    let mut candidates = unix_install_candidate_list(env_vars, platform);
    let ghost listed = string_views(candidates@);
    let found_dir = get_conda_dir_from_exe(fs, conda_executable);
    match &found_dir {
        Some(d) => {
            candidates.push(d.clone());
        },
        None => {},
    }
    let ghost dv: Option<Seq<char>> = match found_dir {
        Some(d) => Some(d@),
        None => None,
    };
    assert(string_views(candidates@) =~= install_search(*env_vars, platform, dv));
    let existing = keep_existing(fs, candidates);
    let ghost answers = choose|a: Seq<bool>|
        existence_answers(fs, install_search(*env_vars, platform, dv), a) && string_views(existing@)
            == #[trigger] flagged(install_search(*env_vars, platform, dv), a);
    let ghost found = string_views(existing@);
    let mut all = existing;
    if platform == Platform::MacOs {
        push_text(&mut all, "/opt/homebrew/Caskroom/miniforge/base");
        push_text(&mut all, "/opt/homebrew/Caskroom/miniconda/base");
        push_text(&mut all, "/opt/homebrew/Caskroom/anaconda/base");
    }
    assert(string_views(all@) =~= found + caskroom_bases(platform));
    let r = sort_dedup_paths(all);
    proof {
        let av = string_views(all@);
        assert forall|k: int| 0 <= k < found.len() implies holds_path(string_views(r@), #[trigger] found[k]) by {
            assert(av[k] == found[k]);
            assert(all@[k]@ == av[k]);
        }
        assert forall|k: int| 0 <= k < caskroom_bases(platform).len() implies holds_path(
            string_views(r@),
            #[trigger] caskroom_bases(platform)[k],
        ) by {
            assert(av[found.len() + k] == caskroom_bases(platform)[k]);
            assert(all@[found.len() + k]@ == av[found.len() + k]);
        }
        assert forall|k: int| 0 <= k < r@.len() implies found.contains(#[trigger] string_views(r@)[k])
            || caskroom_bases(platform).contains(string_views(r@)[k]) by {
            let a = choose|a: int| 0 <= a < av.len() && av[a] == r@[k]@;
            if a < found.len() {
                assert(found[a] == av[a]);
            } else {
                assert(caskroom_bases(platform)[a - found.len()] == av[a]);
            }
        }
        assert(holds_exactly(string_views(r@), flagged(install_search(*env_vars, platform, dv), answers), caskroom_bases(platform)));
    }
    r
}

/// `d` is the installation folder that can stand for `conda_executable`: the
/// executable's path itself, its folder or the folder above.
pub open spec fn conda_dir_candidate(conda_executable: Option<String>, d: Seq<char>) -> bool {
    conda_executable matches Some(e) && (d == e@ || parent_of(e@) == Some(d)
        || crate::conda::environments::grandparent_of(e@) == Some(d))
}

/// Each of `answers` is the file system's answer to whether the path at the
/// same place of `paths` exists.
pub open spec fn existence_answers<F: FileSystem>(fs: &F, paths: Seq<Seq<char>>, answers: Seq<bool>) -> bool {
    &&& answers.len() == paths.len()
    &&& forall|k: int| 0 <= k < paths.len() ==> answered_exists(fs, #[trigger] paths[k], answers[k])
}

/// The paths of `paths` that exist, in order: those the file system answers
/// exist for (see [`keep_flagged`]).
pub fn keep_existing<F: FileSystem>(fs: &F, paths: Vec<String>) -> (r: Vec<String>)
    ensures
        forall|k: int| 0 <= k < r@.len() ==> string_views(paths@).contains(#[trigger] r@[k]@),
        r@.len() <= paths@.len(),
        picked_in_order(string_views(r@), string_views(paths@)),
        exists|exists_answers: Seq<bool>|
            exists_answers.len() == paths@.len() && string_views(r@) == #[trigger] flagged(
                string_views(paths@),
                exists_answers,
            ),
        exists|exists_answers: Seq<bool>|
            existence_answers(fs, string_views(paths@), exists_answers) && string_views(r@)
                == #[trigger] flagged(string_views(paths@), exists_answers),
{
    let mut answers: Vec<bool> = Vec::new();
    let mut i: usize = 0;
    while i < paths.len()
        invariant
            0 <= i <= paths@.len(),
            answers@.len() == i,
            forall|k: int| 0 <= k < i ==> answered_exists(fs, (#[trigger] paths@[k])@, answers@[k]),
        decreases paths.len() - i,
    {
        let p: &str = paths[i].as_str();
        let a = fs.path_exists(p);
        assert(answered_exists(fs, paths@[i as int]@, a));
        answers.push(a);
        i = i + 1;
    }
    let r = keep_flagged(&paths, &answers);
    proof {
        let sv = string_views(paths@);
        assert forall|k: int| 0 <= k < sv.len() implies answered_exists(fs, #[trigger] sv[k], answers@[k]) by {
            assert(sv[k] == paths@[k]@);
        }
        assert(existence_answers(fs, sv, answers@));
        let idx = lemma_flagged_picks(sv, answers@, sv.len() as int);
        assert(picks(string_views(r@), sv, idx));
        assert forall|k: int| 0 <= k < r@.len() implies sv.contains(#[trigger] r@[k]@) by {
            assert(sv[idx[k]] == string_views(r@)[k]);
        }
    }
    r
}

/// Each of `answers` is the file system's answer to whether the entry at the
/// same place of `entries` is a conda environment (its `conda-meta` a folder).
pub open spec fn env_answers<F: FileSystem>(fs: &F, entries: Seq<Seq<char>>, answers: Seq<bool>) -> bool {
    &&& answers.len() == entries.len()
    &&& forall|k: int|
        0 <= k < entries.len() ==> answered_is_dir(fs, join(#[trigger] entries[k], "conda-meta"@), answers[k])
}

/// The entries of `dir` that are conda environments: those of its listing for
/// which the file system answers that they are (see [`keep_flagged`]).
fn conda_envs_in<F: FileSystem>(fs: &F, dir: &str, out: &mut Vec<String>)
    ensures
        exists|entries: Seq<Seq<char>>, is_env_answers: Seq<bool>|
            is_env_answers.len() == entries.len() && string_views(final(out)@) == string_views(old(out)@)
                + #[trigger] flagged(entries, is_env_answers),
        exists|entries: Seq<Seq<char>>, is_env_answers: Seq<bool>|
            answered_listing(fs, dir@, entries) && env_answers(fs, entries, is_env_answers) && string_views(
                final(out)@,
            ) == string_views(old(out)@) + #[trigger] flagged(entries, is_env_answers),
{
    let d: &str = dir;
    let entries = fs.read_dir(d);
    assert(answered_listing(fs, dir@, string_views(entries@)));
    let mut answers: Vec<bool> = Vec::new();
    let mut i: usize = 0;
    while i < entries.len()
        invariant
            0 <= i <= entries@.len(),
            answers@.len() == i,
            forall|k: int|
                0 <= k < i ==> answered_is_dir(fs, join((#[trigger] entries@[k])@, "conda-meta"@), answers@[k]),
        decreases entries.len() - i,
    {
        answers.push(is_conda_env(fs, entries[i].as_str()));
        i = i + 1;
    }
    assert forall|k: int| 0 <= k < entries@.len() implies answered_is_dir(
        fs,
        join(#[trigger] string_views(entries@)[k], "conda-meta"@),
        answers@[k],
    ) by {
        assert(string_views(entries@)[k] == entries@[k]@);
    }
    let mut kept = keep_flagged(&entries, &answers);
    let ghost before = string_views(out@);
    let ghost kv = string_views(kept@);
    out.append(&mut kept);
    assert(string_views(out@) =~= before + kv);
    assert(string_views(entries@).len() == entries@.len());
}

/// The installation `conda_dir`, the environments in its `envs` folder and the
/// environment folders its `.condarc` lists.
fn push_install_envs<F: FileSystem>(fs: &F, conda_dir: &str, envs: &mut Vec<String>)
    ensures
        exists|listed: Seq<Seq<char>>|
            string_views(final(envs)@) == #[trigger] (string_views(old(envs)@).push(conda_dir@) + listed),
{
    let ghost start = string_views(envs@);
    envs.push(conda_dir.to_owned());
    let ghost first = string_views(envs@);
    assert(first =~= start.push(conda_dir@));
    let envs_dir = join_path(conda_dir, "envs");
    conda_envs_in(fs, envs_dir.as_str(), envs);
    let ghost second = string_views(envs@);
    let ghost l1 = second.subrange(first.len() as int, second.len() as int);
    assert(second =~= first + l1);
    match Condarc::from_path(fs, conda_dir) {
        Some(rc) => {
            let mut dirs = rc.env_dirs;
            let ghost dv = string_views(dirs@);
            let ghost pre = envs@;
            let ghost dd = dirs@;
            envs.append(&mut dirs);
            assert(envs@ =~= pre + dd);
            assert(string_views(envs@) =~= second + dv);
            assert(string_views(envs@) =~= start.push(conda_dir@) + (l1 + dv));
        },
        None => {
            assert(string_views(envs@) =~= start.push(conda_dir@) + l1);
        },
    }
}

/// The installation folder above a conda environment in an installation's
/// `envs` folder.
pub open spec fn install_above(d: Seq<char>) -> Option<Seq<char>> {
    match parent_of(d) {
        Some(p) => if last_component_is(p, "envs"@) {
            parent_of(p)
        } else {
            None
        },
        None => None,
    }
}

/// The environments found for `d`, before sorting, given the file system's
/// answers: for an installation, itself followed by what it lists (its `envs`
/// folder's environments and its configuration's folders); for an
/// environment, itself, and, when it lies in the `envs` folder of an
/// installation (`above_is_install`), that installation and what it lists;
/// otherwise what the listing of its `envs` folder (or of itself) holds.
pub open spec fn environments_shape(
    d: Seq<char>,
    is_install: bool,
    is_env: bool,
    above_is_install: bool,
    listed: Seq<Seq<char>>,
) -> Seq<Seq<char>> {
    if is_install {
        seq![d] + listed
    } else if is_env {
        seq![d] + match install_above(d) {
            Some(g) => if above_is_install {
                seq![g] + listed
            } else {
                Seq::<Seq<char>>::empty()
            },
            None => Seq::<Seq<char>>::empty(),
        }
    } else {
        listed
    }
}

/// The environments of the installation or environment folder `conda_dir` (see
/// [`environments_shape`]): the installation and its `envs`; the environment
/// itself, with the installation above it and its siblings when it lies in an
/// installation's `envs` folder; or the environments in its `envs` folder or in
/// the folder itself. In path order without repeats.
pub fn get_environments<F: FileSystem>(fs: &F, conda_dir: &str) -> (r: Vec<String>)
    ensures
        strictly_sorted(string_views(r@)),
        exists|is_install: bool, is_env: bool, above_is_install: bool, listed: Seq<Seq<char>>|
            #[trigger] holds_exactly(
                string_views(r@),
                environments_shape(conda_dir@, is_install, is_env, above_is_install, listed),
                Seq::<Seq<char>>::empty(),
            ),
        exists|is_install: bool, is_env: bool, above_is_install: bool, listed: Seq<Seq<char>>|
            #[trigger] holds_exactly(
                string_views(r@),
                environments_shape(conda_dir@, is_install, is_env, above_is_install, listed),
                Seq::<Seq<char>>::empty(),
            ) && install_answer(fs, conda_dir@, is_install) && (!is_install ==> answered_is_dir(
                fs,
                join(conda_dir@, "conda-meta"@),
                is_env,
            )) && (!is_install && is_env ==> (install_above(conda_dir@) matches Some(g)
                ==> install_answer(fs, g, above_is_install))),
{
    let mut envs: Vec<String> = Vec::new();
    let envs_dir = join_path(conda_dir, "envs");
    let is_install = is_conda_install(fs, conda_dir);
    let ghost mut is_env = false;
    let ghost mut above = false;
    let ghost mut listed: Seq<Seq<char>> = Seq::empty();
    assert(string_views(envs@) =~= Seq::<Seq<char>>::empty());
    if is_install {
        push_install_envs(fs, conda_dir, &mut envs);
        proof {
            listed = choose|l: Seq<Seq<char>>| string_views(envs@) == #[trigger] (Seq::<Seq<char>>::empty().push(conda_dir@) + l);
        }
    } else if {
        let e = is_conda_env(fs, conda_dir);
        proof {
            is_env = e;
        }
        e
    } {
        envs.push(conda_dir.to_owned());
        assert(string_views(envs@) =~= seq![conda_dir@]);
        match parent_path(conda_dir) {
            Some(parent) => {
                if ends_with_component(parent.as_str(), "envs") {
                    match parent_path(parent.as_str()) {
                        Some(install) => {
                            if {
                                let a = is_conda_install(fs, install.as_str());
                                proof {
                                    above = a;
                                }
                                a
                            } {
                                let ghost one = string_views(envs@);
                                push_install_envs(fs, install.as_str(), &mut envs);
                                proof {
                                    listed = choose|l: Seq<Seq<char>>| string_views(envs@) == #[trigger] (one.push(install@) + l);
                                    assert(string_views(envs@) =~= seq![conda_dir@] + (seq![install@] + listed));
                                }
                            }
                        },
                        None => {},
                    }
                }
            },
            None => {},
        }
    } else if fs.path_exists(envs_dir.as_str()) {
        conda_envs_in(fs, envs_dir.as_str(), &mut envs);
        proof {
            listed = string_views(envs@);
            assert(string_views(envs@) =~= Seq::<Seq<char>>::empty() + listed);
        }
    } else {
        conda_envs_in(fs, conda_dir, &mut envs);
        proof {
            listed = string_views(envs@);
        }
    }
    let ghost shape = environments_shape(conda_dir@, is_install, is_env, above, listed);
    assert(string_views(envs@) =~= shape);
    let r = sort_dedup_paths(envs);
    proof {
        let ev = string_views(envs@);
        assert forall|k: int| 0 <= k < shape.len() implies holds_path(string_views(r@), #[trigger] shape[k]) by {
            assert(envs@[k]@ == ev[k]);
        }
        assert forall|k: int| 0 <= k < r@.len() implies shape.contains(#[trigger] string_views(r@)[k])
            || Seq::<Seq<char>>::empty().contains(string_views(r@)[k]) by {
            let a = choose|a: int| 0 <= a < ev.len() && ev[a] == r@[k]@;
        }
        assert(holds_exactly(string_views(r@), shape, Seq::<Seq<char>>::empty()));
    }
    r
}

/// `r` holds the lines of `text` (none when there is no text) that the file
/// system answered exist (`answers`, one per line), in order.
pub open spec fn listed_envs_outcome<F: FileSystem>(
    fs: &F,
    text: Option<Seq<char>>,
    answers: Seq<bool>,
    r: Seq<Seq<char>>,
) -> bool {
    match text {
        None => r.len() == 0,
        Some(t) => existence_answers(fs, crate::text::lines_of(t), answers) && r == flagged(
            crate::text::lines_of(t),
            answers,
        ),
    }
}

/// The environments listed in `~/.conda/environments.txt` that exist: the lines
/// of the text the file system gave for that file, each kept when it answered
/// that the line's path exists, in order.
pub fn get_conda_envs_from_environment_txt<F: FileSystem>(fs: &F, env_vars: &EnvVariables) -> (r:
    Vec<String>)
    ensures
        env_vars.home is None ==> r@.len() == 0,
        env_vars.home matches Some(h) ==> exists|text: Option<Seq<char>>, answers: Seq<bool>|
            answered_text(fs, join(join(h@, ".conda"@), "environments.txt"@), text)
                && #[trigger] listed_envs_outcome(fs, text, answers, string_views(r@)),
{
    match &env_vars.home {
        Some(home) => {
            let file = join_path(join_path(home.as_str(), ".conda").as_str(), "environments.txt");
            let fp: &str = file.as_str();
            let text = fs.read_to_string(fp);
            let ghost tv = opt_view(text);
            assert(answered_text(fs, join(join(home@, ".conda"@), "environments.txt"@), tv));
            match text {
                Some(contents) => {
                    let lines = lines_exec(&str_to_chars(contents.as_str()));
                    let mut line_strings: Vec<String> = Vec::new();
                    let mut i: usize = 0;
                    while i < lines.len()
                        invariant
                            0 <= i <= lines@.len(),
                            string_views(line_strings@) == char_views(lines@).subrange(0, i as int),
                        decreases lines.len() - i,
                    {
                        let ghost before = string_views(line_strings@);
                        line_strings.push(chars_to_string(lines[i].as_slice()));
                        assert(string_views(line_strings@) =~= before.push(char_views(lines@)[i as int]));
                        assert(char_views(lines@).subrange(0, i + 1) =~= char_views(lines@).subrange(
                            0,
                            i as int,
                        ).push(char_views(lines@)[i as int]));
                        i = i + 1;
                    }
                    assert(char_views(lines@).subrange(0, lines@.len() as int) =~= char_views(lines@));
                    let r = keep_existing(fs, line_strings);
                    assert(tv == Some(contents@));
                    assert(char_views(lines@) == crate::text::lines_of(contents@));
                    let ghost a = choose|a: Seq<bool>|
                        existence_answers(fs, crate::text::lines_of(contents@), a) && string_views(r@)
                            == #[trigger] flagged(crate::text::lines_of(contents@), a);
                    assert(listed_envs_outcome(fs, tv, a, string_views(r@)));
                    r
                },
                None => {
                    let r: Vec<String> = Vec::new();
                    assert(listed_envs_outcome(fs, tv, Seq::<bool>::empty(), string_views(r@)));
                    r
                },
            }
        },
        None => Vec::new(),
    }
}

/// The environment folders that configuration files list, and the folders that
/// hold configuration.
pub fn get_conda_environment_paths_from_conda_rc<F: FileSystem>(
    fs: &F,
    env_vars: &EnvVariables,
    platform: Platform,
) -> Vec<String> {
    let mut env_dirs: Vec<String> = Vec::new();
    let places = get_conda_rc_search_paths(env_vars, platform);
    let mut i: usize = 0;
    while i < places.len()
        invariant
            0 <= i <= places@.len(),
        decreases places.len() - i,
    {
        let place = places[i].as_str();
        if fs.path_exists(place) {
            match Condarc::from_path(fs, place) {
                Some(rc) => {
                    let mut k: usize = 0;
                    while k < rc.env_dirs.len()
                        invariant
                            0 <= k <= rc.env_dirs@.len(),
                        decreases rc.env_dirs.len() - k,
                    {
                        if fs.path_exists(rc.env_dirs[k].as_str()) {
                            env_dirs.push(rc.env_dirs[k].clone());
                        }
                        k = k + 1;
                    }
                },
                None => {},
            }
            if fs.is_dir(place) {
                env_dirs.push(places[i].clone());
            } else if fs.is_file(place) {
                match parent_path(place) {
                    Some(p) => {
                        env_dirs.push(p);
                    },
                    None => {},
                }
            }
        }
        i = i + 1;
    }
    match Condarc::from(fs, env_vars, platform) {
        Some(rc) => {
            let mut dirs = rc.env_dirs;
            env_dirs.append(&mut dirs);
        },
        None => {},
    }
    env_dirs
}

/// The folders of a search-path list (`:`-separated, `;` on Windows).
pub fn split_search_paths(value: &str, platform: Platform) -> (r: Vec<String>)
    ensures
        string_views(r@) == crate::text::split_on(
            value@,
            if platform == Platform::Windows {
                ';'
            } else {
                ':'
            },
        ),
{
    let sep = if platform == Platform::Windows {
        ';'
    } else {
        ':'
    };
    let pieces = split_chars(&str_to_chars(value), sep);
    let mut out: Vec<String> = Vec::new();
    let mut i: usize = 0;
    while i < pieces.len()
        invariant
            0 <= i <= pieces@.len(),
            string_views(out@) == char_views(pieces@).subrange(0, i as int),
        decreases pieces.len() - i,
    {
        let ghost before = string_views(out@);
        out.push(chars_to_string(pieces[i].as_slice()));
        assert(string_views(out@) =~= before.push(pieces@[i as int]@));
        assert(char_views(pieces@)[i as int] == pieces@[i as int]@);
        assert(string_views(out@) =~= char_views(pieces@).subrange(0, i + 1));
        i = i + 1;
    }
    assert(char_views(pieces@).subrange(0, pieces@.len() as int) =~= char_views(pieces@));
    out
}

/// The known folders that may hold environments, relative to the home folder.
pub open spec fn known_env_folders() -> Seq<Seq<char>> {
    seq![
        ".conda/envs"@,
        "/opt/conda/envs"@,
        "C:/Anaconda/envs"@,
        "AppData/Local/conda/envs"@,
        "AppData/Local/conda/conda/envs"@,
        "envs"@,
        "my-envs"@,
    ]
}

/// The environment folders under the known places and the global search
/// folders, that exist, in path order without repeats.
pub fn get_conda_environment_paths_from_known_paths<F: FileSystem>(
    fs: &F,
    env_vars: &EnvVariables,
    platform: Platform,
) -> (r: Vec<String>)
    ensures
        env_vars.home is None ==> forall|k: int|
            0 <= k < r@.len() ==> string_views(env_vars.known_global_search_locations@).contains(
                #[trigger] r@[k]@,
            ),
{
    let mut env_paths: Vec<String> = Vec::new();
    match &env_vars.home {
        Some(home) => {
            let mut known: Vec<String> = Vec::new();
            let names: Vec<&'static str> = vec![
                ".conda/envs", "/opt/conda/envs", "C:/Anaconda/envs", "AppData/Local/conda/envs",
                "AppData/Local/conda/conda/envs", "envs", "my-envs"
            ];
            let mut i: usize = 0;
            while i < names.len()
                invariant
                    0 <= i <= names@.len(),
                decreases names.len() - i,
            {
                known.push(join_path(home.as_str(), names[i]));
                i = i + 1;
            }
            match &env_vars.conda_envs_path {
                Some(v) => {
                    let parts = split_search_paths(v.as_str(), platform);
                    let mut k: usize = 0;
                    while k < parts.len()
                        invariant
                            0 <= k <= parts@.len(),
                        decreases parts.len() - k,
                    {
                        known.push(expand_path(parts[k].as_str(), &env_vars.home, &env_vars.username));
                        k = k + 1;
                    }
                },
                None => {},
            }
            match &env_vars.anaconda_project_envs_path {
                Some(v) => {
                    let parts = split_search_paths(v.as_str(), platform);
                    let mut k: usize = 0;
                    while k < parts.len()
                        invariant
                            0 <= k <= parts@.len(),
                        decreases parts.len() - k,
                    {
                        known.push(expand_path(parts[k].as_str(), &env_vars.home, &env_vars.username));
                        k = k + 1;
                    }
                },
                None => {},
            }
            match &env_vars.project_dir {
                Some(d) => {
                    known.push(expand_path(d.as_str(), &env_vars.home, &env_vars.username));
                },
                None => {},
            }
            let mut j: usize = 0;
            while j < known.len()
                invariant
                    0 <= j <= known@.len(),
                decreases known.len() - j,
            {
                let entries = fs.read_dir(known[j].as_str());
                let mut e: usize = 0;
                while e < entries.len()
                    invariant
                        0 <= e <= entries@.len(),
                    decreases entries.len() - e,
                {
                    if fs.is_dir(entries[e].as_str()) {
                        env_paths.push(entries[e].clone());
                    }
                    e = e + 1;
                }
                j = j + 1;
            }
        },
        None => {},
    }
    let mut globals = crate::python_environment::copy_strings(&env_vars.known_global_search_locations);
    let ghost before = env_paths@;
    env_paths.append(&mut globals);
    proof {
        if env_vars.home is None {
            assert(env_paths@ =~= env_vars.known_global_search_locations@);
        }
    }
    let sorted = sort_dedup_paths(env_paths);
    let r = keep_existing(fs, sorted);
    proof {
        if env_vars.home is None {
            assert forall|k: int| 0 <= k < r@.len() implies string_views(
                env_vars.known_global_search_locations@,
            ).contains(#[trigger] r@[k]@) by {
                let j = choose|j: int| 0 <= j < sorted@.len() && string_views(sorted@)[j] == r@[k]@;
                assert(string_views(sorted@).contains(sorted@[j]@));
            }
        }
    }
    r
}

/// Every conda environment folder found through `environments.txt`, the
/// configuration files, the known places and the known installations; in path
/// order without repeats.
pub fn get_conda_environment_paths<F: FileSystem>(
    fs: &F,
    env_vars: &EnvVariables,
    conda_executable: &Option<String>,
    platform: Platform,
) -> (r: Vec<String>)
    ensures
        strictly_sorted(string_views(r@)),
{
    let mut all: Vec<String> = Vec::new();
    let mut a = get_conda_envs_from_environment_txt(fs, env_vars);
    let mut b = get_conda_environment_paths_from_conda_rc(fs, env_vars, platform);
    let mut c = get_conda_environment_paths_from_known_paths(fs, env_vars, platform);
    let mut d = get_known_conda_install_locations(fs, env_vars, conda_executable, platform);
    all.append(&mut a);
    all.append(&mut b);
    all.append(&mut c);
    all.append(&mut d);
    let folders = keep_existing(fs, sort_dedup_paths(all));
    let mut result: Vec<String> = Vec::new();
    let mut i: usize = 0;
    while i < folders.len()
        invariant
            0 <= i <= folders@.len(),
        decreases folders.len() - i,
    {
        let mut envs = get_environments(fs, folders[i].as_str());
        result.append(&mut envs);
        i = i + 1;
    }
    sort_dedup_paths(result)
}


} // verus!
