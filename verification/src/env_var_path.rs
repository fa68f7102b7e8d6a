//! The folders on the search path, and the folders where global virtual
//! environments are usually kept.
use vstd::prelude::*;
use crate::conda::utils::is_conda_env;
use crate::picking::{lemma_picks_push, picked_in_order, picks};
use crate::os_environment::{answered_exists, answered_is_dir, answered_listing, Environment, FileSystem, Platform};
use crate::paths::{
    contains_path, holds_path, join, join_path, join_path_with, join_with, path_starts_with,
    path_starts_with_exec, sort_dedup_paths, strictly_sorted, string_views,
};
use crate::text::{chars_to_string, str_to_chars};

verus! {

/// What searching the path reads of the environment.
#[derive(Debug, Clone)]
pub struct EnvVariables {
    pub home: Option<String>,
    pub known_global_search_locations: Vec<String>,
}

impl EnvVariables {
    pub fn from(env: &Environment) -> (r: Self)
        ensures
            r.home == env.home,
            r.known_global_search_locations@ == env.global_search_locations@,
    {
        EnvVariables {
            home: env.get_user_home(),
            known_global_search_locations: env.get_know_global_search_locations(),
        }
    }
}

/// The per-user folder of Windows Store app aliases, whose executables only
/// point elsewhere.
pub open spec fn windows_apps_dir(home: Seq<char>, platform: Platform) -> Seq<char> {
    let sep = if platform == Platform::Windows {
        '\\'
    } else {
        '/'
    };
    join_with(
        join_with(join_with(join_with(home, "AppData"@, sep), "Local"@, sep), "Microsoft"@, sep),
        "WindowsApps"@,
        sep,
    )
}

/// A search folder made comparable: symlinks resolved on Unix (merged-`/usr`
/// systems link `/bin` to `/usr/bin`); kept as it is on Windows, where resolving
/// would follow junctions that tools such as Scoop rely on.
fn normalize_search_path<F: FileSystem>(fs: &F, path: &String, platform: Platform) -> (r: String)
    ensures
        platform == Platform::Windows ==> r@ == path@,
        platform != Platform::Windows ==> resolved_as(fs, path@, r@),
{
    if platform == Platform::Windows {
        return path.clone();
    }
    let pp: &str = path.as_str();
    let canon = fs.canonicalize(pp);
    assert(crate::os_environment::answered_canonical(fs, path@, crate::text::opt_view(canon)));
    match canon {
        Some(p) => p,
        None => path.clone(),
    }
}

/// `resolved` is `path` as the file system resolved it: the canonical form it
/// gave, or `path` itself when it gave none.
pub open spec fn resolved_as<F: FileSystem>(fs: &F, path: Seq<char>, resolved: Seq<char>) -> bool {
    exists|t: Option<Seq<char>>|
        #[trigger] crate::os_environment::answered_canonical(fs, path, t) && resolved == match t {
            Some(x) => x,
            None => path,
        }
}

/// No two of the paths are the same path.
pub open spec fn no_repeated_paths(s: Seq<Seq<char>>) -> bool {
    forall|i: int, j: int|
        0 <= i < j < s.len() ==> !crate::paths::same_path(#[trigger] s[i], #[trigger] s[j])
}

/// `s` without the paths under `dir`, the first of each set of equal paths kept.
pub open spec fn kept_search_paths(s: Seq<Seq<char>>, dir: Seq<char>) -> Seq<Seq<char>>
    decreases s.len(),
{
    if s.len() == 0 {
        seq![]
    } else {
        let prev = kept_search_paths(s.drop_last(), dir);
        let p = s.last();
        if holds_path(prev, p) || path_starts_with(p, dir) {
            prev
        } else {
            prev.push(p)
        }
    }
}

/// The known search folders, normalized, without repeats and without the Windows
/// Store alias folder; none when the home folder is unknown. Off Windows each
/// known folder is first resolved as the file system answers (kept as it is
/// where it cannot be); on Windows nothing is resolved.
#[verifier::loop_isolation(false)]
pub fn get_search_paths_from_env_variables<F: FileSystem>(
    fs: &F,
    environment: &Environment,
    platform: Platform,
) -> (r: Vec<String>)
    ensures
        environment.home is None ==> r@.len() == 0,
        environment.home matches Some(h) ==> forall|k: int|
            0 <= k < r@.len() ==> !path_starts_with(
                #[trigger] r@[k]@,
                windows_apps_dir(h@, platform),
            ),
        platform == Platform::Windows ==> (environment.home matches Some(h) ==> string_views(r@)
            == kept_search_paths(string_views(environment.global_search_locations@), windows_apps_dir(h@, platform))),
        environment.home matches Some(h) ==> exists|resolved: Seq<Seq<char>>|
            resolved.len() == environment.global_search_locations@.len() && #[trigger] kept_search_paths(
                resolved,
                windows_apps_dir(h@, platform),
            ) == string_views(r@),
        platform != Platform::Windows ==> (environment.home matches Some(h) ==> exists|resolved: Seq<Seq<char>>|
            resolved.len() == environment.global_search_locations@.len() && #[trigger] kept_search_paths(
                resolved,
                windows_apps_dir(h@, platform),
            ) == string_views(r@) && forall|i: int|
                0 <= i < resolved.len() ==> resolved_as(
                    fs,
                    environment.global_search_locations@[i]@,
                    #[trigger] resolved[i],
                )),
        r@.len() <= environment.global_search_locations@.len(),
        no_repeated_paths(string_views(r@)),
{
    let home = match environment.get_user_home() {
        Some(h) => h,
        None => {
            return Vec::new();
        },
    };
    let sep = if platform == Platform::Windows {
        '\\'
    } else {
        '/'
    };
    let apps = join_path_with(
        join_path_with(
            join_path_with(join_path_with(home.as_str(), "AppData", sep).as_str(), "Local", sep).as_str(),
            "Microsoft",
            sep,
        ).as_str(),
        "WindowsApps",
        sep,
    );
    let locations = environment.get_know_global_search_locations();
    let ghost lv = string_views(locations@);
    let ghost mut resolved: Seq<Seq<char>> = Seq::empty();
    let mut out: Vec<String> = Vec::new();
    let mut i: usize = 0;
    assert(lv.subrange(0, 0) =~= Seq::<Seq<char>>::empty());
    assert(string_views(out@) =~= Seq::<Seq<char>>::empty());
    while i < locations.len()
        invariant
            0 <= i <= locations@.len(),
            lv == string_views(locations@),
            out@.len() <= i,
            forall|k: int| 0 <= k < out@.len() ==> !path_starts_with(#[trigger] out@[k]@, apps@),
            no_repeated_paths(string_views(out@)),
            platform == Platform::Windows ==> resolved == lv.subrange(0, i as int),
            resolved.len() == i,
            string_views(out@) == kept_search_paths(resolved, apps@),
            platform != Platform::Windows ==> forall|k: int|
                0 <= k < i ==> resolved_as(fs, locations@[k]@, #[trigger] resolved[k]),
        decreases locations.len() - i,
    {
        let p = normalize_search_path(fs, &locations[i], platform);
        let ghost before_resolved = resolved;
        proof {
            resolved = resolved.push(p@);
            assert(resolved.drop_last() =~= before_resolved);
        }
        let ghost prefix = lv.subrange(0, i as int);
        let ghost next = lv.subrange(0, i + 1);
        assert(next.drop_last() =~= prefix);
        assert(next.last() == locations@[i as int]@);
        let seen = contains_path(&out, p.as_str());
        let under_apps = path_starts_with_exec(p.as_str(), apps.as_str());
        if !seen && !under_apps {
            let ghost before = out@;
            out.push(p);
            assert(string_views(out@) =~= string_views(before).push(out@[before.len() as int]@));
            assert forall|k: int| 0 <= k < out@.len() implies !path_starts_with(#[trigger] out@[k]@, apps@) by {
                if k < before.len() {
                    assert(out@[k] == before[k]);
                }
            }
            assert forall|a: int, b: int| 0 <= a < b < string_views(out@).len() implies !crate::paths::same_path(
                #[trigger] string_views(out@)[a],
                #[trigger] string_views(out@)[b],
            ) by {
                if b < before.len() {
                    assert(string_views(out@)[a] == string_views(before)[a]);
                    assert(string_views(out@)[b] == string_views(before)[b]);
                } else {
                    assert(string_views(out@)[a] == string_views(before)[a]);
                    if crate::paths::same_path(string_views(before)[a], string_views(out@)[b]) {
                        assert(holds_path(string_views(before), string_views(out@)[b]));
                    }
                }
            }
        }
        i = i + 1;
    }
    assert(lv.subrange(0, locations@.len() as int) =~= lv);
    assert(apps@ == windows_apps_dir(home@, platform));
    assert(resolved.len() == environment.global_search_locations@.len());
    assert(kept_search_paths(resolved, windows_apps_dir(home@, platform)) == string_views(out@));
    out
}

/// The folders looked at for global virtual environments, in order: `w`, then
/// the candidates under the home folder `h` and, on Linux, `Envs`.
pub open spec fn global_venv_search(w: Option<String>, h: Option<String>, platform: Platform) -> Seq<Seq<char>> {
    (match w {
        Some(w) => seq![w@],
        None => Seq::<Seq<char>>::empty(),
    }) + match h {
        Some(h) => global_venv_candidates(h@) + if platform == Platform::Linux {
            seq!["Envs"@]
        } else {
            Seq::<Seq<char>>::empty()
        },
        None => Seq::<Seq<char>>::empty(),
    }
}

/// `roots` are the folders among `search` that the file system said exist: each
/// was answered as existing, and each folder of `search` not among them was
/// answered as missing.
pub open spec fn venv_roots_found<F: FileSystem>(fs: &F, search: Seq<Seq<char>>, roots: Seq<Seq<char>>) -> bool {
    &&& forall|k: int|
        0 <= k < roots.len() ==> search.contains(#[trigger] roots[k]) && answered_exists(fs, roots[k], true)
    &&& forall|j: int|
        0 <= j < search.len() ==> roots.contains(#[trigger] search[j]) || answered_exists(fs, search[j], false)
}

/// The folders that hold global virtual environments, as the usual tools make
/// them: `$WORKON_HOME` (normalized by the caller), then `envs`, `.direnv`,
/// `.venvs`, `.virtualenvs` and `.local/share/virtualenvs` under the home folder,
/// and, on Linux, `Envs` in the current folder; each only when it exists.
pub fn get_global_virtualenv_dirs<F: FileSystem>(
    fs: &F,
    work_on_home: Option<String>,
    user_home: Option<String>,
    platform: Platform,
) -> (r: Vec<String>)
    ensures
        forall|k: int|
            0 <= k < r@.len() ==> (work_on_home matches Some(w) && (#[trigger] r@[k])@ == w@) || (
            user_home matches Some(h) && global_venv_candidates(h@).contains(r@[k]@)) || (platform
                == Platform::Linux && user_home is Some && r@[k]@ == "Envs"@),
        r@.len() <= 7,
        picked_in_order(string_views(r@), global_venv_search(work_on_home, user_home, platform)),
        venv_roots_found(fs, global_venv_search(work_on_home, user_home, platform), string_views(r@)),
{
    let ghost search = global_venv_search(work_on_home, user_home, platform);
    let ghost wlen: int = if work_on_home is Some { 1 } else { 0 };
    let ghost mut idx: Seq<int> = Seq::empty();
    let mut dirs: Vec<String> = Vec::new();
    proof {
        assert(string_views(dirs@) =~= Seq::<Seq<char>>::empty());
    }
    match work_on_home {
        Some(w) => {
            let wp: &str = w.as_str();
            let found = fs.path_exists(wp);
            assert(answered_exists(fs, w@, found));
            if found {
                proof {
                    lemma_picks_push(string_views(dirs@), search, idx, 0);
                    idx = idx.push(0);
                }
                let ghost before = string_views(dirs@);
                dirs.push(w);
                assert(string_views(dirs@) =~= before.push(search[0]));
            }
        },
        None => {},
    }
    match &user_home {
        Some(home) => {
            let ghost hv = home@;
            let ghost start = dirs@;
            let candidates = global_venv_candidates_exec(home.as_str());
            assert(string_views(candidates@).len() == candidates@.len());
            let mut i: usize = 0;
            while i < candidates.len()
                invariant
                    0 <= i <= candidates@.len(),
                    string_views(candidates@) == global_venv_candidates(hv),
                    dirs@.len() <= start.len() + i,
                    start.len() <= 1,
                    candidates@.len() == 5,
                    user_home == Some(*home),
                    hv == home@,
                    search == global_venv_search(work_on_home, user_home, platform),
                    wlen == (if work_on_home is Some { 1int } else { 0int }),
                    picks(string_views(dirs@), search, idx),
                    forall|k: int| 0 <= k < idx.len() ==> #[trigger] idx[k] < wlen + i,
                    forall|k: int|
                        0 <= k < dirs@.len() ==> (work_on_home matches Some(w) && (#[trigger] dirs@[k])@
                            == w@) || global_venv_candidates(hv).contains(dirs@[k]@),
                    forall|k: int| 0 <= k < dirs@.len() ==> answered_exists(fs, (#[trigger] dirs@[k])@, true),
                    forall|j: int|
                        0 <= j < wlen + i ==> string_views(dirs@).contains(#[trigger] search[j])
                            || answered_exists(fs, search[j], false),
                decreases candidates.len() - i,
            {
                let ghost d0 = string_views(dirs@);
                let cp: &str = candidates[i].as_str();
                let found = fs.path_exists(cp);
                assert(search[wlen + i] == global_venv_candidates(hv)[i as int]);
                assert(string_views(candidates@)[i as int] == candidates@[i as int]@);
                assert(answered_exists(fs, search[wlen + i], found));
                if found {
                    let ghost before = dirs@;
                    proof {
                        assert(search[wlen + i] == global_venv_candidates(hv)[i as int]);
                        lemma_picks_push(string_views(dirs@), search, idx, wlen + i);
                        idx = idx.push(wlen + i);
                    }
                    dirs.push(candidates[i].clone());
                    assert(string_views(dirs@) =~= string_views(before).push(search[wlen + i]));
                    assert(string_views(candidates@)[i as int] == candidates@[i as int]@);
                    assert forall|k: int| 0 <= k < dirs@.len() implies (work_on_home matches Some(w)
                        && (#[trigger] dirs@[k])@ == w@) || global_venv_candidates(hv).contains(
                        dirs@[k]@,
                    ) by {
                        if k < before.len() {
                            assert(dirs@[k] == before[k]);
                        }
                    }
                }
                proof {
                    let d1 = string_views(dirs@);
                    assert forall|j: int| 0 <= j < wlen + i + 1 implies d1.contains(#[trigger] search[j])
                        || answered_exists(fs, search[j], false) by {
                        if j < wlen + i {
                            if d0.contains(search[j]) {
                                lemma_prefix_contains(d0, d1, search[j]);
                            }
                        } else if found {
                            assert(d1[d1.len() - 1] == search[j]);
                        }
                    }
                }
                i = i + 1;
            }
            let envs_found = platform == Platform::Linux && {
                let ep: &str = "Envs";
                let f = fs.path_exists(ep);
                proof {
                    reveal_strlit("Envs");
                }
                assert(answered_exists(fs, "Envs"@, f));
                f
            };
            let ghost d0 = string_views(dirs@);
            if envs_found {
                let ghost before = dirs@;
                proof {
                    assert(search[wlen + 5] == "Envs"@);
                    lemma_picks_push(string_views(dirs@), search, idx, wlen + 5);
                    idx = idx.push(wlen + 5);
                }
                dirs.push(chars_to_string(str_to_chars("Envs").as_slice()));
                assert(string_views(dirs@) =~= string_views(before).push(search[wlen + 5]));
                assert forall|k: int| 0 <= k < dirs@.len() implies (work_on_home matches Some(w) && (
                #[trigger] dirs@[k])@ == w@) || (user_home matches Some(h)
                    && global_venv_candidates(h@).contains(dirs@[k]@)) || (platform == Platform::Linux
                    && user_home is Some && dirs@[k]@ == "Envs"@) by {
                    if k < before.len() {
                        assert(dirs@[k] == before[k]);
                    }
                }
            }
            proof {
                let d1 = string_views(dirs@);
                assert forall|j: int| 0 <= j < search.len() implies d1.contains(#[trigger] search[j])
                    || answered_exists(fs, search[j], false) by {
                    if j < wlen + 5 {
                        if d0.contains(search[j]) {
                            lemma_prefix_contains(d0, d1, search[j]);
                        }
                    } else if envs_found {
                        assert(d1[d1.len() - 1] == search[j]);
                    }
                }
            }
        },
        None => {},
    }
    assert(picks(string_views(dirs@), search, idx));
    proof {
        let d = string_views(dirs@);
        assert forall|k: int| 0 <= k < d.len() implies search.contains(#[trigger] d[k]) && answered_exists(
            fs,
            d[k],
            true,
        ) by {
            assert(search[idx[k]] == d[k]);
        }
    }
    dirs
}

/// What `a` holds, `b` holds when `a` is a prefix of it.
proof fn lemma_prefix_contains(a: Seq<Seq<char>>, b: Seq<Seq<char>>, x: Seq<char>)
    requires
        a.len() <= b.len(),
        forall|k: int| 0 <= k < a.len() ==> a[k] == b[k],
        a.contains(x),
    ensures
        b.contains(x),
{
    let k = choose|k: int| 0 <= k < a.len() && a[k] == x;
    assert(b[k] == x);
}

/// The folders under the home folder `h` where global virtual environments are kept.
pub open spec fn global_venv_candidates(h: Seq<char>) -> Seq<Seq<char>> {
    seq![
        join(h, "envs"@),
        join(h, ".direnv"@),
        join(h, ".venvs"@),
        join(h, ".virtualenvs"@),
        join(h, ".local/share/virtualenvs"@),
    ]
}

fn global_venv_candidates_exec(h: &str) -> (r: Vec<String>)
    ensures
        string_views(r@) == global_venv_candidates(h@),
{
    let mut v: Vec<String> = Vec::new();
    v.push(join_path(h, "envs"));
    v.push(join_path(h, ".direnv"));
    v.push(join_path(h, ".venvs"));
    v.push(join_path(h, ".virtualenvs"));
    v.push(join_path(h, ".local/share/virtualenvs"));
    assert(string_views(v@) =~= global_venv_candidates(h@));
    v
}

/// `x` is an entry of one of the listings.
pub open spec fn listed_in(listings: Seq<Seq<Seq<char>>>, x: Seq<char>) -> bool {
    exists|i: int, e: int| 0 <= i < listings.len() && 0 <= e < listings[i].len() && #[trigger] listings[i][e] == x
}

/// The listings `listings` of the folders `roots` and the paths `r`: each
/// listing is one the file system gave for its folder; every listed entry is in
/// `r` unless it was answered as a conda environment (its `conda-meta` a
/// folder); and every path of `r` is a listed entry answered as not being one.
pub open spec fn non_conda_entries<F: FileSystem>(
    fs: &F,
    roots: Seq<Seq<char>>,
    listings: Seq<Seq<Seq<char>>>,
    r: Seq<Seq<char>>,
) -> bool {
    &&& listings.len() == roots.len()
    &&& forall|i: int| 0 <= i < roots.len() ==> answered_listing(fs, roots[i], #[trigger] listings[i])
    &&& forall|i: int, e: int|
        0 <= i < listings.len() && 0 <= e < listings[i].len() ==> holds_path(r, #[trigger] listings[i][e])
            || answered_is_dir(fs, join(listings[i][e], "conda-meta"@), true)
    &&& forall|k: int|
        0 <= k < r.len() ==> answered_is_dir(fs, join(#[trigger] r[k], "conda-meta"@), false) && listed_in(listings, r[k])
}

/// The entries of the global virtual environment folders that are not conda
/// environments, in path order without repeats.
pub fn list_global_virtual_envs_paths<F: FileSystem>(
    fs: &F,
    work_on_home: Option<String>,
    user_home: Option<String>,
    platform: Platform,
) -> (r: Vec<String>)
    ensures
        strictly_sorted(string_views(r@)),
        exists|roots: Seq<Seq<char>>, listings: Seq<Seq<Seq<char>>>|
            venv_roots_found(fs, global_venv_search(work_on_home, user_home, platform), roots)
                && #[trigger] non_conda_entries(fs, roots, listings, string_views(r@)),
{
    let ghost search = global_venv_search(work_on_home, user_home, platform);
    let roots = get_global_virtualenv_dirs(fs, work_on_home, user_home, platform);
    let ghost rv = string_views(roots@);
    let ghost mut listings: Seq<Seq<Seq<char>>> = Seq::empty();
    let mut envs: Vec<String> = Vec::new();
    let mut i: usize = 0;
    while i < roots.len()
        invariant
            0 <= i <= roots@.len(),
            rv == string_views(roots@),
            listings.len() == i,
            forall|ii: int| 0 <= ii < i ==> answered_listing(fs, rv[ii], #[trigger] listings[ii]),
            forall|ii: int, e: int|
                0 <= ii < i && 0 <= e < listings[ii].len() ==> string_views(envs@).contains(
                    #[trigger] listings[ii][e],
                ) || answered_is_dir(fs, join(listings[ii][e], "conda-meta"@), true),
            forall|k: int|
                0 <= k < envs@.len() ==> answered_is_dir(fs, join((#[trigger] envs@[k])@, "conda-meta"@), false)
                    && listed_in(listings, envs@[k]@),
        decreases roots.len() - i,
    {
        let rp: &str = roots[i].as_str();
        let entries = fs.read_dir(rp);
        let ghost ev = string_views(entries@);
        assert(rv[i as int] == roots@[i as int]@);
        assert(answered_listing(fs, rv[i as int], ev));
        let ghost l0 = listings;
        proof {
            listings = listings.push(ev);
        }
        assert forall|k: int| 0 <= k < envs@.len() implies listed_in(listings, (#[trigger] envs@[k])@) by {
            assert(listed_in(l0, envs@[k]@));
            let (ii, e) = choose|ii: int, e: int|
                0 <= ii < l0.len() && 0 <= e < l0[ii].len() && #[trigger] l0[ii][e] == envs@[k]@;
            assert(listings[ii] == l0[ii]);
            assert(listings[ii][e] == envs@[k]@);
        }
        assert forall|ii: int, e: int|
            0 <= ii < i && 0 <= e < listings[ii].len() implies string_views(envs@).contains(
                #[trigger] listings[ii][e],
            ) || answered_is_dir(fs, join(listings[ii][e], "conda-meta"@), true) by {
            assert(listings[ii] == l0[ii]);
        }
        let mut j: usize = 0;
        while j < entries.len()
            invariant
                0 <= j <= entries@.len(),
                0 <= i < roots@.len(),
                rv == string_views(roots@),
                ev == string_views(entries@),
                listings.len() == i + 1,
                listings[i as int] == ev,
                forall|ii: int| 0 <= ii < i + 1 ==> answered_listing(fs, rv[ii], #[trigger] listings[ii]),
                forall|ii: int, e: int|
                    0 <= ii < i && 0 <= e < listings[ii].len() ==> string_views(envs@).contains(
                        #[trigger] listings[ii][e],
                    ) || answered_is_dir(fs, join(listings[ii][e], "conda-meta"@), true),
                forall|e: int|
                    0 <= e < j ==> string_views(envs@).contains(#[trigger] ev[e]) || answered_is_dir(
                        fs,
                        join(ev[e], "conda-meta"@),
                        true,
                    ),
                forall|k: int|
                    0 <= k < envs@.len() ==> answered_is_dir(
                        fs,
                        join((#[trigger] envs@[k])@, "conda-meta"@),
                        false,
                    ) && listed_in(listings, envs@[k]@),
            decreases entries.len() - j,
        {
            let is_env = is_conda_env(fs, entries[j].as_str());
            assert(ev[j as int] == entries@[j as int]@);
            let ghost e0 = string_views(envs@);
            if !is_env {
                envs.push(entries[j].clone());
                proof {
                    let e1 = string_views(envs@);
                    assert(e1[e1.len() - 1] == ev[j as int]);
                    assert(listings[i as int][j as int] == envs@[envs@.len() - 1]@);
                    assert(listed_in(listings, envs@[envs@.len() - 1]@));
                    assert forall|ii: int, e: int|
                        0 <= ii < i && 0 <= e < listings[ii].len() && e0.contains(listings[ii][e]) implies e1.contains(
                        #[trigger] listings[ii][e],
                    ) by {
                        lemma_prefix_contains(e0, e1, listings[ii][e]);
                    }
                    assert forall|e: int| 0 <= e < j && e0.contains(ev[e]) implies e1.contains(#[trigger] ev[e]) by {
                        lemma_prefix_contains(e0, e1, ev[e]);
                    }
                    assert forall|k: int| 0 <= k < envs@.len() - 1 implies #[trigger] envs@[k] == envs@[k] by {}
                }
            }
            j = j + 1;
        }
        proof {
            assert forall|ii: int, e: int|
                0 <= ii < i + 1 && 0 <= e < listings[ii].len() implies string_views(envs@).contains(
                    #[trigger] listings[ii][e],
                ) || answered_is_dir(fs, join(listings[ii][e], "conda-meta"@), true) by {
                if ii == i {
                    assert(listings[ii][e] == ev[e]);
                }
            }
            assert forall|k: int| 0 <= k < envs@.len() implies answered_is_dir(
                fs,
                join((#[trigger] envs@[k])@, "conda-meta"@),
                false,
            ) by {}

        }
        i = i + 1;
    }
    assert(listings.len() == rv.len());
    let r = sort_dedup_paths(envs);
    proof {
        let rs = string_views(r@);
        let es = string_views(envs@);
        assert forall|ii: int, e: int|
            0 <= ii < listings.len() && 0 <= e < listings[ii].len() implies holds_path(rs, #[trigger] listings[ii][e])
                || answered_is_dir(fs, join(listings[ii][e], "conda-meta"@), true) by {
            if es.contains(listings[ii][e]) {
                let k = choose|k: int| 0 <= k < es.len() && es[k] == listings[ii][e];
                assert(holds_path(rs, envs@[k]@));
            }
        }
        assert forall|k: int| 0 <= k < rs.len() implies answered_is_dir(fs, join(#[trigger] rs[k], "conda-meta"@), false)
            && listed_in(listings, rs[k]) by {
            assert(es.contains(r@[k]@));
            let t = choose|t: int| 0 <= t < es.len() && es[t] == r@[k]@;
            assert(envs@[t]@ == rs[k]);
        }
        assert(listings.len() == rv.len());
        assert(forall|ii: int| 0 <= ii < rv.len() ==> answered_listing(fs, rv[ii], #[trigger] listings[ii]));
        assert(non_conda_entries(fs, rv, listings, rs));
    }
    r
}

} // verus!
