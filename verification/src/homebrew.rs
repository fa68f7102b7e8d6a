//! Homebrew Python installations: where Homebrew keeps its binaries, which
//! Cellar an executable resolves into, and the symlinks Homebrew makes to it.
use vstd::prelude::*;
use crate::locator::{Configuration, Locator, LocatorKind};
use crate::os_environment::{var_lookup, Environment, FileSystem, PythonProbe};
use crate::picking::{lemma_picks_push, picked_in_order, picks};
use crate::paths::{
    contains_path, file_name, file_name_of, holds_path, join, join_path, parent_path, path_starts_with,
    path_starts_with_exec, resolvable_name, resolve_symlink, same_path, sort_dedup_paths,
    strictly_sorted, string_views,
};
use crate::python_environment::PythonEnvironmentKind;
use crate::regexes::{capture_group, regex_capture};
use crate::text::{chars_to_string, str_to_chars};

verus! {

/// What the Homebrew locator reads of the environment.
#[derive(Debug, Clone)]
pub struct EnvVariables {
    pub home: Option<String>,
    pub root: Option<String>,
    /// `HOMEBREW_PREFIX`.
    pub homebrew_prefix: Option<String>,
}

impl EnvVariables {
    pub fn from(env: &Environment) -> (r: Self)
        ensures
            r.home == env.home,
            r.root == env.root,
            r.homebrew_prefix == var_lookup(env.vars@, "HOMEBREW_PREFIX"@),
    {
        EnvVariables {
            home: env.get_user_home(),
            root: env.get_root(),
            homebrew_prefix: env.get_env_var("HOMEBREW_PREFIX"),
        }
    }
}

/// The Homebrew locator.
#[derive(Debug, Clone)]
pub struct Homebrew {
    pub environment: EnvVariables,
}

impl Homebrew {
    pub fn from(environment: &Environment) -> (r: Homebrew)
        ensures
            r.environment.homebrew_prefix == var_lookup(environment.vars@, "HOMEBREW_PREFIX"@),
            r.environment.home == environment.home,
    {
        Homebrew { environment: EnvVariables::from(environment) }
    }
}

impl Locator for Homebrew {
    fn get_kind(&self) -> (r: LocatorKind)
        ensures
            r == LocatorKind::Homebrew,
    {
        LocatorKind::Homebrew
    }

    /// Homebrew takes nothing from the configuration.
    fn configure(&mut self, config: &Configuration)
        ensures
            final(self).environment.homebrew_prefix == old(self).environment.homebrew_prefix,
    {
    }

    fn supported_categories(&self) -> (r: Vec<PythonEnvironmentKind>)
        ensures
            r@ == seq![PythonEnvironmentKind::Homebrew],
    {
        let mut v: Vec<PythonEnvironmentKind> = Vec::new();
        v.push(PythonEnvironmentKind::Homebrew);
        v
    }
}

/// `a` followed by `b`.
fn cat(a: &str, b: &str) -> (r: String)
    ensures
        r@ == a@ + b@,
{
    let mut out = str_to_chars(a);
    let tail = str_to_chars(b);
    let ghost start = out@;
    let mut i: usize = 0;
    while i < tail.len()
        invariant
            0 <= i <= tail@.len(),
            out@ == start + tail@.subrange(0, i as int),
        decreases tail.len() - i,
    {
        out.push(tail[i]);
        assert(out@ =~= start + tail@.subrange(0, i + 1));
        i = i + 1;
    }
    assert(tail@.subrange(0, tail@.len() as int) =~= tail@);
    chars_to_string(out.as_slice())
}

/// The Homebrew folders that usually hold binaries, in the order searched.
pub open spec fn default_prefix_bins() -> Seq<Seq<char>> {
    seq!["/home/linuxbrew/.linuxbrew/bin"@, "/opt/homebrew/bin"@, "/usr/local/bin"@]
}

/// Adds `candidate`, one of the usual binary folders, when it exists.
fn push_if_exists<F: FileSystem>(fs: &F, bins: &mut Vec<String>, candidate: &str)
    requires
        default_prefix_bins().contains(candidate@),
        forall|k: int| 0 <= k < old(bins)@.len() ==> default_prefix_bins().contains(#[trigger] old(bins)@[k]@),
        old(bins)@.len() < 3,
    ensures
        forall|k: int| 0 <= k < final(bins)@.len() ==> default_prefix_bins().contains(#[trigger] final(bins)@[k]@),
        final(bins)@.len() <= old(bins)@.len() + 1,
        string_views(final(bins)@) == string_views(old(bins)@) || string_views(final(bins)@)
            == string_views(old(bins)@).push(candidate@),
{
    if fs.path_exists(candidate) {
        let ghost before = string_views(bins@);
        bins.push(chars_to_string(str_to_chars(candidate).as_slice()));
        assert(string_views(bins@) =~= before.push(candidate@));
        assert forall|k: int| 0 <= k < bins@.len() implies default_prefix_bins().contains(#[trigger] bins@[k]@) by {
            if k < old(bins)@.len() {
                assert(bins@[k] == old(bins)@[k]);
            }
        }
    }
}

/// Homebrew's binary folders that exist: the usual ones (Apple silicon, Intel
/// macOS, Linux), then `$HOMEBREW_PREFIX/bin` when it exists and is not one of them.
pub fn get_homebrew_prefix_bin<F: FileSystem>(fs: &F, env_vars: &EnvVariables) -> (r: Vec<String>)
    ensures
        forall|k: int|
            0 <= k < r@.len() ==> default_prefix_bins().contains(#[trigger] r@[k]@) || (
            env_vars.homebrew_prefix matches Some(p) && r@[k]@ == join(p@, "bin"@)),
        r@.len() <= 4,
        picked_in_order(string_views(r@), homebrew_bin_search(env_vars.homebrew_prefix)),
        forall|k: int|
            0 <= k < r@.len() && !default_prefix_bins().contains(#[trigger] r@[k]@) ==> forall|j: int|
                0 <= j < k ==> !same_path(r@[j]@, r@[k]@),
{
    let ghost search = homebrew_bin_search(env_vars.homebrew_prefix);
    let ghost mut idx: Seq<int> = Seq::empty();
    let mut bins: Vec<String> = Vec::new();
    assert(default_prefix_bins()[0] == "/home/linuxbrew/.linuxbrew/bin"@);
    assert(default_prefix_bins()[1] == "/opt/homebrew/bin"@);
    assert(default_prefix_bins()[2] == "/usr/local/bin"@);
    assert(string_views(bins@) =~= Seq::<Seq<char>>::empty());
    let ghost b0 = string_views(bins@);
    push_if_exists(fs, &mut bins, "/home/linuxbrew/.linuxbrew/bin");
    proof {
        if string_views(bins@).len() > b0.len() {
            lemma_picks_push(b0, search, idx, 0);
            idx = idx.push(0);
        }
    }
    let ghost b1 = string_views(bins@);
    push_if_exists(fs, &mut bins, "/opt/homebrew/bin");
    proof {
        if string_views(bins@).len() > b1.len() {
            lemma_picks_push(b1, search, idx, 1);
            idx = idx.push(1);
        }
    }
    let ghost b2 = string_views(bins@);
    push_if_exists(fs, &mut bins, "/usr/local/bin");
    proof {
        if string_views(bins@).len() > b2.len() {
            lemma_picks_push(b2, search, idx, 2);
            idx = idx.push(2);
        }
    }
    match &env_vars.homebrew_prefix {
        Some(prefix) => {
            let bin = join_path(prefix.as_str(), "bin");
            if fs.path_exists(bin.as_str()) && !contains_path(&bins, bin.as_str()) {
                let ghost b3 = string_views(bins@);
                let ghost v3 = bins@;
                proof {
                    lemma_picks_push(b3, search, idx, 3);
                    idx = idx.push(3);
                }
                bins.push(bin);
                assert(string_views(bins@) =~= b3.push(search[3]));
                assert forall|k: int|
                    0 <= k < bins@.len() && !default_prefix_bins().contains(#[trigger] bins@[k]@) implies forall|j: int|
                        0 <= j < k ==> !same_path(bins@[j]@, bins@[k]@) by {
                    if k < v3.len() {
                        assert(default_prefix_bins().contains(v3[k]@));
                    } else {
                        assert forall|j: int| 0 <= j < k implies !same_path(bins@[j]@, bins@[k]@) by {
                            assert(b3[j] == bins@[j]@);
                        }
                    }
                }
            }
        },
        None => {},
    }
    assert(picks(string_views(bins@), search, idx));
    bins
}

/// The binary folders looked at, in order: the usual ones, then
/// `$HOMEBREW_PREFIX/bin`.
pub open spec fn homebrew_bin_search(prefix: Option<String>) -> Seq<Seq<char>> {
    default_prefix_bins() + match prefix {
        Some(p) => seq![join(p@, "bin"@)],
        None => Seq::<Seq<char>>::empty(),
    }
}

/// The Cellar (where Homebrew installs formulae) a resolved executable lies in.
#[derive(Debug, Clone, Copy, PartialEq, Eq, Structural)]
pub enum Cellar {
    /// `/opt/homebrew/Cellar`, Apple silicon.
    OptHomebrew,
    /// `/usr/local/Cellar`, Intel macOS.
    UsrLocal,
    /// `/home/linuxbrew/.linuxbrew/Cellar`, Linux.
    Linuxbrew,
}

/// The Cellar `exe` lies in, if any.
pub open spec fn cellar_of(exe: Seq<char>) -> Option<Cellar> {
    if path_starts_with(exe, "/opt/homebrew/Cellar"@) {
        Some(Cellar::OptHomebrew)
    } else if path_starts_with(exe, "/usr/local/Cellar"@) {
        Some(Cellar::UsrLocal)
    } else if path_starts_with(exe, "/home/linuxbrew/.linuxbrew/Cellar"@) {
        Some(Cellar::Linuxbrew)
    } else {
        None
    }
}

fn cellar_of_exec(exe: &str) -> (r: Option<Cellar>)
    ensures
        r == cellar_of(exe@),
{
    if path_starts_with_exec(exe, "/opt/homebrew/Cellar") {
        Some(Cellar::OptHomebrew)
    } else if path_starts_with_exec(exe, "/usr/local/Cellar") {
        Some(Cellar::UsrLocal)
    } else if path_starts_with_exec(exe, "/home/linuxbrew/.linuxbrew/Cellar") {
        Some(Cellar::Linuxbrew)
    } else {
        None
    }
}

/// The pattern that finds the version in a Cellar path: `/python@<version>/`.
pub open spec fn version_pattern() -> Seq<char> {
    "/python@((\\d+\\.?)*)/"@
}

/// The places where Homebrew may have put symlinks to the executable of Python
/// `v` (from formula version `fv`) in the given Cellar, in the order checked.
pub open spec fn symlink_candidates(c: Cellar, v: Seq<char>, fv: Seq<char>) -> Seq<Seq<char>> {
    match c {
        Cellar::OptHomebrew => seq![
            "/opt/homebrew/bin/python"@ + v,
            "/opt/homebrew/opt/python@"@ + v + "/bin/python"@ + v,
            "/opt/homebrew/Cellar/python@"@ + v + "/"@ + fv + "/bin/python"@ + v,
            "/opt/homebrew/Cellar/python@"@ + v + "/"@ + fv + "/Frameworks/Python.framework/Versions/"@
                + v + "/bin/python"@ + v,
            "/opt/homebrew/Cellar/python@"@ + v + "/"@ + fv
                + "/Frameworks/Python.framework/Versions/Current/bin/python"@ + v,
            "/opt/homebrew/Frameworks/Python.framework/Versions/"@ + v + "/bin/python"@ + v,
            "/opt/homebrew/Frameworks/Python.framework/Versions/Current/bin/python"@ + v,
            "/opt/homebrew/opt/python3/bin/python"@ + v,
            "/opt/homebrew/bin/python3"@,
            "/opt/homebrew/bin/python"@,
        ],
        Cellar::UsrLocal => seq![
            "/usr/local/Cellar/python@"@ + v + "/"@ + fv + "/bin/python"@ + v,
            "/usr/local/Cellar/python@"@ + v + "/"@ + fv + "/Frameworks/Python.framework/Versions/"@
                + v + "/bin/python"@ + v,
            "/usr/local/bin/python"@ + v,
            "/usr/local/bin/python3"@,
            "/usr/local/bin/python"@,
        ],
        Cellar::Linuxbrew => seq![
            "/home/linuxbrew/.linuxbrew/bin/python"@ + v,
            "/home/linuxbrew/.linuxbrew/opt/python@"@ + v + "/bin/python"@ + v,
            "/usr/local/bin/python"@ + v,
            "/usr/local/bin/python3"@,
            "/usr/local/bin/python"@,
        ],
    }
}

fn push_text(v: &mut Vec<String>, s: String)
    ensures
        string_views(final(v)@) == string_views(old(v)@).push(s@),
{
    v.push(s);
    assert(string_views(v@) =~= string_views(old(v)@).push(s@));
}

/// Exec counterpart of [`symlink_candidates`].
fn symlink_candidates_exec(c: Cellar, v: &str, fv: &str) -> (r: Vec<String>)
    ensures
        string_views(r@) == symlink_candidates(c, v@, fv@),
{
    let mut out: Vec<String> = Vec::new();
    assert(string_views(out@) =~= Seq::<Seq<char>>::empty());
    match c {
        Cellar::OptHomebrew => {
            push_text(&mut out, cat("/opt/homebrew/bin/python", v));
            push_text(&mut out, cat(cat(cat("/opt/homebrew/opt/python@", v).as_str(), "/bin/python").as_str(), v));
            let cellar = cat(cat(cat("/opt/homebrew/Cellar/python@", v).as_str(), "/").as_str(), fv);
            push_text(&mut out, cat(cat(cellar.as_str(), "/bin/python").as_str(), v));
            push_text(
                &mut out,
                cat(
                    cat(cat(cat(cellar.as_str(), "/Frameworks/Python.framework/Versions/").as_str(), v).as_str(), "/bin/python").as_str(),
                    v,
                ),
            );
            push_text(
                &mut out,
                cat(cat(cellar.as_str(), "/Frameworks/Python.framework/Versions/Current/bin/python").as_str(), v),
            );
            push_text(
                &mut out,
                cat(cat(cat("/opt/homebrew/Frameworks/Python.framework/Versions/", v).as_str(), "/bin/python").as_str(), v),
            );
            push_text(&mut out, cat("/opt/homebrew/Frameworks/Python.framework/Versions/Current/bin/python", v));
            push_text(&mut out, cat("/opt/homebrew/opt/python3/bin/python", v));
            push_text(&mut out, cat("/opt/homebrew/bin/python3", ""));
            push_text(&mut out, cat("/opt/homebrew/bin/python", ""));
            proof {
                assert("/opt/homebrew/bin/python3"@ + ""@ =~= "/opt/homebrew/bin/python3"@) by {
                    reveal_strlit("");
                }
                assert("/opt/homebrew/bin/python"@ + ""@ =~= "/opt/homebrew/bin/python"@) by {
                    reveal_strlit("");
                }
            }
        },
        Cellar::UsrLocal => {
            let cellar = cat(cat(cat("/usr/local/Cellar/python@", v).as_str(), "/").as_str(), fv);
            push_text(&mut out, cat(cat(cellar.as_str(), "/bin/python").as_str(), v));
            push_text(
                &mut out,
                cat(
                    cat(cat(cat(cellar.as_str(), "/Frameworks/Python.framework/Versions/").as_str(), v).as_str(), "/bin/python").as_str(),
                    v,
                ),
            );
            push_text(&mut out, cat("/usr/local/bin/python", v));
            push_text(&mut out, cat("/usr/local/bin/python3", ""));
            push_text(&mut out, cat("/usr/local/bin/python", ""));
            proof {
                assert("/usr/local/bin/python3"@ + ""@ =~= "/usr/local/bin/python3"@) by {
                    reveal_strlit("");
                }
                assert("/usr/local/bin/python"@ + ""@ =~= "/usr/local/bin/python"@) by {
                    reveal_strlit("");
                }
            }
        },
        Cellar::Linuxbrew => {
            push_text(&mut out, cat("/home/linuxbrew/.linuxbrew/bin/python", v));
            push_text(
                &mut out,
                cat(cat(cat("/home/linuxbrew/.linuxbrew/opt/python@", v).as_str(), "/bin/python").as_str(), v),
            );
            push_text(&mut out, cat("/usr/local/bin/python", v));
            push_text(&mut out, cat("/usr/local/bin/python3", ""));
            push_text(&mut out, cat("/usr/local/bin/python", ""));
            proof {
                assert("/usr/local/bin/python3"@ + ""@ =~= "/usr/local/bin/python3"@) by {
                    reveal_strlit("");
                }
                assert("/usr/local/bin/python"@ + ""@ =~= "/usr/local/bin/python"@) by {
                    reveal_strlit("");
                }
            }
        },
    }
    assert(string_views(out@) =~= symlink_candidates(c, v@, fv@));
    out
}

/// `exe` followed by those of the first `n` candidates whose resolved path
/// (`resolved`, at the same position) is already in the list, in order.
pub open spec fn linked_upto(exe: Seq<char>, candidates: Seq<Seq<char>>, resolved: Seq<Seq<char>>, n: int) -> Seq<
    Seq<char>,
>
    decreases n,
{
    if n <= 0 {
        seq![exe]
    } else {
        let prev = linked_upto(exe, candidates, resolved, n - 1);
        if holds_path(prev, resolved[n - 1]) {
            prev.push(candidates[n - 1])
        } else {
            prev
        }
    }
}

/// `exe` followed by the candidates whose resolved path is already in the list.
pub open spec fn linked(exe: Seq<char>, candidates: Seq<Seq<char>>, resolved: Seq<Seq<char>>) -> Seq<Seq<char>> {
    linked_upto(exe, candidates, resolved, candidates.len() as int)
}

/// `exe` followed by each of `candidates` whose resolved path (`resolved`, at
/// the same position; empty when it has none) is already in the list, in order.
pub fn select_linked(exe: &str, candidates: &Vec<String>, resolved: &Vec<String>) -> (r: Vec<String>)
    requires
        resolved@.len() == candidates@.len(),
    ensures
        string_views(r@) == linked(exe@, string_views(candidates@), string_views(resolved@)),
{
    let ghost cv = string_views(candidates@);
    let ghost rv = string_views(resolved@);
    let mut out: Vec<String> = Vec::new();
    out.push(chars_to_string(str_to_chars(exe).as_slice()));
    assert(string_views(out@) =~= linked_upto(exe@, cv, rv, 0));
    let mut i: usize = 0;
    while i < candidates.len()
        invariant
            0 <= i <= candidates@.len(),
            resolved@.len() == candidates@.len(),
            cv == string_views(candidates@),
            rv == string_views(resolved@),
            string_views(out@) == linked_upto(exe@, cv, rv, i as int),
        decreases candidates.len() - i,
    {
        assert(rv[i as int] == resolved@[i as int]@);
        if contains_path(&out, resolved[i].as_str()) {
            let ghost before = string_views(out@);
            out.push(candidates[i].clone());
            assert(string_views(out@) =~= before.push(cv[i as int]));
        }
        i = i + 1;
    }
    out
}

/// What the known symlinks `r` of `exe` are, over the paths the candidate
/// places resolve to: none when `exe` lies in no Cellar or names no `python@`
/// version; else `exe` followed by the candidate places (see
/// [`symlink_candidates`]) whose resolved path is already in the list.
pub open spec fn known_symlinks_ok(exe: Seq<char>, full_version: Seq<char>, r: Seq<Seq<char>>) -> bool {
    match cellar_of(exe) {
        None => r.len() == 0,
        Some(c) => match regex_capture(version_pattern(), exe, 1) {
            None => r.len() == 0,
            Some(v) => exists|resolved: Seq<Seq<char>>|
                resolved.len() == symlink_candidates(c, v, full_version).len() && r == #[trigger] linked(
                    exe,
                    symlink_candidates(c, v, full_version),
                    resolved,
                ),
        },
    }
}

/// `res` is what the candidate place `cand` resolves to for the file system's
/// answers: the target [`symlink_target`] gives; else, for a Linux Cellar, its
/// canonical form; else nothing (the empty path).
pub open spec fn resolution_read<F: FileSystem>(fs: &F, c: Cellar, cand: Seq<char>, res: Seq<char>) -> bool {
    exists|is_link: bool, target: Option<Seq<char>>|
        #[trigger] crate::paths::symlink_answers(fs, cand, is_link, target) && match crate::paths::symlink_target(
            cand,
            is_link,
            target,
        ) {
            Some(x) => res == x,
            None => fallback_read(fs, c, cand, res),
        }
}

/// What a candidate place that is no symlink to elsewhere resolves to: for a
/// Linux Cellar its canonical form as the file system gave it (the empty path
/// when it gave none); otherwise the empty path.
pub open spec fn fallback_read<F: FileSystem>(fs: &F, c: Cellar, cand: Seq<char>, res: Seq<char>) -> bool {
    if c == Cellar::Linuxbrew {
        exists|canon: Option<Seq<char>>|
            #[trigger] crate::os_environment::answered_canonical(fs, cand, canon) && res == match canon {
                Some(u) => u,
                None => Seq::<char>::empty(),
            }
    } else {
        res == Seq::<char>::empty()
    }
}

/// [`known_symlinks_ok`], each candidate place resolved as the file system
/// answered (see [`resolution_read`]).
pub open spec fn known_symlinks_read<F: FileSystem>(fs: &F, exe: Seq<char>, full_version: Seq<char>, r: Seq<Seq<char>>) -> bool {
    match cellar_of(exe) {
        None => r.len() == 0,
        Some(c) => match regex_capture(version_pattern(), exe, 1) {
            None => r.len() == 0,
            Some(v) => exists|resolved: Seq<Seq<char>>|
                resolved.len() == symlink_candidates(c, v, full_version).len() && (forall|i: int|
                    0 <= i < resolved.len() ==> resolution_read(
                        fs,
                        c,
                        symlink_candidates(c, v, full_version)[i],
                        #[trigger] resolved[i],
                    )) && r == #[trigger] linked(exe, symlink_candidates(c, v, full_version), resolved),
        },
    }
}

proof fn lemma_known_from(
    exe: Seq<char>,
    fv: Seq<char>,
    r: Seq<Seq<char>>,
    c: Cellar,
    v: Seq<char>,
    resolved: Seq<Seq<char>>,
)
    requires
        cellar_of(exe) == Some(c),
        regex_capture(version_pattern(), exe, 1) == Some(v),
        resolved.len() == symlink_candidates(c, v, fv).len(),
        r == linked(exe, symlink_candidates(c, v, fv), resolved),
    ensures
        known_symlinks_ok(exe, fv, r),
{
    assert(exists|res: Seq<Seq<char>>|
        res.len() == symlink_candidates(c, v, fv).len() && r == #[trigger] linked(exe, symlink_candidates(c, v, fv), res));
    match cellar_of(exe) {
        Some(c2) => {
            assert(c2 == c);
            match regex_capture(version_pattern(), exe, 1) {
                Some(v2) => {
                    assert(v2 == v);
                },
                None => {
                    assert(false);
                },
            }
        },
        None => {
            assert(false);
        },
    }
}

/// The symlinks to the resolved executable `exe` that Homebrew made: none when
/// `exe` lies in no Cellar or its path names no `python@` version; otherwise
/// `exe` itself, then those of the places Homebrew may link from (see
/// [`symlink_candidates`]) that resolve to a path already in the list (for a
/// Linux Cellar, a place that is no symlink is resolved by canonicalizing it);
/// see [`select_linked`].
pub fn get_known_symlinks_impl<F: FileSystem>(fs: &F, exe: &str, full_version: &str) -> (r: Vec<String>)
    ensures
        known_symlinks_ok(exe@, full_version@, string_views(r@)),
        known_symlinks_read(fs, exe@, full_version@, string_views(r@)),
{
    let cellar = match cellar_of_exec(exe) {
        Some(c) => c,
        None => {
            return Vec::new();
        },
    };
    let version = match capture_group("/python@((\\d+\\.?)*)/", exe, 1) {
        Some(v) => v,
        None => {
            return Vec::new();
        },
    };
    assert(regex_capture(version_pattern(), exe@, 1) == Some(version@));
    let candidates = symlink_candidates_exec(cellar, version.as_str(), full_version);
    let mut resolved: Vec<String> = Vec::new();
    let mut i: usize = 0;
    while i < candidates.len()
        invariant
            0 <= i <= candidates@.len(),
            resolved@.len() == i,
            forall|k: int|
                0 <= k < i ==> resolution_read(fs, cellar, candidates@[k]@, (#[trigger] resolved@[k])@),
        decreases candidates.len() - i,
    {
        let candidate = &candidates[i];
        let cp: &str = candidate.as_str();
        let link_target = resolve_symlink(fs, cp);
        let ghost (is_link, ans) = choose|is_link: bool, target: Option<Seq<char>>|
            #[trigger] crate::paths::symlink_target(candidate@, is_link, target) == crate::text::opt_view(
                link_target,
            ) && crate::paths::symlink_answers(fs, candidate@, is_link, target);
        let target = match link_target {
            Some(t) => {
                assert(resolution_read(fs, cellar, candidate@, t@)) by {
                    assert(crate::paths::symlink_answers(fs, candidate@, is_link, ans));
                }
                t
            },
            None => {
                if cellar == Cellar::Linuxbrew {
                    let canon = fs.canonicalize(cp);
                    assert(crate::os_environment::answered_canonical(fs, candidate@, crate::text::opt_view(canon)));
                    let t = match canon {
                        Some(t) => t,
                        None => String::new(),
                    };
                    assert(resolution_read(fs, cellar, candidate@, t@)) by {
                        assert(crate::paths::symlink_answers(fs, candidate@, is_link, ans));
                        assert(crate::text::opt_view(canon) matches Some(u) ==> t@ == u);
                    }
                    t
                } else {
                    let t = String::new();
                    assert(resolution_read(fs, cellar, candidate@, t@)) by {
                        assert(crate::paths::symlink_answers(fs, candidate@, is_link, ans));
                    }
                    t
                }
            },
        };
        let ghost before = resolved@;
        resolved.push(target);
        assert forall|k: int| 0 <= k < i + 1 implies resolution_read(
            fs,
            cellar,
            candidates@[k]@,
            (#[trigger] resolved@[k])@,
        ) by {
            if k < i {
                assert(resolved@[k] == before[k]);
            }
        }
        i = i + 1;
    }
    let r = select_linked(exe, &candidates, &resolved);
    let ghost rv = string_views(resolved@);
    assert(rv.len() == resolved@.len() && string_views(candidates@).len() == candidates@.len());
    proof {
        lemma_known_from(exe@, full_version@, string_views(r@), cellar, version@, rv);
        let cv = symlink_candidates(cellar, version@, full_version@);
        assert(string_views(candidates@) == cv);
        assert forall|k: int| 0 <= k < rv.len() implies resolution_read(fs, cellar, cv[k], #[trigger] rv[k]) by {
            assert(cv[k] == candidates@[k]@);
            assert(rv[k] == resolved@[k]@);
        }
        assert(known_symlinks_read(fs, exe@, full_version@, string_views(r@)));
    }
    r
}

/// Where the executable `exe` stands for a Homebrew installation: the Homebrew
/// `bin` folder that Cellar (or Linuxbrew) links from, joined with `name`.
pub open spec fn homebrew_bin_exe(resolved: Seq<char>, name: Seq<char>) -> Option<Seq<char>> {
    if path_starts_with(resolved, "/opt/homebrew/Cellar"@) {
        Some(join("/opt/homebrew/bin"@, name))
    } else if path_starts_with(resolved, "/home/linuxbrew/.linuxbrew"@) {
        Some(join("/home/linuxbrew/.linuxbrew/bin"@, name))
    } else if path_starts_with(resolved, "/usr/local/Cellar"@) {
        Some(join("/usr/local/bin"@, name))
    } else {
        None
    }
}

/// What identifying `executable` as a Homebrew Python needs: the executable in
/// Homebrew's `bin` folder and the file it resolves to. A virtual environment is
/// never one; otherwise the executable is resolved (kept as it is when it is no
/// symlink) and must lie under a Cellar, or under Linuxbrew.
pub fn homebrew_python_paths<F: FileSystem>(fs: &F, executable: &str, is_virtualenv: bool) -> (r:
    Option<(String, String)>)
    ensures
        is_virtualenv ==> r is None,
        r matches Some((bin_exe, resolved)) ==> crate::paths::file_name_of(executable@) matches Some(
            n,
        ) && homebrew_bin_exe(resolved@, n) == Some(bin_exe@),
{
    if is_virtualenv {
        return None;
    }
    let name = match file_name(executable) {
        Some(n) => n,
        None => {
            return None;
        },
    };
    let resolved = match resolve_symlink(fs, executable) {
        Some(t) => t,
        None => chars_to_string(str_to_chars(executable).as_slice()),
    };
    let bin = if path_starts_with_exec(resolved.as_str(), "/opt/homebrew/Cellar") {
        "/opt/homebrew/bin"
    } else if path_starts_with_exec(resolved.as_str(), "/home/linuxbrew/.linuxbrew") {
        "/home/linuxbrew/.linuxbrew/bin"
    } else if path_starts_with_exec(resolved.as_str(), "/usr/local/Cellar") {
        "/usr/local/bin"
    } else {
        return None;
    };
    Some((join_path(bin, name.as_str()), resolved))
}

/// The symlinks to the resolved executable `exe` (see [`get_known_symlinks_impl`]),
/// with every executable in their folders that resolves to one of them; in path
/// order without repeats.
pub fn get_known_symlinks<F: FileSystem, X: PythonProbe>(
    fs: &F,
    probe: &X,
    exe: &str,
    full_version: &str,
) -> (r: Vec<String>)
    ensures
        strictly_sorted(string_views(r@)),
        exists|known: Seq<Seq<char>>| {
            &&& #[trigger] known_symlinks_ok(exe@, full_version@, known)
            &&& forall|j: int| 0 <= j < known.len() ==> holds_path(string_views(r@), #[trigger] known[j])
            &&& forall|k: int|
                0 <= k < r@.len() ==> known.contains(#[trigger] r@[k]@) || (file_name_of(r@[k]@) matches Some(n)
                    && resolvable_name(n))
        },
{
    let known = get_known_symlinks_impl(fs, exe, full_version);
    let ghost kv = string_views(known@);
    let mut all = crate::python_environment::copy_strings(&known);
    assert forall|k: int| 0 <= k < all@.len() implies kv.contains(#[trigger] all@[k]@) || (file_name_of(all@[k]@)
        matches Some(n) && resolvable_name(n)) by {
        assert(kv[k] == all@[k]@);
    }
    let mut i: usize = 0;
    while i < known.len()
        invariant
            0 <= i <= known@.len(),
            kv == string_views(known@),
            all@.len() >= known@.len(),
            forall|j: int| 0 <= j < known@.len() ==> #[trigger] all@[j] == known@[j],
            forall|k: int|
                0 <= k < all@.len() ==> kv.contains(#[trigger] all@[k]@) || (file_name_of(all@[k]@) matches Some(n)
                    && resolvable_name(n)),
        decreases known.len() - i,
    {
        match parent_path(known[i].as_str()) {
            Some(bin) => {
                let found = probe.find_executables(bin.as_str());
                let mut j: usize = 0;
                while j < found.len()
                    invariant
                        0 <= j <= found@.len(),
                        kv == string_views(known@),
                        all@.len() >= known@.len(),
                        forall|m: int| 0 <= m < known@.len() ==> #[trigger] all@[m] == known@[m],
                        forall|k: int|
                            0 <= k < all@.len() ==> kv.contains(#[trigger] all@[k]@) || (file_name_of(
                                all@[k]@,
                            ) matches Some(n) && resolvable_name(n)),
                    decreases found.len() - j,
                {
                    match resolve_symlink(fs, found[j].as_str()) {
                        Some(target) => {
                            if crate::paths::holds_text(&known, target.as_str()) {
                                let ghost before = all@;
                                all.push(found[j].clone());
                                assert forall|k: int| 0 <= k < all@.len() implies kv.contains(#[trigger] all@[k]@)
                                    || (file_name_of(all@[k]@) matches Some(n) && resolvable_name(n)) by {
                                    if k < before.len() {
                                        assert(all@[k] == before[k]);
                                    }
                                }
                                assert forall|m: int| 0 <= m < known@.len() implies #[trigger] all@[m] == known@[m] by {
                                    assert(all@[m] == before[m]);
                                }
                            }
                        },
                        None => {},
                    }
                    j = j + 1;
                }
            },
            None => {},
        }
        i = i + 1;
    }
    let r = sort_dedup_paths(all);
    assert forall|j: int| 0 <= j < kv.len() implies holds_path(string_views(r@), #[trigger] kv[j]) by {
        assert(all@[j]@ == kv[j]);
    }
    assert forall|k: int| 0 <= k < r@.len() implies kv.contains(#[trigger] r@[k]@) || (file_name_of(r@[k]@) matches Some(n)
        && resolvable_name(n)) by {
        let a = choose|a: int| 0 <= a < all@.len() && string_views(all@)[a] == r@[k]@;
        assert(string_views(all@)[a] == all@[a]@);
    }
    r
}

} // verus!
