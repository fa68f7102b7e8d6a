//! Poetry's environment names and the environment folders of Poetry projects.
use vstd::prelude::*;
use crate::digest::{base64_url, base64_url_encode, sha256_of_text, sha256_utf8, to_lowercase, unicode_lowercase};
use crate::os_environment::{answered_is_dir, answered_listing, FileSystem};
use crate::picking::{flagged, keep_flagged};
use crate::paths::{file_name, file_name_of, join, join_path, string_views};
use crate::poetry::config::Config;
use crate::poetry::env_variables::EnvVariables;
use crate::poetry::pyproject_toml::PyProjectToml;
use crate::regexes::{regex_replace_all, replace_all};
use crate::text::{
    char_views, chars_eq, chars_to_string, drop_trailing, lines_exec, lines_of, opt_view,
    starts_with, starts_with_chars, str_to_chars, sub_chars, trim_chars, trim_end_char, trim_ws,
};

verus! {

/// The characters Poetry replaces in a project name.
pub open spec fn sanitize_pattern() -> Seq<char> {
    "[ $`!*@\"\\\r\n\t]"@
}

/// The prefix of the names of a project's environments: its lower-cased,
/// sanitized name (at most 42 characters), `-`, the first 8 characters of the
/// URL-safe base64 SHA-256 of its folder, and `-py`.
pub open spec fn env_name_prefix(name: Seq<char>, cwd: Seq<char>) -> Seq<char> {
    let sanitized = regex_replace_all(sanitize_pattern(), unicode_lowercase(name), "_"@);
    let hash = base64_url(sha256_utf8(cwd));
    sanitized.take(if sanitized.len() < 42 { sanitized.len() as int } else { 42 }) + "-"@ + hash.take(
        if hash.len() < 8 { hash.len() as int } else { 8 },
    ) + "-py"@
}

fn take_chars(s: &str, n: usize) -> (r: Vec<char>)
    ensures
        r@ == s@.take(if s@.len() < n { s@.len() as int } else { n as int }),
{
    let c = str_to_chars(s);
    let k = if c.len() < n { c.len() } else { n };
    sub_chars(&c, 0, k)
}

/// The environment-name prefix of the project `name` in the folder `cwd`.
pub fn generate_env_name(name: &str, cwd: &str) -> (r: String)
    ensures
        r@ == env_name_prefix(name@, cwd@),
{
    let lower = to_lowercase(name);
    let sanitized = replace_all("[ $`!*@\"\\\r\n\t]", lower.as_str(), "_");
    let mut out = take_chars(sanitized.as_str(), 42);
    let digest = sha256_of_text(cwd);
    let encoded = base64_url_encode(&digest);
    let hash = take_chars(encoded.as_str(), 8);
    crate::text::append_chars(&mut out, &str_to_chars("-"));
    crate::text::append_chars(&mut out, &hash);
    crate::text::append_chars(&mut out, &str_to_chars("-py"));
    chars_to_string(out.as_slice())
}

/// The folders in the environments' folder of a configuration: the entries its
/// listing gives that the file system answers are folders, in order (see
/// [`keep_flagged`]).
pub fn list_all_environments_from_config<F: FileSystem>(fs: &F, cfg: &Config) -> (r: Option<Vec<String>>)
    ensures
        r matches Some(v) && exists|entries: Seq<Seq<char>>, is_dir_answers: Seq<bool>|
            is_dir_answers.len() == entries.len() && string_views(v@) == #[trigger] flagged(entries, is_dir_answers),
        r matches Some(v) && exists|entries: Seq<Seq<char>>, is_dir_answers: Seq<bool>|
            answered_listing(fs, cfg.virtualenvs_path@, entries) && is_dir_answers.len() == entries.len()
                && (forall|k: int|
                0 <= k < entries.len() ==> answered_is_dir(fs, #[trigger] entries[k], is_dir_answers[k]))
                && string_views(v@) == #[trigger] flagged(entries, is_dir_answers),
{
    let vp: &str = cfg.virtualenvs_path.as_str();
    let entries = fs.read_dir(vp);
    assert(answered_listing(fs, cfg.virtualenvs_path@, string_views(entries@)));
    let mut answers: Vec<bool> = Vec::new();
    let mut i: usize = 0;
    while i < entries.len()
        invariant
            0 <= i <= entries@.len(),
            answers@.len() == i,
            forall|k: int| 0 <= k < i ==> answered_is_dir(fs, (#[trigger] entries@[k])@, answers@[k]),
        decreases entries.len() - i,
    {
        let ep: &str = entries[i].as_str();
        let a = fs.is_dir(ep);
        assert(answered_is_dir(fs, entries@[i as int]@, a));
        answers.push(a);
        i = i + 1;
    }
    let out = keep_flagged(&entries, &answers);
    assert(string_views(entries@).len() == entries@.len());
    assert forall|k: int| 0 <= k < entries@.len() implies answered_is_dir(
        fs,
        #[trigger] string_views(entries@)[k],
        answers@[k],
    ) by {
        assert(string_views(entries@)[k] == entries@[k]@);
    }
    Some(out)
}

/// The environment folders of the project at `path` with its own `poetry.toml`:
/// those in its environments' folder, and its `.venv` when environments are
/// created inside projects.
pub fn list_all_environments_from_project_config<F: FileSystem>(
    fs: &F,
    global: &Option<Config>,
    path: &str,
    env: &EnvVariables,
) -> (r: Option<Vec<String>>) {
    let config = match Config::find_local(fs, path, env) {
        Some(c) => c,
        None => {
            return None;
        },
    };
    let mut envs: Vec<String> = Vec::new();
    match list_all_environments_from_config(fs, &config) {
        Some(mut found) => {
            envs.append(&mut found);
        },
        None => {},
    }
    let global_in_project = match global {
        Some(g) => match g.virtualenvs_in_project {
            Some(b) => b,
            None => false,
        },
        None => false,
    };
    let local_in_project = match config.virtualenvs_in_project {
        Some(b) => b,
        None => false,
    };
    let env_in_project = match env.poetry_virtualenvs_in_project {
        Some(b) => b,
        None => false,
    };
    if local_in_project || global_in_project || env_in_project {
        let venv = join_path(path, ".venv");
        if fs.is_dir(venv.as_str()) {
            envs.push(venv);
        }
    }
    Some(envs)
}

/// The environment folders of the Poetry projects in `project_dirs`, each with its
/// project: the folders (from the project's or the global configuration) whose
/// names start with the project's environment-name prefix.
pub fn list_environments<F: FileSystem>(fs: &F, env: &EnvVariables, project_dirs: &Vec<String>) -> (r:
    Option<Vec<(String, String)>>)
    ensures
        r matches Some(v) && forall|k: int|
            0 <= k < v@.len() ==> project_dirs@.contains(#[trigger] v@[k].1),
{
    let mut envs: Vec<(String, String)> = Vec::new();
    let global_config = Config::find_global(fs, env);
    let global_envs: Vec<String> = match &global_config {
        Some(c) => match list_all_environments_from_config(fs, c) {
            Some(v) => v,
            None => Vec::new(),
        },
        None => Vec::new(),
    };
    let mut i: usize = 0;
    while i < project_dirs.len()
        invariant
            0 <= i <= project_dirs@.len(),
            forall|k: int| 0 <= k < envs@.len() ==> project_dirs@.contains(#[trigger] envs@[k].1),
        decreases project_dirs.len() - i,
    {
        let project_dir = &project_dirs[i];
        match PyProjectToml::find(fs, project_dir.as_str()) {
            Some(project) => {
                let prefix = generate_env_name(project.name.as_str(), project_dir.as_str());
                let candidates = match list_all_environments_from_project_config(
                    fs,
                    &global_config,
                    project_dir.as_str(),
                    env,
                ) {
                    Some(v) => v,
                    None => crate::python_environment::copy_strings(&global_envs),
                };
                let mut k: usize = 0;
                while k < candidates.len()
                    invariant
                        0 <= k <= candidates@.len(),
                        0 <= i < project_dirs@.len(),
                        forall|q: int| 0 <= q < envs@.len() ==> project_dirs@.contains(#[trigger] envs@[q].1),
                    decreases candidates.len() - k,
                {
                    let name = match file_name(candidates[k].as_str()) {
                        Some(n) => n,
                        None => String::new(),
                    };
                    if starts_with_chars(&str_to_chars(name.as_str()), &str_to_chars(prefix.as_str())) {
                        let ghost before = envs@;
                        envs.push((candidates[k].clone(), project_dirs[i].clone()));
                        proof {
                            assert forall|q: int| 0 <= q < envs@.len() implies project_dirs@.contains(
                                #[trigger] envs@[q].1,
                            ) by {
                                if q == envs@.len() - 1 {
                                    assert(project_dirs@[i as int] == envs@[q].1);
                                } else {
                                    assert(envs@[q] == before[q]);
                                }
                            }
                        }
                    }
                    k = k + 1;
                }
            },
            None => {},
        }
        i = i + 1;
    }
    Some(envs)
}

/// The environment folders that `poetry env list --full-path` prints: one per
/// line, trimmed, without the ` (Activated)` marker, empty lines dropped.
pub open spec fn listed_environments(output: Seq<char>) -> Seq<Seq<char>> {
    lines_of(output).map_values(|l: Seq<char>| trim_ws(strip_activated(trim_ws(l)))).filter(
        |l: Seq<char>| l.len() > 0,
    )
}

/// `l` without every trailing ` (Activated)`.
pub open spec fn strip_activated(l: Seq<char>) -> Seq<char>
    decreases l.len(),
{
    if crate::text::ends_with(l, " (Activated)"@) && " (Activated)"@.len() > 0 {
        strip_activated(l.subrange(0, l.len() - " (Activated)"@.len()))
    } else {
        l
    }
}

pub fn strip_activated_exec(l: &Vec<char>) -> (r: Vec<char>)
    ensures
        r@ == strip_activated(l@),
        !crate::text::ends_with(r@, " (Activated)"@),
        r@.len() <= l@.len(),
        l@.subrange(0, r@.len() as int) == r@,
        forall|p: Seq<char>|
            l@ == p + " (Activated)"@ && !crate::text::ends_with(p, " (Activated)"@) ==> r@ == p,
{
    let marker = str_to_chars(" (Activated)");
    proof {
        reveal_strlit(" (Activated)");
    }
    let mut cur = l.clone();
    while crate::text::ends_with_chars(&cur, &marker)
        invariant
            marker@ == " (Activated)"@,
            marker@.len() == 12,
            strip_activated(cur@) == strip_activated(l@),
            cur@.len() <= l@.len(),
            l@.subrange(0, cur@.len() as int) == cur@,
            forall|p: Seq<char>|
                l@ == p + " (Activated)"@ && !crate::text::ends_with(p, " (Activated)"@) ==> (cur@ == p
                    || cur@ == l@),
        decreases cur@.len(),
    {
        let ghost c0 = cur@;
        cur = sub_chars(&cur, 0, cur.len() - marker.len());
        assert(l@.subrange(0, cur@.len() as int) =~= c0.subrange(0, cur@.len() as int));
        assert forall|p: Seq<char>|
            l@ == p + " (Activated)"@ && !crate::text::ends_with(p, " (Activated)"@) implies (cur@ == p
                || cur@ == l@) by {
            if c0 == l@ {
                assert(cur@ =~= p);
            } else {
                assert(c0 == p);
                assert(!crate::text::ends_with(c0, marker@));
            }
        }
    }
    proof {
        assert forall|p: Seq<char>|
            l@ == p + " (Activated)"@ && !crate::text::ends_with(p, " (Activated)"@) implies cur@ == p by {
            if cur@ == l@ {
                assert(l@.subrange(l@.len() - 12, l@.len() as int) =~= " (Activated)"@);
            }
        }
    }
    cur
}

/// The environment folders in the output of `poetry env list --full-path`.
pub fn parse_environments(output: &str) -> (r: Vec<String>)
    ensures
        string_views(r@) == listed_environments(output@),
{
    let lines = lines_exec(&str_to_chars(output));
    let ghost lv = char_views(lines@);
    let ghost mapped = lv.map_values(|l: Seq<char>| trim_ws(strip_activated(trim_ws(l))));
    let mut out: Vec<String> = Vec::new();
    let mut i: usize = 0;
    proof {
        reveal(Seq::filter);
    }
    assert(mapped.subrange(0, 0).filter(|l: Seq<char>| l.len() > 0) =~= Seq::<Seq<char>>::empty());
    while i < lines.len()
        invariant
            0 <= i <= lines@.len(),
            lv == char_views(lines@),
            mapped == lv.map_values(|l: Seq<char>| trim_ws(strip_activated(trim_ws(l)))),
            string_views(out@) == mapped.subrange(0, i as int).filter(|l: Seq<char>| l.len() > 0),
        decreases lines.len() - i,
    {
        let t = trim_chars(&lines[i]);
        let s = strip_activated_exec(&t);
        let v = trim_chars(&s);
        assert(mapped[i as int] == v@);
        assert(mapped.subrange(0, i + 1).drop_last() =~= mapped.subrange(0, i as int));
        proof {
            reveal(Seq::filter);
        }
        if v.len() > 0 {
            let ghost before = string_views(out@);
            out.push(chars_to_string(v.as_slice()));
            assert(string_views(out@) =~= before.push(v@));
        }
        i = i + 1;
    }
    assert(mapped.subrange(0, lines@.len() as int) =~= mapped);
    out
}

/// A boolean setting that `poetry config` printed: `true`, `false`, or nothing
/// (for `null` and anything else).
pub open spec fn config_bool(output: Seq<char>) -> Option<bool> {
    let t = trim_ws(output);
    if t == "true"@ {
        Some(true)
    } else if t == "false"@ {
        Some(false)
    } else {
        None
    }
}

/// Exec counterpart of [`config_bool`].
pub fn parse_config_bool(output: &str) -> (r: Option<bool>)
    ensures
        r == config_bool(output@),
{
    let t = trim_chars(&str_to_chars(output));
    if chars_eq(&t, &str_to_chars("true")) {
        Some(true)
    } else if chars_eq(&t, &str_to_chars("false")) {
        Some(false)
    } else {
        None
    }
}

/// The settings that `poetry config` reports for a project.
#[derive(Debug, Clone, PartialEq, Eq)]
pub struct PoetryConfig {
    pub cache_dir: Option<String>,
    pub virtualenvs_in_project: Option<bool>,
    pub virtualenvs_path: Option<String>,
}

/// The settings from what `poetry config cache-dir`, `poetry config
/// virtualenvs.path` and `poetry config virtualenvs.in-project` printed (`None`
/// where the command failed): paths trimmed, the flag parsed.
pub fn get_config(
    cache_dir_output: Option<String>,
    virtualenvs_path_output: Option<String>,
    in_project_output: Option<String>,
) -> (r: PoetryConfig)
    ensures
        opt_view(r.cache_dir) == (match cache_dir_output {
            Some(o) => Some(trim_ws(o@)),
            None => None,
        }),
        opt_view(r.virtualenvs_path) == (match virtualenvs_path_output {
            Some(o) => Some(trim_ws(o@)),
            None => None,
        }),
        r.virtualenvs_in_project == (match in_project_output {
            Some(o) => config_bool(o@),
            None => None,
        }),
{
    let cache_dir = match &cache_dir_output {
        Some(o) => Some(chars_to_string(trim_chars(&str_to_chars(o.as_str())).as_slice())),
        None => None,
    };
    let virtualenvs_path = match &virtualenvs_path_output {
        Some(o) => Some(chars_to_string(trim_chars(&str_to_chars(o.as_str())).as_slice())),
        None => None,
    };
    let virtualenvs_in_project = match &in_project_output {
        Some(o) => parse_config_bool(o.as_str()),
        None => None,
    };
    PoetryConfig { cache_dir, virtualenvs_in_project, virtualenvs_path }
}

} // verus!
