//! `.condarc` files: where conda looks for them and the environment folders they list.
use vstd::prelude::*;
use crate::conda::env_variables::EnvVariables;
use crate::conda::utils::{change_root_of_path, rerooted};
use crate::os_environment::{FileSystem, Platform};
use crate::paths::{file_name, join, join_path, string_views};
use crate::text::{
    char_views, chars_to_string, contains_text, drop_leading, opt_view, starts_with,
    starts_with_chars, str_to_chars, sub_chars, trim_chars, trim_start_char, trim_ws,
};
use crate::yaml::{first_doc_list, yaml_first_doc_list};

verus! {

/// The `.condarc` files found and the environment folders they list.
#[derive(Debug, Clone, PartialEq, Eq)]
pub struct Condarc {
    pub files: Vec<String>,
    pub env_dirs: Vec<String>,
}

/// `base` joined with `.condarc`, `condarc` and `.condarc.d`.
pub open spec fn rc_trio(base: Seq<char>) -> Seq<Seq<char>> {
    seq![join(base, ".condarc"@), join(base, "condarc"@), join(base, ".condarc.d"@)]
}

/// The configuration places under the home folder `h`.
pub open spec fn home_rc_paths(h: Seq<char>) -> Seq<Seq<char>> {
    let cc = join(join(h, ".config"@), "conda"@);
    let dc = join(h, ".conda"@);
    seq![
        join(cc, ".condarc"@),
        join(cc, "condarc"@),
        join(cc, "condarc.d"@),
        join(dc, ".condarc"@),
        join(dc, "condarc"@),
        join(dc, "condarc.d"@),
        join(h, ".condarc"@),
    ]
}

/// The places conda reads configuration from, in order.
pub open spec fn conda_rc_search_paths(
    platform: Platform,
    root: Option<Seq<char>>,
    conda_root: Option<Seq<char>>,
    xdg_config_home: Option<Seq<char>>,
    home: Option<Seq<char>>,
    conda_prefix: Option<Seq<char>>,
    condarc: Option<Seq<char>>,
) -> Seq<Seq<char>> {
    system_rc_paths(platform, root) + (match conda_root {
        Some(c) => rc_trio(c),
        None => seq![],
    }) + (match xdg_config_home {
        Some(x) => rc_trio(x),
        None => seq![],
    }) + (match home {
        Some(h) => home_rc_paths(h),
        None => seq![],
    }) + (match conda_prefix {
        Some(c) => rc_trio(c),
        None => seq![],
    }) + (match condarc {
        Some(c) => seq![c],
        None => seq![],
    })
}

fn push_joined(out: &mut Vec<String>, base: &str, name: &str)
    ensures
        string_views(final(out)@) == string_views(old(out)@).push(join(base@, name@)),
{
    let ghost before = string_views(out@);
    out.push(join_path(base, name));
    assert(string_views(out@) =~= before.push(join(base@, name@)));
}

fn push_rerooted(out: &mut Vec<String>, path: &str, root: &Option<String>, platform: Platform)
    requires
        path@.len() > 0,
        path@[0] == '/',
        platform != Platform::Windows,
    ensures
        string_views(final(out)@) == string_views(old(out)@).push(rerooted(path@, opt_view(*root))),
{
    let ghost before = string_views(out@);
    out.push(change_root_of_path(path, root, platform));
    assert(string_views(out@) =~= before.push(rerooted(path@, opt_view(*root))));
}

/// The system-wide configuration places.
pub open spec fn system_rc_paths(platform: Platform, root: Option<Seq<char>>) -> Seq<Seq<char>> {
    if platform == Platform::Windows {
        seq![
            "C:\\ProgramData\\conda\\.condarc"@,
            "C:\\ProgramData\\conda\\condarc"@,
            "C:\\ProgramData\\conda\\condarc.d"@,
        ]
    } else {
        seq![
            rerooted("/etc/conda/.condarc"@, root),
            rerooted("/etc/conda/condarc"@, root),
            rerooted("/etc/conda/condarc.d"@, root),
            rerooted("/var/lib/conda/.condarc"@, root),
            rerooted("/var/lib/conda/condarc"@, root),
            rerooted("/var/lib/conda/condarc.d"@, root),
        ]
    }
}

fn push_system(out: &mut Vec<String>, platform: Platform, root: &Option<String>)
    ensures
        string_views(final(out)@) == string_views(old(out)@) + system_rc_paths(platform, opt_view(*root)),
{
    let ghost before = string_views(out@);
    if platform == Platform::Windows {
        out.push("C:\\ProgramData\\conda\\.condarc".to_owned());
        out.push("C:\\ProgramData\\conda\\condarc".to_owned());
        out.push("C:\\ProgramData\\conda\\condarc.d".to_owned());
    } else {
        proof {
            reveal_strlit("/etc/conda/.condarc");
            reveal_strlit("/etc/conda/condarc");
            reveal_strlit("/etc/conda/condarc.d");
            reveal_strlit("/var/lib/conda/.condarc");
            reveal_strlit("/var/lib/conda/condarc");
            reveal_strlit("/var/lib/conda/condarc.d");
        }
        push_rerooted(out, "/etc/conda/.condarc", root, platform);
        push_rerooted(out, "/etc/conda/condarc", root, platform);
        push_rerooted(out, "/etc/conda/condarc.d", root, platform);
        push_rerooted(out, "/var/lib/conda/.condarc", root, platform);
        push_rerooted(out, "/var/lib/conda/condarc", root, platform);
        push_rerooted(out, "/var/lib/conda/condarc.d", root, platform);
    }
    assert(string_views(out@) =~= before + system_rc_paths(platform, opt_view(*root)));
}

fn push_trio(out: &mut Vec<String>, base: &Option<String>)
    ensures
        string_views(final(out)@) == string_views(old(out)@) + match opt_view(*base) {
            Some(c) => rc_trio(c),
            None => Seq::<Seq<char>>::empty(),
        },
{
    let ghost before = string_views(out@);
    match base {
        Some(c) => {
            push_joined(out, c.as_str(), ".condarc");
            push_joined(out, c.as_str(), "condarc");
            push_joined(out, c.as_str(), ".condarc.d");
        },
        None => {},
    }
    assert(string_views(out@) =~= before + match opt_view(*base) {
        Some(c) => rc_trio(c),
        None => Seq::<Seq<char>>::empty(),
    });
}

fn push_home(out: &mut Vec<String>, home: &Option<String>)
    ensures
        string_views(final(out)@) == string_views(old(out)@) + match opt_view(*home) {
            Some(h) => home_rc_paths(h),
            None => Seq::<Seq<char>>::empty(),
        },
{
    let ghost before = string_views(out@);
    match home {
        Some(h) => {
            let config = join_path(h.as_str(), ".config");
            let cc = join_path(config.as_str(), "conda");
            push_joined(out, cc.as_str(), ".condarc");
            push_joined(out, cc.as_str(), "condarc");
            push_joined(out, cc.as_str(), "condarc.d");
            let dc = join_path(h.as_str(), ".conda");
            push_joined(out, dc.as_str(), ".condarc");
            push_joined(out, dc.as_str(), "condarc");
            push_joined(out, dc.as_str(), "condarc.d");
            push_joined(out, h.as_str(), ".condarc");
        },
        None => {},
    }
    assert(string_views(out@) =~= before + match opt_view(*home) {
        Some(h) => home_rc_paths(h),
        None => Seq::<Seq<char>>::empty(),
    });
}

/// The places conda reads configuration from (see [`conda_rc_search_paths`]).
pub fn get_conda_rc_search_paths(env_vars: &EnvVariables, platform: Platform) -> (r: Vec<String>)
    ensures
        string_views(r@) == conda_rc_search_paths(
            platform,
            opt_view(env_vars.root),
            opt_view(env_vars.conda_root),
            opt_view(env_vars.xdg_config_home),
            opt_view(env_vars.home),
            opt_view(env_vars.conda_prefix),
            opt_view(env_vars.condarc),
        ),
{
    let mut out: Vec<String> = Vec::new();
    push_system(&mut out, platform, &env_vars.root);
    push_trio(&mut out, &env_vars.conda_root);
    push_trio(&mut out, &env_vars.xdg_config_home);
    push_home(&mut out, &env_vars.home);
    push_trio(&mut out, &env_vars.conda_prefix);
    let ghost before = string_views(out@);
    match &env_vars.condarc {
        Some(c) => {
            out.push(c.clone());
        },
        None => {},
    }
    assert(string_views(out@) =~= before + match opt_view(env_vars.condarc) {
        Some(c) => seq![c],
        None => Seq::<Seq<char>>::empty(),
    });
    out
}

/// Whether a path starts with the `~` component.
pub open spec fn starts_with_tilde(t: Seq<char>) -> bool {
    t == "~"@ || starts_with(t, "~/"@)
}

/// The folder an `envs_dirs`/`envs_path` item names: skipped (`None`) when empty,
/// trimmed, and with a leading `~` replaced by `home` (skipped without one).
pub open spec fn rc_item_dir(item: Seq<char>, home: Option<Seq<char>>) -> Option<Seq<char>> {
    if item.len() == 0 {
        None
    } else {
        let t = trim_ws(item);
        if starts_with_tilde(t) {
            match home {
                Some(h) => Some(join(h, drop_leading(t.drop_first(), |c: char| c == '/'))),
                None => None,
            }
        } else {
            Some(t)
        }
    }
}

/// The folders that the items of a list name; `None` when an item is not a string.
pub open spec fn rc_dirs(items: Seq<Option<Seq<char>>>, home: Option<Seq<char>>) -> Option<
    Seq<Seq<char>>,
>
    decreases items.len(),
{
    if items.len() == 0 {
        Some(seq![])
    } else {
        match (rc_dirs(items.drop_last(), home), items.last()) {
            (Some(d), Some(item)) => Some(
                match rc_item_dir(item, home) {
                    Some(x) => d.push(x),
                    None => d,
                },
            ),
            _ => None,
        }
    }
}

/// The environment folders that a `.condarc` text lists under `envs_dirs` and
/// then `envs_path`; `None` when it lists neither, or when a listed item is not
/// a string.
pub open spec fn conda_rc_env_dirs(contents: Seq<char>, home: Option<Seq<char>>) -> Option<
    Seq<Seq<char>>,
> {
    if yaml_first_doc_list(contents, "envs_dirs"@) is None && yaml_first_doc_list(
        contents,
        "envs_path"@,
    ) is None {
        None
    } else {
        conda_rc_listed_dirs(contents, home)
    }
}

/// The folders listed under `envs_dirs` and then `envs_path`, each list absent
/// counting as empty; `None` when a listed item is not a string.
pub open spec fn conda_rc_listed_dirs(contents: Seq<char>, home: Option<Seq<char>>) -> Option<
    Seq<Seq<char>>,
> {
    let a = match yaml_first_doc_list(contents, "envs_dirs"@) {
        Some(items) => rc_dirs(items, home),
        None => Some(seq![]),
    };
    let b = match yaml_first_doc_list(contents, "envs_path"@) {
        Some(items) => rc_dirs(items, home),
        None => Some(seq![]),
    };
    match (a, b) {
        (Some(x), Some(y)) => Some(x + y),
        _ => None,
    }
}

fn item_dir(item: &str, home: &Option<String>) -> (r: Option<String>)
    ensures
        opt_view(r) == rc_item_dir(item@, opt_view(*home)),
{
    let chars = str_to_chars(item);
    if chars.len() == 0 {
        return None;
    }
    let t = trim_chars(&chars);
    let is_tilde_only = t.len() == 1 && t[0] == '~';
    let tilde_slash = t.len() >= 2 && t[0] == '~' && t[1] == '/';
    proof {
        reveal_strlit("~");
        reveal_strlit("~/");
        if t@.len() == 1 && t@[0] == '~' {
            assert(t@ =~= "~"@);
        }
        if t@ == "~"@ {
            assert(t@.len() == 1);
        }
        if tilde_slash {
            assert(t@.subrange(0, 2) =~= "~/"@);
        }
        if starts_with(t@, "~/"@) {
            assert(t@.subrange(0, 2)[0] == '~');
            assert(t@.subrange(0, 2)[1] == '/');
        }
    }
    if is_tilde_only || tilde_slash {
        match home {
            Some(h) => {
                let after = sub_chars(&t, 1, t.len());
                assert(after@ =~= t@.drop_first());
                let rest = trim_start_char(&after, '/');
                let rest_text = chars_to_string(rest.as_slice());
                Some(join_path(h.as_str(), rest_text.as_str()))
            },
            None => None,
        }
    } else {
        Some(chars_to_string(t.as_slice()))
    }
}

fn dirs_of_items(items: &Vec<Option<String>>, home: &Option<String>, out: &mut Vec<String>) -> (r:
    bool)
    ensures
        match rc_dirs(items@.map_values(|o: Option<String>| opt_view(o)), opt_view(*home)) {
            Some(d) => r && string_views(final(out)@) == string_views(old(out)@) + d,
            None => !r,
        },
{
    let ghost iv = items@.map_values(|o: Option<String>| opt_view(o));
    let ghost start = string_views(out@);
    let mut i: usize = 0;
    assert(iv.subrange(0, 0) =~= Seq::<Option<Seq<char>>>::empty());
    while i < items.len()
        invariant
            0 <= i <= items@.len(),
            iv == items@.map_values(|o: Option<String>| opt_view(o)),
            rc_dirs(iv.subrange(0, i as int), opt_view(*home)) matches Some(d) && string_views(out@)
                == start + d,
        decreases items.len() - i,
    {
        let ghost prefix = iv.subrange(0, i as int);
        let ghost d = rc_dirs(prefix, opt_view(*home))->0;
        assert(iv.subrange(0, i + 1).drop_last() =~= prefix);
        assert(iv.subrange(0, i + 1).last() == iv[i as int]);
        match &items[i] {
            None => {
                proof {
                    let j = i as int;
                    assert(iv[j] is None);
                    lemma_rc_dirs_none(iv, home, j);
                }
                return false;
            },
            Some(item) => {
                let ghost before = string_views(out@);
                match item_dir(item.as_str(), home) {
                    Some(x) => {
                        out.push(x);
                        assert(string_views(out@) =~= before.push(x@));
                    },
                    None => {},
                }
            },
        }
        i = i + 1;
    }
    assert(iv.subrange(0, items@.len() as int) =~= iv);
    true
}

proof fn lemma_rc_dirs_none(iv: Seq<Option<Seq<char>>>, home: &Option<String>, j: int)
    requires
        0 <= j < iv.len(),
        iv[j] is None,
    ensures
        rc_dirs(iv, opt_view(*home)) is None,
    decreases iv.len(),
{
    if j == iv.len() - 1 {
    } else {
        lemma_rc_dirs_none(iv.drop_last(), home, j);
    }
}

/// The environment folders a `.condarc` text lists (see [`conda_rc_env_dirs`]).
pub fn parse_conda_rc_contents(contents: &str, home: Option<String>) -> (r: Option<Condarc>)
    ensures
        match conda_rc_env_dirs(contents@, opt_view(home)) {
            Some(d) => r matches Some(c) && string_views(c.env_dirs@) == d && c.files@.len() == 0,
            None => r is None,
        },
{
    let mut env_dirs: Vec<String> = Vec::new();
    let ghost start = string_views(env_dirs@);
    assert(start =~= Seq::<Seq<char>>::empty());
    let dirs_list = first_doc_list(contents, "envs_dirs");
    let path_list = first_doc_list(contents, "envs_path");
    if dirs_list.is_none() && path_list.is_none() {
        return None;
    }
    match dirs_list {
        Some(items) => {
            if !dirs_of_items(&items, &home, &mut env_dirs) {
                return None;
            }
        },
        None => {},
    }
    let ghost mid = string_views(env_dirs@);
    match path_list {
        Some(items) => {
            if !dirs_of_items(&items, &home, &mut env_dirs) {
                return None;
            }
        },
        None => {},
    }
    Some(Condarc { env_dirs, files: Vec::new() })
}

/// Reads the `.condarc` file at `path`: its folders (none when it does not parse),
/// and the file itself.
pub fn parse_conda_rc<F: FileSystem>(fs: &F, path: &str) -> (r: Option<Condarc>)
    ensures
        r matches Some(c) ==> c.files@.len() == 1 && c.files@[0]@ == path@,
{
    let contents = match fs.read_to_string(path) {
        Some(c) => c,
        None => {
            return None;
        },
    };
    let mut files: Vec<String> = Vec::new();
    files.push(path.to_owned());
    match parse_conda_rc_contents(contents.as_str(), None) {
        Some(cfg) => Some(Condarc { env_dirs: cfg.env_dirs, files }),
        None => Some(Condarc { env_dirs: Vec::new(), files }),
    }
}

/// Whether a file in a `condarc.d` folder is read: named `.condarc`, `condarc` or
/// `.condarc.d`, with extension `yaml` or `yml`, or with `condarc` in its name.
pub open spec fn conda_rc_file_name(name: Seq<char>) -> bool {
    name == ".condarc"@ || name == "condarc"@ || name == ".condarc.d"@ || crate::text::ends_with(
        name,
        ".yaml"@,
    ) || crate::text::ends_with(name, ".yml"@) || crate::text::contains_sub(name, "condarc"@)
}

/// Exec counterpart of [`conda_rc_file_name`].
pub fn is_conda_rc_file_name(name: &str) -> (r: bool)
    ensures
        r == conda_rc_file_name(name@),
{
    let n = str_to_chars(name);
    let known = crate::text::chars_eq(&n, &str_to_chars(".condarc")) || crate::text::chars_eq(
        &n,
        &str_to_chars("condarc"),
    ) || crate::text::chars_eq(&n, &str_to_chars(".condarc.d"));
    known || crate::text::ends_with_chars(&n, &str_to_chars(".yaml"))
        || crate::text::ends_with_chars(&n, &str_to_chars(".yml")) || contains_text(name, "condarc")
}

/// `f` was read as a configuration file for `path`: the file system answered
/// that it is a file, and it is `path` itself or an entry of a listing it gave
/// for `path`.
pub open spec fn rc_file_of<F: FileSystem>(fs: &F, path: Seq<char>, f: Seq<char>) -> bool {
    &&& crate::os_environment::answered_is_file(fs, f, true)
    &&& (f == path || exists|listing: Seq<Seq<char>>|
        #[trigger] crate::os_environment::answered_listing(fs, path, listing) && listing.contains(f))
}

/// Reads `path` as a `.condarc` file or as a folder of them.
pub fn get_conda_conda_rc_from_path<F: FileSystem>(fs: &F, path: &str) -> (r: Option<Condarc>)
    ensures
        r matches Some(c) ==> c.env_dirs@.len() > 0 || c.files@.len() > 0,
        r matches Some(c) ==> forall|k: int| 0 <= k < c.files@.len() ==> rc_file_of(fs, path@, (#[trigger] c.files@[k])@),
{
    let mut env_dirs: Vec<String> = Vec::new();
    let mut files: Vec<String> = Vec::new();
    let path_is_file = fs.is_file(path);
    assert(crate::os_environment::answered_is_file(fs, path@, path_is_file));
    if path_is_file {
        match parse_conda_rc(fs, path) {
            Some(cfg) => {
                let mut d = cfg.env_dirs;
                env_dirs.append(&mut d);
                files.push(path.to_owned());
            },
            None => {},
        }
    } else if fs.is_dir(path) {
        let entries = fs.read_dir(path);
        let ghost listing = crate::paths::string_views(entries@);
        assert(crate::os_environment::answered_listing(fs, path@, listing));
        let mut i: usize = 0;
        while i < entries.len()
            invariant
                0 <= i <= entries@.len(),
                listing == crate::paths::string_views(entries@),
                crate::os_environment::answered_listing(fs, path@, listing),
                forall|k: int| 0 <= k < files@.len() ==> rc_file_of(fs, path@, (#[trigger] files@[k])@),
            decreases entries.len() - i,
        {
            let entry = &entries[i];
            let ep: &str = entry.as_str();
            let entry_is_file = fs.is_file(ep);
            assert(crate::os_environment::answered_is_file(fs, entry@, entry_is_file));
            assert(listing[i as int] == entry@);
            if entry_is_file {
                let name = match file_name(entry.as_str()) {
                    Some(n) => n,
                    None => String::new(),
                };
                if is_conda_rc_file_name(name.as_str()) {
                    match parse_conda_rc(fs, entry.as_str()) {
                        Some(cfg) => {
                            let mut d = cfg.env_dirs;
                            env_dirs.append(&mut d);
                            let ghost before = files@;
                            files.push(entry.clone());
                            assert(rc_file_of(fs, path@, entry@));
                            assert forall|k: int| 0 <= k < files@.len() implies rc_file_of(
                                fs,
                                path@,
                                (#[trigger] files@[k])@,
                            ) by {
                                if k < before.len() {
                                    assert(files@[k] == before[k]);
                                }
                            }
                        },
                        None => {},
                    }
                }
            }
            i = i + 1;
        }
    }
    if env_dirs.len() == 0 && files.len() == 0 {
        None
    } else {
        Some(Condarc { env_dirs, files })
    }
}

/// Reads every configuration place of [`get_conda_rc_search_paths`] and gathers
/// what they list.
pub fn get_conda_conda_rc<F: FileSystem>(fs: &F, env_vars: &EnvVariables, platform: Platform) -> (r:
    Option<Condarc>)
    ensures
        r matches Some(c) ==> c.env_dirs@.len() > 0 || c.files@.len() > 0,
{
    let mut env_dirs: Vec<String> = Vec::new();
    let mut files: Vec<String> = Vec::new();
    let paths = get_conda_rc_search_paths(env_vars, platform);
    let mut i: usize = 0;
    while i < paths.len()
        invariant
            0 <= i <= paths@.len(),
        decreases paths.len() - i,
    {
        match get_conda_conda_rc_from_path(fs, paths[i].as_str()) {
            Some(cfg) => {
                let mut d = cfg.env_dirs;
                let mut f = cfg.files;
                env_dirs.append(&mut d);
                files.append(&mut f);
            },
            None => {},
        }
        i = i + 1;
    }
    if env_dirs.len() == 0 && files.len() == 0 {
        None
    } else {
        Some(Condarc { env_dirs, files })
    }
}

impl Condarc {
    /// The configuration conda reads, from all the places it looks.
    pub fn from<F: FileSystem>(fs: &F, env_vars: &EnvVariables, platform: Platform) -> (r: Option<
        Condarc,
    >)
        ensures
            r matches Some(c) ==> c.env_dirs@.len() > 0 || c.files@.len() > 0,
    {
        get_conda_conda_rc(fs, env_vars, platform)
    }

    /// The configuration at `path` (a file or a folder of files).
    pub fn from_path<F: FileSystem>(fs: &F, path: &str) -> (r: Option<Condarc>)
        ensures
            r matches Some(c) ==> c.env_dirs@.len() > 0 || c.files@.len() > 0,
    {
        get_conda_conda_rc_from_path(fs, path)
    }
}

} // verus!
