//! `pyvenv.cfg` files: where they are, and what they say.
use vstd::prelude::*;
use crate::os_environment::{answered_exists, answered_text, FileSystem};
use crate::paths::{ends_with_component, join, join_path, last_component_is, parent_of, parent_path};
use crate::regexes::{capture_group, regex_capture};
use crate::text::{
    char_views, chars_to_string, drop_leading, drop_trailing, ends_with, ends_with_chars,
    find_char_from, find_from, lines_exec, lines_of, parse_u64, split_chars, split_on,
    starts_with, starts_with_chars, str_to_chars, sub_chars, trim_chars, trim_end_char,
    trim_start_char, trim_ws, u64_text, opt_view,
};

verus! {

/// What a `pyvenv.cfg` says.
#[derive(Debug, Clone, PartialEq, Eq)]
pub struct PyVenvCfg {
    pub version: String,
    pub version_major: u64,
    pub version_minor: u64,
    pub prompt: Option<String>,
    pub uv_version: Option<String>,
}

/// The `version = X.Y.Z` line.
pub open spec fn version_pattern() -> Seq<char> {
    "^version\\s*=\\s*(\\d+\\.\\d+\\.\\d+)$"@
}

/// The `version_info = X.Y.Z...` line.
pub open spec fn version_info_pattern() -> Seq<char> {
    "^version_info\\s*=\\s*(\\d+\\.\\d+\\.\\d+.*)$"@
}

/// A version text with the numbers of its first two dot-separated parts.
pub open spec fn version_numbers(v: Seq<char>) -> Option<(Seq<char>, u64, u64)> {
    let parts = split_on(v, '.');
    if parts.len() >= 2 && u64_text(parts[0]) is Some && u64_text(parts[1]) is Some {
        Some((v, u64_text(parts[0])->0, u64_text(parts[1])->0))
    } else {
        None
    }
}

/// The version that a line gives, from what the two version expressions capture.
pub open spec fn line_version(version_capture: Option<Seq<char>>, info_capture: Option<Seq<char>>) -> Option<
    (Seq<char>, u64, u64),
> {
    let first = match version_capture {
        Some(c) => version_numbers(c),
        None => None,
    };
    match first {
        Some(v) => Some(v),
        None => match info_capture {
            Some(c) => version_numbers(c),
            None => None,
        },
    }
}

/// `s` without one layer of surrounding quotes: leading and trailing `"`
/// removed, then leading and trailing `'`.
pub open spec fn strip_quotes(s: Seq<char>) -> Seq<char> {
    let a = if starts_with(s, seq!['"']) {
        drop_leading(s, |c: char| c == '"')
    } else {
        s
    };
    let b = if ends_with(a, seq!['"']) {
        drop_trailing(a, |c: char| c == '"')
    } else {
        a
    };
    let c = if starts_with(b, seq!['\'']) {
        drop_leading(b, |c: char| c == '\'')
    } else {
        b
    };
    if ends_with(c, seq!['\'']) {
        drop_trailing(c, |x: char| x == '\'')
    } else {
        c
    }
}

/// The value of a `key = value` line whose trimmed text starts with `key`: the
/// text after the first `=`, trimmed and unquoted, when it is not empty.
pub open spec fn assignment_value(line: Seq<char>, key: Seq<char>) -> Option<Seq<char>> {
    let t = trim_ws(line);
    if !starts_with(t, key) {
        None
    } else {
        match find_from(t, '=', 0) {
            None => None,
            Some(i) => {
                let v = strip_quotes(trim_ws(t.subrange(i + 1, t.len() as int)));
                if v.len() > 0 {
                    Some(v)
                } else {
                    None
                }
            },
        }
    }
}

/// What has been read so far: the version, the prompt and the uv version.
pub struct CfgScan {
    pub version: Option<(Seq<char>, u64, u64)>,
    pub prompt: Option<Seq<char>>,
    pub uv: Option<Seq<char>>,
}

/// Reads one line: the version is taken first (and then nothing else from that
/// line); otherwise a missing prompt or uv version is taken from it.
pub open spec fn scan_line(st: CfgScan, line: Seq<char>) -> CfgScan {
    let v = line_version(
        regex_capture(version_pattern(), line, 1),
        regex_capture(version_info_pattern(), line, 1),
    );
    if st.version is None && v is Some {
        CfgScan { version: v, ..st }
    } else {
        CfgScan {
            prompt: if st.prompt is None {
                assignment_value(line, "prompt"@)
            } else {
                st.prompt
            },
            uv: if st.uv is None {
                assignment_value(line, "uv"@)
            } else {
                st.uv
            },
            ..st
        }
    }
}

/// Reads the lines `lines` in order.
pub open spec fn scan_lines(st: CfgScan, lines: Seq<Seq<char>>) -> CfgScan
    decreases lines.len(),
{
    if lines.len() == 0 {
        st
    } else {
        scan_lines(scan_line(st, lines[0]), lines.drop_first())
    }
}

/// What the text of a `pyvenv.cfg` gives; only files with a version count.
pub open spec fn cfg_of(contents: Seq<char>) -> CfgScan {
    scan_lines(CfgScan { version: None, prompt: None, uv: None }, lines_of(contents))
}

/// `v` without surrounding quotes.
fn strip_quotes_exec(v: &Vec<char>) -> (r: Vec<char>)
    ensures
        r@ == strip_quotes(v@),
{
    let mut dq: Vec<char> = Vec::new();
    dq.push('"');
    let mut sq: Vec<char> = Vec::new();
    sq.push('\'');
    assert(dq@ =~= seq!['"']);
    assert(sq@ =~= seq!['\'']);
    let a = if starts_with_chars(v, &dq) {
        trim_start_char(v, '"')
    } else {
        v.clone()
    };
    let b = if ends_with_chars(&a, &dq) {
        trim_end_char(&a, '"')
    } else {
        a
    };
    let c = if starts_with_chars(&b, &sq) {
        trim_start_char(&b, '\'')
    } else {
        b
    };
    if ends_with_chars(&c, &sq) {
        trim_end_char(&c, '\'')
    } else {
        c
    }
}

/// The value of a `key = value` line (see [`assignment_value`]).
pub fn parse_assignment(line: &str, key: &str) -> (r: Option<String>)
    ensures
        match r {
            Some(v) => assignment_value(line@, key@) == Some(v@),
            None => assignment_value(line@, key@) is None,
        },
{
    let t = trim_chars(&str_to_chars(line));
    let k = str_to_chars(key);
    if !starts_with_chars(&t, &k) {
        return None;
    }
    match find_char_from(&t, '=', 0) {
        None => None,
        Some(i) => {
            proof {
                crate::text::lemma_find_from_props(t@, '=', 0);
            }
            let rest = sub_chars(&t, i + 1, t.len());
            let v = strip_quotes_exec(&trim_chars(&rest));
            if v.len() > 0 {
                Some(chars_to_string(v.as_slice()))
            } else {
                None
            }
        },
    }
}

/// The prompt a `prompt = ...` line sets.
pub fn parse_prompt(line: &str) -> (r: Option<String>)
    ensures
        match r {
            Some(v) => assignment_value(line@, "prompt"@) == Some(v@),
            None => assignment_value(line@, "prompt"@) is None,
        },
{
    parse_assignment(line, "prompt")
}

/// The uv version a `uv = ...` line sets.
pub fn parse_uv_version(line: &str) -> (r: Option<String>)
    ensures
        match r {
            Some(v) => assignment_value(line@, "uv"@) == Some(v@),
            None => assignment_value(line@, "uv"@) is None,
        },
{
    parse_assignment(line, "uv")
}

/// The version text and its major and minor numbers.
pub fn parse_version_numbers(v: &str) -> (r: Option<(String, u64, u64)>)
    ensures
        match r {
            Some((s, major, minor)) => version_numbers(v@) == Some((s@, major, minor)),
            None => version_numbers(v@) is None,
        },
{
    let chars = str_to_chars(v);
    let parts = split_chars(&chars, '.');
    assert(char_views(parts@) == split_on(v@, '.'));
    if parts.len() < 2 {
        return None;
    }
    assert(char_views(parts@)[0] == parts@[0]@);
    assert(char_views(parts@)[1] == parts@[1]@);
    match (parse_u64(&parts[0]), parse_u64(&parts[1])) {
        (Some(major), Some(minor)) => Some((v.to_owned(), major, minor)),
        _ => None,
    }
}

/// The version a line gives, from what the two version expressions capture.
pub fn version_from_captures(version_capture: Option<String>, info_capture: Option<String>) -> (r:
    Option<(String, u64, u64)>)
    ensures
        match r {
            Some((s, major, minor)) => line_version(
                opt_view(version_capture),
                opt_view(info_capture),
            ) == Some((s@, major, minor)),
            None => line_version(
                opt_view(version_capture),
                opt_view(info_capture),
            ) is None,
        },
{
    let first = match &version_capture {
        Some(c) => parse_version_numbers(c.as_str()),
        None => None,
    };
    match first {
        Some(v) => Some(v),
        None => match &info_capture {
            Some(c) => parse_version_numbers(c.as_str()),
            None => None,
        },
    }
}

/// The version a line gives (see [`line_version`]).
pub fn parse_version(line: &str) -> (r: Option<(String, u64, u64)>)
    ensures
        match r {
            Some((s, major, minor)) => line_version(
                regex_capture(version_pattern(), line@, 1),
                regex_capture(version_info_pattern(), line@, 1),
            ) == Some((s@, major, minor)),
            None => line_version(
                regex_capture(version_pattern(), line@, 1),
                regex_capture(version_info_pattern(), line@, 1),
            ) is None,
        },
{
    let version = capture_group("^version\\s*=\\s*(\\d+\\.\\d+\\.\\d+)$", line, 1);
    let info = capture_group("^version_info\\s*=\\s*(\\d+\\.\\d+\\.\\d+.*)$", line, 1);
    version_from_captures(version, info)
}

/// Parses the text of a `pyvenv.cfg`; `None` when no line gives a version.
pub fn parse_contents(contents: &str) -> (r: Option<PyVenvCfg>)
    ensures
        match cfg_of(contents@).version {
            Some((v, major, minor)) => r matches Some(c) && c.version@ == v && c.version_major
                == major && c.version_minor == minor && opt_view(c.prompt) == cfg_of(
                contents@,
            ).prompt && opt_view(c.uv_version) == cfg_of(contents@).uv,
            None => r is None,
        },
{
    let lines = lines_exec(&str_to_chars(contents));
    let ghost lv = char_views(lines@);
    let mut version: Option<(String, u64, u64)> = None;
    let mut prompt: Option<String> = None;
    let mut uv_version: Option<String> = None;
    let mut i: usize = 0;
    assert(lv.subrange(0, lv.len() as int) =~= lv);
    while i < lines.len()
        invariant
            0 <= i <= lines@.len(),
            lv == char_views(lines@),
            lv == lines_of(contents@),
            scan_lines(
                CfgScan {
                    version: match version {
                        Some((s, a, b)) => Some((s@, a, b)),
                        None => None,
                    },
                    prompt: opt_view(prompt),
                    uv: opt_view(uv_version),
                },
                lv.subrange(i as int, lv.len() as int),
            ) == cfg_of(contents@),
        decreases lines.len() - i,
    {
        let ghost rest = lv.subrange(i as int, lv.len() as int);
        assert(rest[0] == lines@[i as int]@);
        assert(rest.drop_first() =~= lv.subrange(i + 1, lv.len() as int));
        let line = chars_to_string(lines[i].as_slice());
        let found = if version.is_none() {
            parse_version(line.as_str())
        } else {
            None
        };
        match found {
            Some(v) => {
                version = Some(v);
            },
            None => {
                if prompt.is_none() {
                    prompt = parse_prompt(line.as_str());
                }
                if uv_version.is_none() {
                    uv_version = parse_uv_version(line.as_str());
                }
            },
        }
        i = i + 1;
    }
    match version {
        Some((v, major, minor)) => Some(
            PyVenvCfg { version: v, version_major: major, version_minor: minor, prompt, uv_version },
        ),
        None => None,
    }
}

impl PyVenvCfg {
    /// Whether the environment was created by uv.
    pub fn is_uv(&self) -> (r: bool)
        ensures
            r == self.uv_version is Some,
    {
        self.uv_version.is_some()
    }

    /// Reads the `pyvenv.cfg` of the environment at `path` (or of the
    /// environment whose `bin` folder `path` is).
    pub fn find<F: FileSystem>(fs: &F, path: &str) -> (r: Option<PyVenvCfg>)
        ensures
            r matches Some(c) ==> exists|text: Seq<char>|
                #[trigger] cfg_of(text).version == Some((c.version@, c.version_major, c.version_minor)),
            r matches Some(c) ==> exists|file: Seq<char>, text: Seq<char>|
                cfg_candidates(path@).contains(file) && answered_exists(fs, file, true)
                    && #[trigger] answered_text(fs, file, Some(text)) && cfg_of(text).version == Some(
                    (c.version@, c.version_major, c.version_minor),
                ),
    {
        let file = match find_cfg_file(fs, path) {
            Some(f) => f,
            None => {
                return None;
            },
        };
        let fp: &str = file.as_str();
        let text = fs.read_to_string(fp);
        assert(answered_text(fs, file@, crate::text::opt_view(text)));
        match text {
            Some(contents) => parse_contents(contents.as_str()),
            None => None,
        }
    }
}

/// The places a `pyvenv.cfg` is looked for: in `path`, then, when `path` is a
/// `bin` folder, in its parent.
pub open spec fn cfg_candidates(path: Seq<char>) -> Seq<Seq<char>> {
    seq![join(path, "pyvenv.cfg"@)] + if last_component_is(path, "bin"@) && parent_of(path) is Some {
        seq![join(parent_of(path)->0, "pyvenv.cfg"@)]
    } else {
        seq![]
    }
}

/// The first of [`cfg_candidates`] that exists.
pub fn find_cfg_file<F: FileSystem>(fs: &F, path: &str) -> (r: Option<String>)
    ensures
        r matches Some(f) ==> cfg_candidates(path@).contains(f@),
        r matches Some(f) ==> answered_exists(fs, f@, true) && (f@ != cfg_candidates(path@)[0]
            ==> answered_exists(fs, cfg_candidates(path@)[0], false)),
        r is None ==> forall|k: int|
            0 <= k < cfg_candidates(path@).len() ==> answered_exists(
                fs,
                #[trigger] cfg_candidates(path@)[k],
                false,
            ),
{
    let cfg = join_path(path, "pyvenv.cfg");
    let cp: &str = cfg.as_str();
    let found = fs.path_exists(cp);
    assert(cfg_candidates(path@)[0] == cfg@);
    assert(answered_exists(fs, cfg@, found));
    if found {
        return Some(cfg);
    }
    if ends_with_component(path, "bin") {
        match parent_path(path) {
            Some(parent) => {
                let cfg2 = join_path(parent.as_str(), "pyvenv.cfg");
                let cp2: &str = cfg2.as_str();
                let found2 = fs.path_exists(cp2);
                assert(cfg_candidates(path@)[1] == cfg2@);
                assert(answered_exists(fs, cfg2@, found2));
                if found2 {
                    return Some(cfg2);
                }
            },
            None => {},
        }
    }
    None
}

/// The expression of the `PY_VERSION` line of a `patchlevel.h` header.
pub open spec fn py_version_define_pattern() -> Seq<char> {
    "(?m)^\\s*#define\\s+PY_VERSION\\s+\"([^\"]+)\""@
}

/// The version that the text of a `patchlevel.h` header defines as
/// `PY_VERSION`, when it defines one.
pub fn version_from_patchlevel(text: &str) -> (r: Option<String>)
    ensures
        crate::text::opt_view(r) == regex_capture(py_version_define_pattern(), text@, 1),
{
    capture_group("(?m)^\\s*#define\\s+PY_VERSION\\s+\"([^\"]+)\"", text, 1)
}

} // verus!
