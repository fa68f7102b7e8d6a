//! Packages recorded in a conda prefix's `conda-meta` folder.
use vstd::prelude::*;
use crate::json::{json_object_field, object_field, JsonField, JsonFieldView};
use crate::os_environment::{answered_listing, answered_text, FileSystem};
use crate::paths::{file_name, join, join_path, file_name_of, string_views};
use crate::text::lines_of;
use crate::python_environment::Architecture;
use crate::regexes::{capture_group, regex_capture};
use crate::text::{
    char_views, chars_to_string, ends_with, ends_with_chars, find_sub, find_sub_from, lines_exec,
    occurs_at, starts_with_chars, str_to_chars, sub_chars, contains_sub, contains_text,
};

verus! {

/// The packages whose versions are looked up.
#[derive(Debug, Clone, Copy, PartialEq, Eq, Structural)]
pub enum Package {
    Conda,
    Python,
}

impl Package {
    pub open spec fn name_spec(self) -> Seq<char> {
        match self {
            Package::Conda => "conda"@,
            Package::Python => "python"@,
        }
    }

    /// The package's name in `conda-meta`.
    pub fn to_name(&self) -> (r: &'static str)
        ensures
            r@ == self.name_spec(),
    {
        match self {
            Package::Conda => "conda",
            Package::Python => "python",
        }
    }

    /// The package's display name (`Conda` or `Python`).
    pub fn to_string(&self) -> (r: &'static str)
        ensures
            r@ == (match self {
                Package::Conda => "Conda"@,
                Package::Python => "Python"@,
            }),
    {
        match self {
            Package::Conda => "Conda",
            Package::Python => "Python",
        }
    }
}

/// A package found in `conda-meta`: its record file, version and architecture.
#[derive(Debug, Clone, PartialEq, Eq)]
pub struct CondaPackageInfo {
    pub package: Package,
    pub path: String,
    pub version: String,
    pub arch: Option<Architecture>,
}

impl CondaPackageInfo {
    /// Looks `package` up in the `conda-meta` folder of the prefix `path`.
    pub fn from<F: FileSystem>(fs: &F, path: &str, package: &Package) -> (r: Option<Self>)
        ensures
            package_looked_up(path@, *package, r),
            package_read_from(fs, path@, *package, r),
    {
        get_conda_package_info(fs, path, package)
    }
}

/// The architecture that a package channel URL names: one ending in `64` is
/// 64-bit, one ending in `32` is 32-bit.
pub open spec fn channel_arch(channel: Seq<char>) -> Option<Architecture> {
    if ends_with(channel, "64"@) {
        Some(Architecture::X64)
    } else if ends_with(channel, "32"@) {
        Some(Architecture::X86)
    } else {
        None
    }
}

/// Exec counterpart of [`channel_arch`].
pub fn arch_of_channel(channel: &str) -> (r: Option<Architecture>)
    ensures
        r == channel_arch(channel@),
{
    let c = str_to_chars(channel);
    if ends_with_chars(&c, &str_to_chars("64")) {
        Some(Architecture::X64)
    } else if ends_with_chars(&c, &str_to_chars("32")) {
        Some(Architecture::X86)
    } else {
        None
    }
}

/// What a package record says: `None` when it is not a JSON object whose
/// `channel` and `version` are strings or absent; otherwise the architecture its
/// channel names and its version.
pub open spec fn package_record(text: Seq<char>) -> Option<(Option<Architecture>, Option<Seq<char>>)> {
    match (json_object_field(text, "channel"@), json_object_field(text, "version"@)) {
        (Some(c), Some(v)) => {
            let arch = match c {
                JsonFieldView::Text(ch) => channel_arch(ch),
                _ => None,
            };
            if c is Other || v is Other {
                None
            } else {
                Some(
                    (
                        arch,
                        match v {
                            JsonFieldView::Text(s) => Some(s),
                            _ => None,
                        },
                    ),
                )
            }
        },
        _ => None,
    }
}

/// Reads a package record (see [`package_record`]).
pub fn read_package_record(text: &str) -> (r: Option<(Option<Architecture>, Option<String>)>)
    ensures
        match r {
            Some((a, v)) => package_record(text@) == Some((a, crate::text::opt_view(v))),
            None => package_record(text@) is None,
        },
{
    let channel = object_field(text, "channel");
    let version = object_field(text, "version");
    match (channel, version) {
        (Some(c), Some(v)) => {
            let arch = match &c {
                JsonField::Text(ch) => arch_of_channel(ch.as_str()),
                _ => None,
            };
            match (c, v) {
                (JsonField::Other, _) => None,
                (_, JsonField::Other) => None,
                (_, JsonField::Text(s)) => Some((arch, Some(s))),
                (_, JsonField::Absent) => Some((arch, None)),
            }
        },
        _ => None,
    }
}

/// The text after the first `entry` in `line`, up to the next `entry` (the
/// second piece of `line.split(entry)`).
pub open spec fn second_piece(line: Seq<char>, entry: Seq<char>) -> Option<Seq<char>> {
    match find_sub_from(line, entry, 0) {
        None => None,
        Some(i) => {
            let rest = line.subrange(i + entry.len(), line.len() as int);
            match find_sub_from(rest, entry, 0) {
                None => Some(rest),
                Some(j) => Some(rest.subrange(0, j)),
            }
        },
    }
}

/// Exec counterpart of [`second_piece`].
pub fn split_second_piece(line: &str, entry: &str) -> (r: Option<String>)
    ensures
        match r {
            Some(p) => second_piece(line@, entry@) == Some(p@),
            None => second_piece(line@, entry@) is None,
        },
{
    let l = str_to_chars(line);
    let e = str_to_chars(entry);
    match find_sub(&l, &e) {
        None => None,
        Some(i) => {
            proof {
                crate::text::lemma_find_sub_props(l@, e@, 0);
            }
            assert(occurs_at(l@, e@, i as int));
            assert(i + e.len() <= l.len());
            let rest = sub_chars(&l, i + e.len(), l.len());
            match find_sub(&rest, &e) {
                None => Some(chars_to_string(rest.as_slice())),
                Some(j) => {
                    proof {
                        crate::text::lemma_find_sub_props(rest@, e@, 0);
                    }
                    let head = sub_chars(&rest, 0, j);
                    Some(chars_to_string(head.as_slice()))
                },
            }
        },
    }
}

/// The record file that a `conda-meta/history` line names for package `name`:
/// `<meta>/<name><text after ":<name>">.json`.
pub open spec fn history_record_path(meta: Seq<char>, name: Seq<char>, line: Seq<char>) -> Option<
    Seq<char>,
> {
    match second_piece(line, seq![':'] + name) {
        None => None,
        Some(p) => Some(join(meta, name + p + ".json"@)),
    }
}

/// The expression that the record file name of a package version matches.
pub open spec fn package_version_pattern(package: Package) -> Seq<char> {
    match package {
        Package::Conda => "^conda-((\\d+\\.*)*)-.*.json$"@,
        Package::Python => "^python-((\\d+\\.*)*)-.*.json$"@,
    }
}

fn version_pattern_of(package: &Package) -> (r: &'static str)
    ensures
        r@ == package_version_pattern(*package),
{
    match package {
        Package::Conda => "^conda-((\\d+\\.*)*)-.*.json$",
        Package::Python => "^python-((\\d+\\.*)*)-.*.json$",
    }
}

/// The version that a record file name gives for `package`, if it starts with the
/// package name and a dash and ends in `.json`.
pub open spec fn file_name_version(package: Package, name: Seq<char>) -> Option<Seq<char>> {
    if crate::text::starts_with(name, package.name_spec() + "-"@) && ends_with(name, ".json"@) {
        regex_capture(package_version_pattern(package), name, 1)
    } else {
        None
    }
}

/// Exec counterpart of [`file_name_version`].
pub fn version_from_file_name(package: &Package, name: &str) -> (r: Option<String>)
    ensures
        crate::text::opt_view(r) == file_name_version(*package, name@),
{
    let n = str_to_chars(name);
    let mut prefix = str_to_chars(package.to_name());
    prefix.push('-');
    assert(prefix@ =~= package.name_spec() + "-"@) by {
        reveal_strlit("-");
    }
    if starts_with_chars(&n, &prefix) && ends_with_chars(&n, &str_to_chars(".json")) {
        capture_group(version_pattern_of(package), name, 1)
    } else {
        None
    }
}

/// The record files that the first `n` of the history `lines` name for the
/// package `name`, in order: each line holding `:<name>` names one (see
/// [`history_record_path`]).
pub open spec fn history_paths_upto(lines: Seq<Seq<char>>, meta: Seq<char>, name: Seq<char>, n: int) -> Seq<
    Seq<char>,
>
    decreases n,
{
    if n <= 0 {
        Seq::<Seq<char>>::empty()
    } else {
        let prev = history_paths_upto(lines, meta, name, n - 1);
        if contains_sub(lines[n - 1], seq![':'] + name) {
            match history_record_path(meta, name, lines[n - 1]) {
                Some(p) => prev.push(p),
                None => prev,
            }
        } else {
            prev
        }
    }
}

/// The record files that the history text `text` names for the package `name`.
pub open spec fn history_paths(text: Seq<char>, meta: Seq<char>, name: Seq<char>) -> Seq<Seq<char>> {
    history_paths_upto(lines_of(text), meta, name, lines_of(text).len() as int)
}

/// The record files that the history `contents` names for `package`, in order
/// (see [`history_paths`]).
pub fn history_record_paths(contents: &str, meta: &str, package: &Package) -> (r: Vec<String>)
    ensures
        string_views(r@) == history_paths(contents@, meta@, package.name_spec()),
{
    let name = package.to_name();
    let entry_text = {
        let mut e = str_to_chars(":");
        let nm = str_to_chars(name);
        crate::text::append_chars(&mut e, &nm);
        proof {
            reveal_strlit(":");
        }
        assert(e@ =~= seq![':'] + package.name_spec());
        chars_to_string(e.as_slice())
    };
    let lines = lines_exec(&str_to_chars(contents));
    let ghost lv = char_views(lines@);
    let mut out: Vec<String> = Vec::new();
    let mut i: usize = 0;
    assert(string_views(out@) =~= history_paths_upto(lv, meta@, package.name_spec(), 0));
    while i < lines.len()
        invariant
            0 <= i <= lines@.len(),
            lv == char_views(lines@),
            lv == lines_of(contents@),
            entry_text@ == seq![':'] + package.name_spec(),
            name@ == package.name_spec(),
            string_views(out@) == history_paths_upto(lv, meta@, package.name_spec(), i as int),
        decreases lines.len() - i,
    {
        let line = chars_to_string(lines[i].as_slice());
        assert(lv[i as int] == line@);
        let ghost before = string_views(out@);
        if contains_text(line.as_str(), entry_text.as_str()) {
            match split_second_piece(line.as_str(), entry_text.as_str()) {
                Some(piece) => {
                    let mut file: Vec<char> = str_to_chars(name);
                    crate::text::append_chars(&mut file, &str_to_chars(piece.as_str()));
                    crate::text::append_chars(&mut file, &str_to_chars(".json"));
                    let record_path = join_path(meta, chars_to_string(file.as_slice()).as_str());
                    assert(file@ =~= package.name_spec() + piece@ + ".json"@);
                    assert(history_record_path(meta@, package.name_spec(), line@) == Some(record_path@));
                    out.push(record_path);
                    assert(string_views(out@) =~= before.push(string_views(out@).last()));
                },
                None => {},
            }
        }
        i = i + 1;
    }
    out
}

/// The first of `entries`, from position `i`, whose file name gives a version
/// for `package`, with that version; the search stops (with none) at an entry
/// without a file name.
pub open spec fn first_listed_from(package: Package, entries: Seq<Seq<char>>, i: int) -> Option<(int, Seq<char>)>
    decreases entries.len() - i,
{
    if i < 0 || i >= entries.len() {
        None
    } else {
        match file_name_of(entries[i]) {
            None => None,
            Some(n) => match file_name_version(package, n) {
                Some(v) => Some((i, v)),
                None => first_listed_from(package, entries, i + 1),
            },
        }
    }
}

/// Exec counterpart of [`first_listed_from`] from the first entry.
pub fn first_listed(package: &Package, entries: &Vec<String>) -> (r: Option<(usize, String)>)
    ensures
        match r {
            Some((k, v)) => first_listed_from(*package, string_views(entries@), 0) == Some((k as int, v@)),
            None => first_listed_from(*package, string_views(entries@), 0) is None,
        },
{
    let ghost ev = string_views(entries@);
    let mut k: usize = 0;
    while k < entries.len()
        invariant
            0 <= k <= entries@.len(),
            ev == string_views(entries@),
            first_listed_from(*package, ev, 0) == first_listed_from(*package, ev, k as int),
        decreases entries.len() - k,
    {
        assert(ev[k as int] == entries@[k as int]@);
        let fname = match file_name(entries[k].as_str()) {
            Some(f) => f,
            None => {
                return None;
            },
        };
        match version_from_file_name(package, fname.as_str()) {
            Some(version) => {
                return Some((k, version));
            },
            None => {},
        }
        k = k + 1;
    }
    None
}

/// Where, from position `i`, the first of the record texts `texts` (none where
/// a record could not be read) stands whose record holds a version.
pub open spec fn first_record_hit(texts: Seq<Option<Seq<char>>>, i: int) -> Option<int>
    decreases texts.len() - i,
{
    if i < 0 || i >= texts.len() {
        None
    } else if texts[i] matches Some(t) && package_record(t) matches Some((_, Some(_))) {
        Some(i)
    } else {
        first_record_hit(texts, i + 1)
    }
}

/// The architecture that the record text `text` holds (none when it was not
/// read or is not a record).
pub open spec fn record_arch_of(text: Option<Seq<char>>) -> Option<Architecture> {
    match text {
        Some(t) => match package_record(t) {
            Some((a, _)) => a,
            None => None,
        },
        None => None,
    }
}

/// The record files that the history text `history` (none when it could not be
/// read) names for `package` in the prefix `path`.
pub open spec fn history_candidates(path: Seq<char>, package: Package, history: Option<Seq<char>>) -> Seq<Seq<char>> {
    match history {
        Some(h) => history_paths(h, join(path, "conda-meta"@), package.name_spec()),
        None => Seq::<Seq<char>>::empty(),
    }
}

/// The record texts `texts` are the answers for the history's record files, in
/// order, read up to the first that holds a version (all of them when none does).
pub open spec fn record_answers_ok(
    path: Seq<char>,
    package: Package,
    history: Option<Seq<char>>,
    texts: Seq<Option<Seq<char>>>,
) -> bool {
    let paths = history_candidates(path, package, history);
    &&& texts.len() <= paths.len()
    &&& match first_record_hit(texts, 0) {
        Some(i) => i == texts.len() - 1,
        None => texts.len() == paths.len(),
    }
}

/// The record file, version and architecture that looking `package` up in the
/// prefix `path` gives, for the file system's answers: the history text, the
/// texts of the record files it names, the `conda-meta` listing and the text of
/// the listed record. The first named record that holds a version wins, with
/// its version and architecture; else the first listing entry whose file name
/// gives a version, with that version and the architecture its record holds.
pub open spec fn package_lookup(
    path: Seq<char>,
    package: Package,
    history: Option<Seq<char>>,
    texts: Seq<Option<Seq<char>>>,
    listing: Seq<Seq<char>>,
    listed_record: Option<Seq<char>>,
) -> Option<(Seq<char>, Seq<char>, Option<Architecture>)> {
    let paths = history_candidates(path, package, history);
    match first_record_hit(texts, 0) {
        Some(i) => match texts[i] {
            Some(t) => match package_record(t) {
                Some((a, Some(v))) => Some((paths[i], v, a)),
                _ => None,
            },
            None => None,
        },
        None => match first_listed_from(package, listing, 0) {
            Some((k, v)) => Some((listing[k], v, record_arch_of(listed_record))),
            None => None,
        },
    }
}

/// What a package lookup gives, as record file, version and architecture.
pub open spec fn package_info_view(r: Option<CondaPackageInfo>) -> Option<(Seq<char>, Seq<char>, Option<Architecture>)> {
    match r {
        Some(i) => Some((i.path@, i.version@, i.arch)),
        None => None,
    }
}

/// `r` is what looking `package` up in the prefix `path` gives for some answers
/// of the file system (see [`package_lookup`]), for that package.
pub open spec fn package_looked_up(path: Seq<char>, package: Package, r: Option<CondaPackageInfo>) -> bool {
    &&& r matches Some(i) ==> i.package == package
    &&& exists|
        history: Option<Seq<char>>,
        texts: Seq<Option<Seq<char>>>,
        listing: Seq<Seq<char>>,
        listed_record: Option<Seq<char>>,
    |
        record_answers_ok(path, package, history, texts) && #[trigger] package_lookup(
            path,
            package,
            history,
            texts,
            listing,
            listed_record,
        ) == package_info_view(r)
}

/// The answers are the file system's: `history` the text it gave for
/// `conda-meta/history`, each of `texts` the text it gave for the record file the
/// history names at that place; when none of those held a version, `listing` the
/// entries it gave for `conda-meta`, and `listed_record` the text it gave for the
/// entry found there.
pub open spec fn package_answers<F: FileSystem>(
    fs: &F,
    path: Seq<char>,
    package: Package,
    history: Option<Seq<char>>,
    texts: Seq<Option<Seq<char>>>,
    listing: Seq<Seq<char>>,
    listed_record: Option<Seq<char>>,
) -> bool {
    &&& answered_text(fs, join(join(path, "conda-meta"@), "history"@), history)
    &&& texts.len() <= history_candidates(path, package, history).len()
    &&& forall|i: int|
        0 <= i < texts.len() ==> answered_text(
            fs,
            history_candidates(path, package, history)[i],
            #[trigger] texts[i],
        )
    &&& first_record_hit(texts, 0) is None ==> {
        &&& answered_listing(fs, join(path, "conda-meta"@), listing)
        &&& first_listed_from(package, listing, 0) matches Some((k, _)) ==> answered_text(
            fs,
            listing[k],
            listed_record,
        )
    }
}

/// `r` is what looking `package` up in the prefix `path` gives for the file
/// system's own answers (see [`package_answers`] and [`package_lookup`]).
pub open spec fn package_read_from<F: FileSystem>(fs: &F, path: Seq<char>, package: Package, r: Option<
    CondaPackageInfo,
>) -> bool {
    exists|
        history: Option<Seq<char>>,
        texts: Seq<Option<Seq<char>>>,
        listing: Seq<Seq<char>>,
        listed_record: Option<Seq<char>>,
    |
        record_answers_ok(path, package, history, texts) && package_answers(
            fs,
            path,
            package,
            history,
            texts,
            listing,
            listed_record,
        ) && #[trigger] package_lookup(path, package, history, texts, listing, listed_record)
            == package_info_view(r)
}

/// Looks `package` up in `<path>/conda-meta`: first through the record files
/// that the `history` file names (see [`history_record_paths`]), the first one
/// whose record holds a version; then through the listing (see [`first_listed`]).
pub fn get_conda_package_info<F: FileSystem>(fs: &F, path: &str, package: &Package) -> (r: Option<
    CondaPackageInfo,
>)
    ensures
        package_looked_up(path@, *package, r),
        package_read_from(fs, path@, *package, r),
{
    let meta = join_path(path, "conda-meta");
    let history = join_path(meta.as_str(), "history");
    let hp: &str = history.as_str();
    let history_text = fs.read_to_string(hp);
    let ghost hist = crate::text::opt_view(history_text);
    assert(answered_text(fs, join(join(path@, "conda-meta"@), "history"@), hist));
    let ghost mut texts: Seq<Option<Seq<char>>> = Seq::empty();
    match history_text {
        Some(contents) => {
            let records = history_record_paths(contents.as_str(), meta.as_str(), package);
            let ghost hv = string_views(records@);
            let mut i: usize = 0;
            while i < records.len()
                invariant
                    0 <= i <= records@.len(),
                    hv == string_views(records@),
                    hist == Some(contents@),
                    hv == history_candidates(path@, *package, hist),
                    meta@ == join(path@, "conda-meta"@),
                    texts.len() == i,
                    first_record_hit(texts, 0) is None,
                    answered_text(fs, join(join(path@, "conda-meta"@), "history"@), hist),
                    forall|j: int| 0 <= j < i ==> answered_text(fs, hv[j], #[trigger] texts[j]),
                decreases records.len() - i,
            {
                let record_path = &records[i];
                let rp: &str = record_path.as_str();
                let text = fs.read_to_string(rp);
                assert(hv[i as int] == record_path@);
                assert(answered_text(fs, hv[i as int], crate::text::opt_view(text)));
                let ghost before = texts;
                proof {
                    texts = texts.push(crate::text::opt_view(text));
                    lemma_record_hit_push(before, crate::text::opt_view(text));
                }
                match text {
                    Some(record) => match read_package_record(record.as_str()) {
                        Some((arch, Some(version))) => {
                            assert(hv[i as int] == record_path@);
                            let info = CondaPackageInfo {
                                package: *package,
                                path: record_path.clone(),
                                version,
                                arch,
                            };
                            assert(package_lookup(path@, *package, hist, texts, Seq::empty(), None)
                                == package_info_view(Some(info)));
                            assert forall|j: int| 0 <= j < texts.len() implies answered_text(
                                fs,
                                history_candidates(path@, *package, hist)[j],
                                #[trigger] texts[j],
                            ) by {
                                if j < i {
                                    assert(texts[j] == before[j]);
                                }
                            }
                            assert(package_answers(fs, path@, *package, hist, texts, Seq::empty(), None));
                            return Some(info);
                        },
                        _ => {},
                    },
                    None => {},
                }
                assert forall|j: int| 0 <= j < i + 1 implies answered_text(fs, hv[j], #[trigger] texts[j]) by {
                    if j < i {
                        assert(texts[j] == before[j]);
                    }
                }
                i = i + 1;
            }
        },
        None => {},
    }
    assert(record_answers_ok(path@, *package, hist, texts));
    let mp: &str = meta.as_str();
    let entries = fs.read_dir(mp);
    let ghost listing = string_views(entries@);
    assert(answered_listing(fs, join(path@, "conda-meta"@), listing));
    match first_listed(package, &entries) {
        Some((k, version)) => {
            proof {
                lemma_first_listed_in_range(*package, listing, 0);
            }
            let entry_path = &entries[k];
            let ep: &str = entry_path.as_str();
            let record_text = fs.read_to_string(ep);
            assert(listing[k as int] == entry_path@);
            assert(answered_text(fs, listing[k as int], crate::text::opt_view(record_text)));
            let arch = match &record_text {
                Some(record) => match read_package_record(record.as_str()) {
                    Some((a, v)) => a,
                    None => None,
                },
                None => None,
            };
            assert(listing[k as int] == entry_path@);
            let info = CondaPackageInfo { package: *package, path: entry_path.clone(), version, arch };
            assert(package_lookup(path@, *package, hist, texts, listing, crate::text::opt_view(record_text))
                == package_info_view(Some(info)));
            assert(package_answers(fs, path@, *package, hist, texts, listing, crate::text::opt_view(record_text)));
            Some(info)
        },
        None => {
            assert(package_lookup(path@, *package, hist, texts, listing, None) == package_info_view(None));
            assert(package_answers(fs, path@, *package, hist, texts, listing, None));
            None
        },
    }
}

/// Adding a record text after texts without a hit: the hit, if any, is the new one.
proof fn lemma_record_hit_push(texts: Seq<Option<Seq<char>>>, t: Option<Seq<char>>)
    requires
        first_record_hit(texts, 0) is None,
    ensures
        first_record_hit(texts.push(t), 0) == (if t matches Some(x) && package_record(x) matches Some((_, Some(_))) {
            Some(texts.len() as int)
        } else {
            None
        }),
{
    assert forall|j: int| 0 <= j <= texts.len() implies #[trigger] first_record_hit(texts.push(t), j)
        == (if first_record_hit(texts, j) is Some { first_record_hit(texts, j) } else if t matches Some(
        x,
    ) && package_record(x) matches Some((_, Some(_))) {
        Some(texts.len() as int)
    } else {
        None
    }) by {
        lemma_record_hit_push_from(texts, t, j);
    }
}

proof fn lemma_record_hit_push_from(texts: Seq<Option<Seq<char>>>, t: Option<Seq<char>>, j: int)
    requires
        0 <= j <= texts.len(),
    ensures
        first_record_hit(texts.push(t), j) == (if first_record_hit(texts, j) is Some {
            first_record_hit(texts, j)
        } else if t matches Some(x) && package_record(x) matches Some((_, Some(_))) {
            Some(texts.len() as int)
        } else {
            None
        }),
    decreases texts.len() - j,
{
    if j < texts.len() {
        assert(texts.push(t)[j] == texts[j]);
        lemma_record_hit_push_from(texts, t, j + 1);
    } else {
        assert(texts.push(t)[j] == t);
        assert(first_record_hit(texts.push(t), j + 1) is None);
    }
}

/// The entry [`first_listed_from`] gives lies in the listing, at or after `i`.
pub proof fn lemma_first_listed_in_range(package: Package, entries: Seq<Seq<char>>, i: int)
    ensures
        first_listed_from(package, entries, i) matches Some((k, _)) ==> i <= k < entries.len(),
    decreases entries.len() - i,
{
    if 0 <= i < entries.len() {
        lemma_first_listed_in_range(package, entries, i + 1);
    }
}

} // verus!
