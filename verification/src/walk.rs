//! Expansion of path patterns against the file system, within budgets of
//! patterns and of file system candidates.
use vstd::prelude::*;
use crate::glob::{
    add_unique, bounded_expansion, expand_braces_bounded, has_glob_meta, has_glob_meta_exec, is_glob,
    is_glob_pattern, expand_braces, GlobExpansionError, GlobExpansionLimits,
};
use crate::braces::capped_expansion;
use crate::paths::{
    chars_less, chars_lt, components, join, join_path, lemma_chars_lt_total, path_components, path_eq,
    holds_path, same_path, sort_dedup_paths, string_views, strictly_sorted,
};
use vstd::seq_lib::{to_multiset_build, to_multiset_insert};
use vstd::multiset::Multiset;
use crate::text::{char_views, chars_to_string, opt_view, str_to_chars};

verus! {

/// What `glob::Pattern::new` reports for `text`: `None` when it compiles, else the
/// message of its error.
pub uninterp spec fn glob_pattern_error(text: Seq<char>) -> Option<Seq<char>>;

/// Whether the pattern that `glob::Pattern::new` compiles from `text` matches `name`.
pub uninterp spec fn glob_pattern_matches(text: Seq<char>, name: Seq<char>) -> bool;

/// `glob::Pattern::new(text)`: `None` when it succeeds, else the error's
/// `Display` text. The contract names the outcome; it claims nothing of its form.
#[verifier::external_body]
fn pattern_error(text: &str) -> (r: Option<String>)
    ensures
        opt_view(r) == glob_pattern_error(text@),
{
    match glob::Pattern::new(text) {
        Ok(_) => None,
        Err(e) => Some(e.to_string()),
    }
}

/// `glob::Pattern::matches` on `name`, of the pattern `glob::Pattern::new` compiles
/// from `text` (false when it does not compile). The contract names the result.
#[verifier::external_body]
fn pattern_matches(text: &str, name: &str) -> (r: bool)
    ensures
        r == glob_pattern_matches(text@, name@),
{
    match glob::Pattern::new(text) {
        Ok(p) => p.matches(name),
        Err(_) => false,
    }
}

/// What a walk reads of the file system. The library decides; an implementation
/// (in the application) performs the reads. Nothing is assumed of the answers:
/// the walk is verified for every answer.
pub trait WalkFileSystem {
    /// `std::fs::metadata` (symlinks followed): `Ok(Some(is_dir))`, `Ok(None)` when
    /// the path does not exist or a component is not a folder, else the error's text.
    fn metadata_is_dir(&self, path: &str) -> Result<Option<bool>, String>;
    /// `std::fs::symlink_metadata`: `Ok(Some((is_dir, is_symlink)))`, `Ok(None)` and
    /// errors as for [`WalkFileSystem::metadata_is_dir`].
    fn symlink_kind(&self, path: &str) -> Result<Option<(bool, bool)>, String>;
    /// `std::fs::read_dir`: `Ok(None)` when the folder does not exist or is not a
    /// folder, otherwise each entry's file name or the text of its error.
    fn list_directory(&self, path: &str) -> Result<Option<Vec<Result<String, String>>>, String>;
}

/// One component of a path pattern.
#[derive(Debug, Clone)]
pub enum GlobComponent {
    /// A name taken as it is.
    Literal(String),
    /// A name with glob metacharacters, matched against folder entries.
    Pattern(String),
    /// `**`: any number of folders.
    Recursive,
}

/// The mathematical form of a [`GlobComponent`].
pub enum ComponentSpec {
    Literal(Seq<char>),
    Pattern(Seq<char>),
    Recursive,
}

pub open spec fn component_spec(c: GlobComponent) -> ComponentSpec {
    match c {
        GlobComponent::Literal(s) => ComponentSpec::Literal(s@),
        GlobComponent::Pattern(s) => ComponentSpec::Pattern(s@),
        GlobComponent::Recursive => ComponentSpec::Recursive,
    }
}

pub open spec fn component_specs(cs: Seq<GlobComponent>) -> Seq<ComponentSpec> {
    cs.map_values(|c: GlobComponent| component_spec(c))
}

pub open spec fn double_star() -> Seq<char> {
    seq!['*', '*']
}

/// The components of a pattern's pieces: `**` becomes one recursive component
/// (repeats collapsed), a piece with metacharacters a pattern, any other a literal.
pub open spec fn classify(pieces: Seq<Seq<char>>) -> Seq<ComponentSpec>
    decreases pieces.len(),
{
    if pieces.len() == 0 {
        seq![]
    } else {
        let prev = classify(pieces.drop_last());
        let c = pieces.last();
        if c == double_star() {
            if prev.len() > 0 && prev.last() is Recursive {
                prev
            } else {
                prev.push(ComponentSpec::Recursive)
            }
        } else if has_glob_meta(c) {
            prev.push(ComponentSpec::Pattern(c))
        } else {
            prev.push(ComponentSpec::Literal(c))
        }
    }
}

/// The error of the first pattern component that does not compile.
pub open spec fn first_pattern_error(cs: Seq<ComponentSpec>) -> Option<Seq<char>>
    decreases cs.len(),
{
    if cs.len() == 0 {
        None
    } else {
        match first_pattern_error(cs.drop_last()) {
            Some(m) => Some(m),
            None => match cs.last() {
                ComponentSpec::Pattern(t) => glob_pattern_error(t),
                _ => None,
            },
        }
    }
}

pub open spec fn is_rooted(p: Seq<char>) -> bool {
    p.len() > 0 && p[0] == '/'
}

/// Where a walk for pattern `p` starts: `/` for an absolute pattern, else the
/// current folder (the empty path).
pub open spec fn pattern_base(p: Seq<char>) -> Seq<char> {
    if is_rooted(p) {
        seq!['/']
    } else {
        seq![]
    }
}

/// The components of `p` after its root.
pub open spec fn pattern_pieces(p: Seq<char>) -> Seq<Seq<char>> {
    if is_rooted(p) {
        components(p).drop_first()
    } else {
        components(p)
    }
}

pub open spec fn planned(p: Seq<char>) -> Seq<ComponentSpec> {
    classify(pattern_pieces(p))
}

proof fn lemma_specs_push(cs: Seq<GlobComponent>, c: GlobComponent)
    ensures
        component_specs(cs.push(c)) =~= component_specs(cs).push(component_spec(c)),
{
}

proof fn lemma_error_extends(pieces: Seq<Seq<char>>, k: int)
    requires
        0 <= k <= pieces.len(),
        first_pattern_error(classify(pieces.subrange(0, k))) is Some,
    ensures
        first_pattern_error(classify(pieces)) == first_pattern_error(classify(pieces.subrange(0, k))),
    decreases pieces.len(),
{
    if k == pieces.len() {
        assert(pieces.subrange(0, k) =~= pieces);
    } else {
        let shorter = pieces.drop_last();
        assert(shorter.subrange(0, k) =~= pieces.subrange(0, k));
        lemma_error_extends(shorter, k);
        let c = classify(pieces);
        if c != classify(shorter) {
            assert(c.drop_last() =~= classify(shorter));
        }
    }
}

/// Splits `pattern` into where the walk starts and its components, checking that
/// every pattern component compiles.
pub fn plan_pattern(pattern: &str) -> (r: Result<(String, Vec<GlobComponent>), GlobExpansionError>)
    ensures
        match first_pattern_error(planned(pattern@)) {
            Some(m) => r matches Err(GlobExpansionError::InvalidPattern { pattern: p, message })
                && p@ == pattern@ && message@ == m,
            None => r matches Ok((b, cs)) && b@ == pattern_base(pattern@) && component_specs(cs@)
                == planned(pattern@),
        },
{
    let chars = str_to_chars(pattern);
    let comps = path_components(&chars);
    let ghost cv = char_views(comps@);
    let rooted = chars.len() > 0 && chars[0] == '/';
    let start: usize = if rooted {
        1
    } else {
        0
    };
    let ghost pieces = pattern_pieces(pattern@);
    proof {
        if rooted {
            assert(cv.len() >= 1 && cv[0] == seq!['/']);
        }
        assert(pieces =~= cv.subrange(start as int, cv.len() as int));
        assert(pieces.subrange(0, 0) =~= Seq::<Seq<char>>::empty());
    }
    let mut out: Vec<GlobComponent> = Vec::new();
    assert(component_specs(out@) =~= Seq::<ComponentSpec>::empty());
    let mut i: usize = start;
    while i < comps.len()
        invariant
            start <= i <= comps@.len(),
            cv == char_views(comps@),
            pieces == cv.subrange(start as int, cv.len() as int),
            pieces == pattern_pieces(pattern@),
            chars@ == pattern@,
            component_specs(out@) == classify(pieces.subrange(0, i - start)),
            first_pattern_error(classify(pieces.subrange(0, i - start))) is None,
        decreases comps.len() - i,
    {
        let c = &comps[i];
        let ghost prefix = pieces.subrange(0, i - start);
        let ghost next = pieces.subrange(0, i + 1 - start);
        assert(next.drop_last() =~= prefix);
        assert(next.last() == c@);
        let is_star2 = c.len() == 2 && c[0] == '*' && c[1] == '*';
        assert(is_star2 == (c@ == double_star())) by {
            if c@.len() == 2 && c@[0] == '*' && c@[1] == '*' {
                assert(c@ =~= double_star());
            }
        }
        let ghost before = out@;
        if is_star2 {
            let last_rec = out.len() > 0 && match &out[out.len() - 1] {
                GlobComponent::Recursive => true,
                _ => false,
            };
            if !last_rec {
                out.push(GlobComponent::Recursive);
                proof {
                    lemma_specs_push(before, GlobComponent::Recursive);
                }
            } else {
                assert(component_specs(before).last() == component_spec(before.last()));
            }
        } else if has_glob_meta_exec(c) {
            let text = chars_to_string(c.as_slice());
            match pattern_error(text.as_str()) {
                Some(message) => {
                    proof {
                        assert(classify(next) == classify(prefix).push(ComponentSpec::Pattern(c@)));
                        assert(classify(next).drop_last() =~= classify(prefix));
                        assert(first_pattern_error(classify(next)) == Some(message@));
                        lemma_error_extends(pieces, i + 1 - start);
                    }
                    return Err(
                        GlobExpansionError::InvalidPattern {
                            pattern: chars_to_string(chars.as_slice()),
                            message,
                        },
                    );
                },
                None => {},
            }
            out.push(GlobComponent::Pattern(text));
            proof {
                lemma_specs_push(before, GlobComponent::Pattern(text));
            }
        } else {
            let text = chars_to_string(c.as_slice());
            out.push(GlobComponent::Literal(text));
            proof {
                lemma_specs_push(before, GlobComponent::Literal(text));
            }
        }
        proof {
            assert(component_specs(out@) =~= classify(next));
            assert(classify(next).drop_last() =~= classify(prefix) || classify(next) == classify(prefix));
        }
        i = i + 1;
    }
    assert(pieces.subrange(0, i - start) =~= pieces);
    let base = if rooted {
        let mut root: Vec<char> = Vec::new();
        root.push('/');
        assert(root@ =~= seq!['/']);
        chars_to_string(root.as_slice())
    } else {
        String::new()
    };
    Ok((base, out))
}

/// `base` joined with each of `names` in turn.
pub open spec fn join_all(base: Seq<char>, names: Seq<Seq<char>>) -> Seq<char>
    decreases names.len(),
{
    if names.len() == 0 {
        base
    } else {
        join(join_all(base, names.drop_last()), names.last())
    }
}

/// Whether the components from position `i` on match the names `names`: a literal
/// one name equal to it, a pattern one name it matches, `**` any number of names,
/// at least one when it is the last component.
pub open spec fn matches_from(cs: Seq<ComponentSpec>, i: int, names: Seq<Seq<char>>) -> bool
    decreases cs.len() - i, names.len(),
{
    if i < 0 || i >= cs.len() {
        names.len() == 0
    } else {
        match cs[i] {
            ComponentSpec::Literal(l) => names.len() > 0 && names[0] == l && matches_from(
                cs,
                i + 1,
                names.drop_first(),
            ),
            ComponentSpec::Pattern(t) => names.len() > 0 && glob_pattern_matches(t, names[0])
                && matches_from(cs, i + 1, names.drop_first()),
            ComponentSpec::Recursive => if i + 1 == cs.len() {
                names.len() > 0
            } else {
                matches_from(cs, i + 1, names) || (names.len() > 0 && matches_from(
                    cs,
                    i,
                    names.drop_first(),
                ))
            },
        }
    }
}

/// `p` is `base` followed by names that the components match.
pub open spec fn matches_pattern_path(cs: Seq<ComponentSpec>, base: Seq<char>, p: Seq<char>) -> bool {
    exists|names: Seq<Seq<char>>| join_all(base, names) == p && #[trigger] matches_from(cs, 0, names)
}

/// Names `names` read so far leave the walk at component `i`: any names that the
/// components from `i` on match complete a match of the whole pattern.
pub open spec fn prefix_ok(cs: Seq<ComponentSpec>, names: Seq<Seq<char>>, i: int) -> bool {
    forall|rest: Seq<Seq<char>>| #[trigger] matches_from(cs, i, rest) ==> matches_from(cs, 0, names + rest)
}

/// A place still to visit: a path and the component to apply there.
struct WalkItem {
    path: String,
    index: usize,
    names: Ghost<Seq<Seq<char>>>,
}

/// A path found.
struct WalkFound {
    path: String,
    names: Ghost<Seq<Seq<char>>>,
}

spec fn item_ok(cs: Seq<ComponentSpec>, base: Seq<char>, it: WalkItem) -> bool {
    &&& it.index <= cs.len()
    &&& it.path@ == join_all(base, it.names@)
    &&& prefix_ok(cs, it.names@, it.index as int)
}

spec fn items_ok(cs: Seq<ComponentSpec>, base: Seq<char>, s: Seq<WalkItem>) -> bool {
    forall|k: int| 0 <= k < s.len() ==> item_ok(cs, base, #[trigger] s[k])
}

spec fn found_ok(cs: Seq<ComponentSpec>, base: Seq<char>, f: WalkFound) -> bool {
    f.path@ == join_all(base, f.names@) && matches_from(cs, 0, f.names@)
}

spec fn founds_ok(cs: Seq<ComponentSpec>, base: Seq<char>, s: Seq<WalkFound>) -> bool {
    forall|k: int| 0 <= k < s.len() ==> found_ok(cs, base, #[trigger] s[k])
}

spec fn item_weight(n: nat, it: WalkItem) -> nat {
    if it.index <= n {
        (n + 1 - it.index) as nat
    } else {
        0
    }
}

/// What is left to do, as a number that every visit lowers.
spec fn weight(n: nat, s: Seq<WalkItem>) -> nat
    decreases s.len(),
{
    if s.len() == 0 {
        0
    } else {
        weight(n, s.drop_last()) + item_weight(n, s.last())
    }
}

/// Whether `e` is one of the failures a walk for `pattern` can end in: the
/// candidate limit, only once `seen` candidates reached it, or a failure to read
/// the file system.
pub open spec fn walk_error(e: GlobExpansionError, pattern: Seq<char>, limit: usize, seen: usize) -> bool {
    ||| e == GlobExpansionError::CandidateLimitExceeded { limit } && seen == limit
    ||| e matches GlobExpansionError::Traversal { pattern: p, .. } && p@ == pattern
}

proof fn lemma_step(cs: Seq<ComponentSpec>, names: Seq<Seq<char>>, i: int, name: Seq<char>)
    requires
        0 <= i < cs.len(),
        prefix_ok(cs, names, i),
        cs[i] == ComponentSpec::Literal(name) || (cs[i] matches ComponentSpec::Pattern(t)
            && glob_pattern_matches(t, name)),
    ensures
        prefix_ok(cs, names.push(name), i + 1),
        i + 1 == cs.len() ==> matches_from(cs, 0, names.push(name)),
{
    assert forall|rest: Seq<Seq<char>>| #[trigger] matches_from(cs, i + 1, rest) implies matches_from(
        cs,
        0,
        names.push(name) + rest,
    ) by {
        let r2 = seq![name] + rest;
        assert(r2[0] == name);
        assert(r2.drop_first() =~= rest);
        assert(matches_from(cs, i, r2));
        assert(names + r2 =~= names.push(name) + rest);
    }
    if i + 1 == cs.len() {
        let e = Seq::<Seq<char>>::empty();
        assert(matches_from(cs, i + 1, e));
        assert(names.push(name) + e =~= names.push(name));
    }
}

proof fn lemma_skip(cs: Seq<ComponentSpec>, names: Seq<Seq<char>>, i: int)
    requires
        0 <= i,
        i + 1 < cs.len(),
        cs[i] is Recursive,
        prefix_ok(cs, names, i),
    ensures
        prefix_ok(cs, names, i + 1),
{
    assert forall|rest: Seq<Seq<char>>| #[trigger] matches_from(cs, i + 1, rest) implies matches_from(
        cs,
        0,
        names + rest,
    ) by {
        assert(matches_from(cs, i, rest));
    }
}

proof fn lemma_descend(cs: Seq<ComponentSpec>, names: Seq<Seq<char>>, i: int, name: Seq<char>)
    requires
        0 <= i < cs.len(),
        cs[i] is Recursive,
        prefix_ok(cs, names, i),
    ensures
        prefix_ok(cs, names.push(name), i),
        i + 1 == cs.len() ==> matches_from(cs, 0, names.push(name)),
{
    assert forall|rest: Seq<Seq<char>>| #[trigger] matches_from(cs, i, rest) implies matches_from(
        cs,
        0,
        names.push(name) + rest,
    ) by {
        let r2 = seq![name] + rest;
        assert(r2.drop_first() =~= rest);
        assert(matches_from(cs, i, r2));
        assert(names + r2 =~= names.push(name) + rest);
    }
    if i + 1 == cs.len() {
        let r2 = seq![name];
        assert(matches_from(cs, i, r2));
        assert(names + r2 =~= names.push(name));
    }
}

proof fn lemma_end(cs: Seq<ComponentSpec>, names: Seq<Seq<char>>)
    requires
        prefix_ok(cs, names, cs.len() as int),
    ensures
        matches_from(cs, 0, names),
{
    let e = Seq::<Seq<char>>::empty();
    assert(matches_from(cs, cs.len() as int, e));
    assert(names + e =~= names);
}

proof fn lemma_join_push(base: Seq<char>, names: Seq<Seq<char>>, name: Seq<char>)
    ensures
        join_all(base, names.push(name)) == join(join_all(base, names), name),
{
    assert(names.push(name).drop_last() =~= names);
}

proof fn lemma_weight_push(n: nat, s: Seq<WalkItem>, it: WalkItem)
    ensures
        weight(n, s.push(it)) == weight(n, s) + item_weight(n, it),
{
    assert(s.push(it).drop_last() =~= s);
}

/// Counts one more candidate; fails, counting nothing, when `limit` are counted already.
fn increment_candidates(seen: &mut usize, limit: usize) -> (r: Result<(), GlobExpansionError>)
    requires
        *old(seen) <= limit,
    ensures
        *old(seen) < limit ==> r is Ok && *final(seen) == *old(seen) + 1,
        *old(seen) == limit ==> r == Err::<(), GlobExpansionError>(
            GlobExpansionError::CandidateLimitExceeded { limit },
        ) && *final(seen) == *old(seen),
{
    if *seen == limit {
        return Err(GlobExpansionError::CandidateLimitExceeded { limit });
    }
    *seen = *seen + 1;
    Ok(())
}

fn traversal_error(pattern: &str, message: String) -> (e: GlobExpansionError)
    ensures
        e matches GlobExpansionError::Traversal { pattern: p, message: m } && p@ == pattern@ && m
            == message,
{
    GlobExpansionError::Traversal { pattern: chars_to_string(str_to_chars(pattern).as_slice()), message }
}

/// Whether `path` is a folder (symlinks followed); missing paths are not.
fn path_is_directory<F: WalkFileSystem>(fs: &F, path: &str, pattern: &str) -> (r: Result<bool, GlobExpansionError>)
    ensures
        r matches Err(e) ==> e matches GlobExpansionError::Traversal { pattern: p, .. } && p@ == pattern@,
{
    match fs.metadata_is_dir(path) {
        Ok(Some(d)) => Ok(d),
        Ok(None) => Ok(false),
        Err(m) => Err(traversal_error(pattern, m)),
    }
}

/// `e` is a traversal failure reported for `pattern`.
pub open spec fn traversal_of(e: GlobExpansionError, pattern: Seq<char>) -> bool {
    e matches GlobExpansionError::Traversal { pattern: p, .. } && p@ == pattern
}

/// Names in ascending order (by code point, as file names compare), equal ones kept.
fn sort_names(names: Vec<String>) -> (r: Vec<String>)
    ensures
        r@.to_multiset() == names@.to_multiset(),
        r@.len() == names@.len(),
        forall|j: int| 0 <= j < r@.len() - 1 ==> !chars_lt(r@[j + 1]@, #[trigger] r@[j]@),
{
    broadcast use vstd::seq_lib::group_to_multiset_ensures;
    broadcast use vstd::multiset::group_multiset_axioms;

    let mut rest = names;
    let mut out: Vec<String> = Vec::new();
    assert(out@.to_multiset().add(rest@.to_multiset()) =~= names@.to_multiset());
    while rest.len() > 0
        invariant
            out@.to_multiset().add(rest@.to_multiset()) == names@.to_multiset(),
            forall|j: int| 0 <= j < out@.len() - 1 ==> !chars_lt(out@[j + 1]@, #[trigger] out@[j]@),
        decreases rest.len(),
    {
        let ghost rest0 = rest@;
        let name = match rest.pop() {
            Some(x) => x,
            None => {
                return out;
            },
        };
        assert(rest0 =~= rest@.push(name));
        proof {
            to_multiset_build(rest@, name);
        }
        assert(rest0.to_multiset() =~= rest@.to_multiset().insert(name));
        let nc = str_to_chars(name.as_str());
        let mut k: usize = 0;
        while k < out.len() && !chars_less(&nc, &str_to_chars(out[k].as_str()))
            invariant
                0 <= k <= out@.len(),
                nc@ == name@,
                forall|j: int| 0 <= j < k ==> !chars_lt(name@, #[trigger] out@[j]@),
            decreases out.len() - k,
        {
            k = k + 1;
        }
        let ghost out0 = out@;
        proof {
            if k < out0.len() {
                lemma_chars_lt_total(name@, out0[k as int]@);
            }
            to_multiset_insert(out0, k as int, name);
        }
        out.insert(k, name);
        assert(out@ == out0.insert(k as int, name));
        assert(out@.to_multiset() =~= out0.to_multiset().insert(name));
        assert forall|j: int| 0 <= j < out@.len() - 1 implies !chars_lt(out@[j + 1]@, #[trigger] out@[j]@) by {
            if j + 1 < k {
                assert(out@[j] == out0[j] && out@[j + 1] == out0[j + 1]);
            } else if j + 1 == k {
                assert(out@[j] == out0[j] && out@[j + 1] == name);
            } else if j == k {
                assert(out@[j] == name && out@[j + 1] == out0[j]);
            } else {
                assert(out@[j] == out0[j - 1] && out@[j + 1] == out0[j]);
            }
        }
        assert(out@.to_multiset().add(rest@.to_multiset()) =~= names@.to_multiset());
    }
    assert(rest@.to_multiset() =~= Multiset::<String>::empty());
    assert(out@.to_multiset() =~= names@.to_multiset());
    assert(out@.to_multiset().len() == out@.len());
    assert(names@.to_multiset().len() == names@.len());
    out
}

/// The entries of the folder `dir` (the current folder when it is empty), one
/// candidate counted per entry, sorted by name.
#[verifier::loop_isolation(false)]
fn read_directory_bounded<F: WalkFileSystem>(
    fs: &F,
    dir: &str,
    pattern: &str,
    seen: &mut usize,
    limit: usize,
) -> (r: Result<Vec<String>, GlobExpansionError>)
    requires
        *old(seen) <= limit,
    ensures
        *old(seen) <= *final(seen) <= limit,
        r matches Ok(v) ==> *final(seen) == *old(seen) + v@.len(),
        r matches Err(e) ==> walk_error(e, pattern@, limit, *final(seen)),
{
    let seen0 = *seen;
    let listing = if str_to_chars(dir).len() == 0 {
        fs.list_directory(".")
    } else {
        fs.list_directory(dir)
    };
    let entries = match listing {
        Err(m) => {
            return Err(traversal_error(pattern, m));
        },
        Ok(None) => {
            return Ok(Vec::new());
        },
        Ok(Some(e)) => e,
    };
    let mut names: Vec<String> = Vec::new();
    let mut i: usize = 0;
    while i < entries.len()
        invariant
            seen0 <= *seen <= limit,
            *seen == seen0 + names@.len(),
            0 <= i <= entries@.len(),
        decreases entries.len() - i,
    {
        match increment_candidates(seen, limit) {
            Err(e) => {
                return Err(e);
            },
            Ok(()) => {},
        }
        match &entries[i] {
            Ok(name) => {
                names.push(name.clone());
            },
            Err(m) => {
                return Err(traversal_error(pattern, m.clone()));
            },
        }
        i = i + 1;
    }
    Ok(sort_names(names))
}

/// Records `path` as found, or as a folder still to walk from component `next`,
/// as the walk does for a candidate from a folder listing.
fn place_candidate<F: WalkFileSystem>(
    fs: &F,
    path: String,
    names: Ghost<Seq<Seq<char>>>,
    next: usize,
    is_last: bool,
    require_directory: bool,
    pattern: &str,
    pending: &mut Vec<WalkItem>,
    found: &mut Vec<WalkFound>,
    Ghost(cv): Ghost<Seq<ComponentSpec>>,
    Ghost(b): Ghost<Seq<char>>,
) -> (r: Result<(), GlobExpansionError>)
    requires
        path@ == join_all(b, names@),
        next <= cv.len(),
        prefix_ok(cv, names@, next as int),
        is_last ==> matches_from(cv, 0, names@),
        items_ok(cv, b, old(pending)@),
        founds_ok(cv, b, old(found)@),
    ensures
        items_ok(cv, b, final(pending)@),
        founds_ok(cv, b, final(found)@),
        r matches Err(e) ==> traversal_of(e, pattern@),
        final(found)@ == old(found)@ || final(found)@ == old(found)@.push(
            (WalkFound { path, names }),
        ),
        final(pending)@ == old(pending)@ || final(pending)@ == old(pending)@.push(
            (WalkItem { path, index: next, names }),
        ),
        final(found)@ == old(found)@ || final(pending)@ == old(pending)@,
        !is_last ==> final(found)@ == old(found)@,
        is_last && !require_directory ==> r is Ok && final(pending)@ == old(pending)@
            && final(found)@ == old(found)@.push((WalkFound { path, names })),
{
    let mut to_found = false;
    if is_last {
        if !require_directory {
            to_found = true;
        } else {
            match path_is_directory(fs, path.as_str(), pattern) {
                Err(e) => {
                    return Err(e);
                },
                Ok(d) => {
                    to_found = d;
                },
            }
        }
    }
    if to_found {
        found.push(WalkFound { path, names });
        assert(founds_ok(cv, b, found@)) by {
            assert forall|k: int| 0 <= k < found@.len() implies found_ok(cv, b, #[trigger] found@[k]) by {
                if k < found@.len() - 1 {
                    assert(found@[k] == old(found)@[k]);
                }
            }
        }
        return Ok(());
    }
    match path_is_directory(fs, path.as_str(), pattern) {
        Err(e) => {
            return Err(e);
        },
        Ok(true) => {
            pending.push(WalkItem { path, index: next, names });
            assert(items_ok(cv, b, pending@)) by {
                assert forall|k: int| 0 <= k < pending@.len() implies item_ok(cv, b, #[trigger] pending@[k]) by {
                    if k < pending@.len() - 1 {
                        assert(pending@[k] == old(pending)@[k]);
                    }
                }
            }
        },
        Ok(false) => {},
    }
    Ok(())
}

/// All components applied: `it.path` is found when it exists (and is a folder,
/// if one is required).
fn visit_end<F: WalkFileSystem>(
    fs: &F,
    it: &WalkItem,
    require_directory: bool,
    pattern: &str,
    found: &mut Vec<WalkFound>,
    Ghost(cv): Ghost<Seq<ComponentSpec>>,
    Ghost(b): Ghost<Seq<char>>,
) -> (r: Result<(), GlobExpansionError>)
    requires
        item_ok(cv, b, *it),
        it.index == cv.len(),
        founds_ok(cv, b, old(found)@),
    ensures
        founds_ok(cv, b, final(found)@),
        r matches Err(e) ==> traversal_of(e, pattern@),
        final(found)@ == old(found)@ || (final(found)@.len() == old(found)@.len() + 1
            && final(found)@.drop_last() == old(found)@ && final(found)@.last().path@ == it.path@
            && final(found)@.last().names@ == it.names@),
        r is Err ==> final(found)@ == old(found)@,
{
    match fs.metadata_is_dir(it.path.as_str()) {
        Err(m) => Err(traversal_error(pattern, m)),
        Ok(None) => Ok(()),
        Ok(Some(is_dir)) => {
            if !require_directory || is_dir {
                proof {
                    lemma_end(cv, it.names@);
                }
                found.push(WalkFound { path: it.path.clone(), names: Ghost(it.names@) });
                assert(found@.drop_last() =~= old(found)@);
                assert forall|k: int| 0 <= k < found@.len() implies found_ok(cv, b, #[trigger] found@[k]) by {
                    if k < found@.len() - 1 {
                        assert(found@[k] == old(found)@[k]);
                    }
                }
            }
            Ok(())
        },
    }
}

/// A literal component: one candidate, the name joined to the path.
fn visit_literal<F: WalkFileSystem>(
    fs: &F,
    it: &WalkItem,
    lit: &String,
    is_last: bool,
    require_directory: bool,
    pattern: &str,
    seen: &mut usize,
    limit: usize,
    pending: &mut Vec<WalkItem>,
    found: &mut Vec<WalkFound>,
    Ghost(cv): Ghost<Seq<ComponentSpec>>,
    Ghost(b): Ghost<Seq<char>>,
) -> (r: Result<(), GlobExpansionError>)
    requires
        item_ok(cv, b, *it),
        it.index < cv.len(),
        cv.len() <= usize::MAX,
        cv[it.index as int] == ComponentSpec::Literal(lit@),
        is_last == (it.index + 1 == cv.len()),
        *old(seen) <= limit,
        items_ok(cv, b, old(pending)@),
        founds_ok(cv, b, old(found)@),
    ensures
        *old(seen) <= *final(seen) <= limit,
        items_ok(cv, b, final(pending)@),
        founds_ok(cv, b, final(found)@),
        *final(seen) > *old(seen) || final(pending)@ == old(pending)@,
        r matches Err(e) ==> walk_error(e, pattern@, limit, *final(seen)),
{
    match increment_candidates(seen, limit) {
        Err(e) => {
            return Err(e);
        },
        Ok(()) => {},
    }
    let path = join_path(it.path.as_str(), lit.as_str());
    let ghost names = it.names@.push(lit@);
    proof {
        lemma_join_push(b, it.names@, lit@);
        lemma_step(cv, it.names@, it.index as int, lit@);
    }
    let kind = match fs.symlink_kind(path.as_str()) {
        Err(m) => {
            return Err(traversal_error(pattern, m));
        },
        Ok(None) => {
            return Ok(());
        },
        Ok(Some(k)) => k,
    };
    let is_directory = if kind.0 {
        true
    } else if kind.1 {
        match path_is_directory(fs, path.as_str(), pattern) {
            Err(e) => {
                return Err(e);
            },
            Ok(d) => d,
        }
    } else {
        false
    };
    if is_last && (!require_directory || is_directory) {
        found.push(WalkFound { path, names: Ghost(names) });
        assert forall|k: int| 0 <= k < found@.len() implies found_ok(cv, b, #[trigger] found@[k]) by {
            if k < found@.len() - 1 {
                assert(found@[k] == old(found)@[k]);
            }
        }
    } else if is_directory {
        pending.push(WalkItem { path, index: it.index + 1, names: Ghost(names) });
        assert forall|k: int| 0 <= k < pending@.len() implies item_ok(cv, b, #[trigger] pending@[k]) by {
            if k < pending@.len() - 1 {
                assert(pending@[k] == old(pending)@[k]);
            }
        }
    }
    Ok(())
}

/// The special name `dot` (`.` or `..`) as a candidate for a pattern component.
fn visit_dot_name<F: WalkFileSystem>(
    fs: &F,
    it: &WalkItem,
    text: &String,
    dot: &str,
    is_last: bool,
    require_directory: bool,
    pattern: &str,
    seen: &mut usize,
    limit: usize,
    pending: &mut Vec<WalkItem>,
    found: &mut Vec<WalkFound>,
    Ghost(cv): Ghost<Seq<ComponentSpec>>,
    Ghost(b): Ghost<Seq<char>>,
) -> (r: Result<(), GlobExpansionError>)
    requires
        item_ok(cv, b, *it),
        it.index < cv.len(),
        cv.len() <= usize::MAX,
        cv[it.index as int] == ComponentSpec::Pattern(text@),
        is_last == (it.index + 1 == cv.len()),
        *old(seen) <= limit,
        items_ok(cv, b, old(pending)@),
        founds_ok(cv, b, old(found)@),
    ensures
        *old(seen) <= *final(seen) <= limit,
        items_ok(cv, b, final(pending)@),
        founds_ok(cv, b, final(found)@),
        *final(seen) > *old(seen) || final(pending)@ == old(pending)@,
        r matches Err(e) ==> walk_error(e, pattern@, limit, *final(seen)),
{
    if !pattern_matches(text.as_str(), dot) {
        return Ok(());
    }
    match increment_candidates(seen, limit) {
        Err(e) => {
            return Err(e);
        },
        Ok(()) => {},
    }
    let path = join_path(it.path.as_str(), dot);
    let ghost names = it.names@.push(dot@);
    proof {
        lemma_join_push(b, it.names@, dot@);
        lemma_step(cv, it.names@, it.index as int, dot@);
    }
    place_candidate(
        fs,
        path,
        Ghost(names),
        it.index + 1,
        is_last,
        require_directory,
        pattern,
        pending,
        found,
        Ghost(cv),
        Ghost(b),
    )
}

/// Where the walk puts a candidate of a folder listing.
#[derive(Debug, Clone, Copy, PartialEq, Eq, Structural)]
pub enum Placement {
    /// Among the paths found.
    Found,
    /// A folder to walk from the next component.
    Pending,
    /// Neither.
    Dropped,
}

/// The place of a candidate that a pattern component matches, given the file
/// system's two answers to whether it is a folder: the first is asked when the
/// component is the last and a folder is required, the second when the
/// candidate was not found. The last component finds the candidate unless a
/// folder is required and it is none; otherwise a folder is walked further.
pub open spec fn placement(is_last: bool, require_directory: bool, dir_first: bool, dir_second: bool) -> Placement {
    if is_last && (!require_directory || dir_first) {
        Placement::Found
    } else if dir_second {
        Placement::Pending
    } else {
        Placement::Dropped
    }
}

/// The place of the listing entry `name` for the pattern component `text`:
/// dropped unless the pattern matches it, else as [`placement`] says.
pub open spec fn listing_placement(
    text: Seq<char>,
    name: Seq<char>,
    is_last: bool,
    require_directory: bool,
    dir_first: bool,
    dir_second: bool,
) -> Placement {
    if glob_pattern_matches(text, name) {
        placement(is_last, require_directory, dir_first, dir_second)
    } else {
        Placement::Dropped
    }
}

/// Where each entry of a folder listing goes for the pattern component `text`,
/// given the file system's answers for each entry (see [`placement`]).
pub fn place_listing(
    entries: &Vec<String>,
    text: &str,
    is_last: bool,
    require_directory: bool,
    dir_first: &Vec<bool>,
    dir_second: &Vec<bool>,
) -> (r: Vec<Placement>)
    requires
        dir_first@.len() == entries@.len(),
        dir_second@.len() == entries@.len(),
    ensures
        r@.len() == entries@.len(),
        forall|k: int|
            0 <= k < entries@.len() ==> #[trigger] r@[k] == listing_placement(
                text@,
                entries@[k]@,
                is_last,
                require_directory,
                dir_first@[k],
                dir_second@[k],
            ),
{
    let mut r: Vec<Placement> = Vec::new();
    let mut j: usize = 0;
    while j < entries.len()
        invariant
            0 <= j <= entries@.len(),
            dir_first@.len() == entries@.len(),
            dir_second@.len() == entries@.len(),
            r@.len() == j,
            forall|k: int|
                0 <= k < j ==> #[trigger] r@[k] == listing_placement(
                    text@,
                    entries@[k]@,
                    is_last,
                    require_directory,
                    dir_first@[k],
                    dir_second@[k],
                ),
        decreases entries.len() - j,
    {
        let p = if !pattern_matches(text, entries[j].as_str()) {
            Placement::Dropped
        } else if is_last && (!require_directory || dir_first[j]) {
            Placement::Found
        } else if dir_second[j] {
            Placement::Pending
        } else {
            Placement::Dropped
        };
        r.push(p);
        j = j + 1;
    }
    r
}

/// A pattern component: `.` and `..` when the pattern starts with a dot, then
/// the folder's entries that the pattern matches, placed by [`place_listing`]
/// after the file system was asked what it needs to know of each.
#[verifier::loop_isolation(false)]
fn visit_pattern<F: WalkFileSystem>(
    fs: &F,
    it: &WalkItem,
    text: &String,
    is_last: bool,
    require_directory: bool,
    pattern: &str,
    seen: &mut usize,
    limit: usize,
    pending: &mut Vec<WalkItem>,
    found: &mut Vec<WalkFound>,
    Ghost(cv): Ghost<Seq<ComponentSpec>>,
    Ghost(b): Ghost<Seq<char>>,
) -> (r: Result<(), GlobExpansionError>)
    requires
        item_ok(cv, b, *it),
        it.index < cv.len(),
        cv.len() <= usize::MAX,
        cv[it.index as int] == ComponentSpec::Pattern(text@),
        is_last == (it.index + 1 == cv.len()),
        *old(seen) <= limit,
        items_ok(cv, b, old(pending)@),
        founds_ok(cv, b, old(found)@),
    ensures
        *old(seen) <= *final(seen) <= limit,
        items_ok(cv, b, final(pending)@),
        founds_ok(cv, b, final(found)@),
        *final(seen) > *old(seen) || final(pending)@ == old(pending)@,
        r matches Err(e) ==> walk_error(e, pattern@, limit, *final(seen)),
{
    let seen0 = *seen;
    let ghost pending0 = pending@;
    let tc = str_to_chars(text.as_str());
    if tc.len() > 0 && tc[0] == '.' {
        match visit_dot_name(
            fs, it, text, ".", is_last, require_directory, pattern, seen, limit, pending, found,
            Ghost(cv), Ghost(b),
        ) {
            Err(e) => {
                return Err(e);
            },
            Ok(()) => {},
        }
        match visit_dot_name(
            fs, it, text, "..", is_last, require_directory, pattern, seen, limit, pending, found,
            Ghost(cv), Ghost(b),
        ) {
            Err(e) => {
                return Err(e);
            },
            Ok(()) => {},
        }
    }
    let entries = match read_directory_bounded(fs, it.path.as_str(), pattern, seen, limit) {
        Err(e) => {
            return Err(e);
        },
        Ok(v) => v,
    };
    let mut dir_first: Vec<bool> = Vec::new();
    let mut dir_second: Vec<bool> = Vec::new();
    let mut j: usize = 0;
    while j < entries.len()
        invariant
            0 <= j <= entries@.len(),
            dir_first@.len() == j,
            dir_second@.len() == j,
        decreases entries.len() - j,
    {
        let mut first = false;
        let mut second = false;
        if pattern_matches(text.as_str(), entries[j].as_str()) {
            let path = join_path(it.path.as_str(), entries[j].as_str());
            if is_last && require_directory {
                match path_is_directory(fs, path.as_str(), pattern) {
                    Err(e) => {
                        return Err(e);
                    },
                    Ok(d) => {
                        first = d;
                    },
                }
            }
            if !(is_last && (!require_directory || first)) {
                match path_is_directory(fs, path.as_str(), pattern) {
                    Err(e) => {
                        return Err(e);
                    },
                    Ok(d) => {
                        second = d;
                    },
                }
            }
        }
        dir_first.push(first);
        dir_second.push(second);
        j = j + 1;
    }
    let places = place_listing(&entries, text.as_str(), is_last, require_directory, &dir_first, &dir_second);
    let mut j: usize = 0;
    while j < entries.len()
        invariant
            0 <= j <= entries@.len(),
            places@.len() == entries@.len(),
            seen0 <= *seen <= limit,
            entries@.len() > 0 ==> *seen > seen0,
            *seen > seen0 || pending@ == pending0,
            items_ok(cv, b, pending@),
            founds_ok(cv, b, found@),
        decreases entries.len() - j,
    {
        let name = &entries[j];
        let place = places[j];
        assert(place == listing_placement(text@, entries@[j as int]@, is_last, require_directory, dir_first@[j as int], dir_second@[j as int]));
        if place != Placement::Dropped {
            let path = join_path(it.path.as_str(), name.as_str());
            let ghost names = it.names@.push(name@);
            proof {
                lemma_join_push(b, it.names@, name@);
                lemma_step(cv, it.names@, it.index as int, name@);
            }
            if place == Placement::Found {
                let ghost before_found = found@;
                found.push(WalkFound { path, names: Ghost(names) });
                assert forall|k: int| 0 <= k < found@.len() implies found_ok(cv, b, #[trigger] found@[k]) by {
                    if k < found@.len() - 1 {
                        assert(found@[k] == before_found[k]);
                    }
                }
            } else {
                let ghost before = pending@;
                pending.push(WalkItem { path, index: it.index + 1, names: Ghost(names) });
                assert forall|k: int| 0 <= k < pending@.len() implies item_ok(cv, b, #[trigger] pending@[k]) by {
                    if k < pending@.len() - 1 {
                        assert(pending@[k] == before[k]);
                    }
                }
            }
        }
        j = j + 1;
    }
    Ok(())
}

/// `**`: without a name (unless it is the last component), and through every
/// sub-folder, which is kept for this component again.
#[verifier::loop_isolation(false)]
fn visit_recursive<F: WalkFileSystem>(
    fs: &F,
    it: &WalkItem,
    is_last: bool,
    pattern: &str,
    seen: &mut usize,
    limit: usize,
    pending: &mut Vec<WalkItem>,
    found: &mut Vec<WalkFound>,
    Ghost(cv): Ghost<Seq<ComponentSpec>>,
    Ghost(b): Ghost<Seq<char>>,
) -> (r: Result<(), GlobExpansionError>)
    requires
        item_ok(cv, b, *it),
        it.index < cv.len(),
        cv.len() <= usize::MAX,
        cv[it.index as int] is Recursive,
        is_last == (it.index + 1 == cv.len()),
        *old(seen) <= limit,
        items_ok(cv, b, old(pending)@),
        founds_ok(cv, b, old(found)@),
    ensures
        *old(seen) <= *final(seen) <= limit,
        items_ok(cv, b, final(pending)@),
        founds_ok(cv, b, final(found)@),
        *final(seen) > *old(seen) || weight(cv.len(), final(pending)@) <= weight(
            cv.len(),
            old(pending)@,
        ) + (cv.len() - it.index),
        r matches Err(e) ==> walk_error(e, pattern@, limit, *final(seen)),
{
    let seen0 = *seen;
    let ghost n = cv.len();
    if !is_last {
        proof {
            lemma_skip(cv, it.names@, it.index as int);
        }
        let skip = WalkItem { path: it.path.clone(), index: it.index + 1, names: Ghost(it.names@) };
        proof {
            lemma_weight_push(n, pending@, skip);
        }
        pending.push(skip);
        assert forall|k: int| 0 <= k < pending@.len() implies item_ok(cv, b, #[trigger] pending@[k]) by {
            if k < pending@.len() - 1 {
                assert(pending@[k] == old(pending)@[k]);
            }
        }
    }
    let ghost pending1 = pending@;
    assert(weight(n, pending1) <= weight(n, old(pending)@) + (n - it.index));
    let entries = match read_directory_bounded(fs, it.path.as_str(), pattern, seen, limit) {
        Err(e) => {
            return Err(e);
        },
        Ok(v) => v,
    };
    let mut j: usize = 0;
    while j < entries.len()
        invariant
            0 <= j <= entries@.len(),
            seen0 <= *seen <= limit,
            entries@.len() > 0 ==> *seen > seen0,
            *seen > seen0 || pending@ == pending1,
            items_ok(cv, b, pending@),
            founds_ok(cv, b, found@),
        decreases entries.len() - j,
    {
        let name = &entries[j];
        let path = join_path(it.path.as_str(), name.as_str());
        let is_dir = match path_is_directory(fs, path.as_str(), pattern) {
            Err(e) => {
                return Err(e);
            },
            Ok(d) => d,
        };
        if is_dir {
            let ghost names = it.names@.push(name@);
            proof {
                lemma_join_push(b, it.names@, name@);
                lemma_descend(cv, it.names@, it.index as int, name@);
            }
            if is_last {
                let ghost before_found = found@;
                found.push(WalkFound { path: path.clone(), names: Ghost(names) });
                assert forall|k: int| 0 <= k < found@.len() implies found_ok(cv, b, #[trigger] found@[k]) by {
                    if k < found@.len() - 1 {
                        assert(found@[k] == before_found[k]);
                    }
                }
            }
            let ghost before = pending@;
            pending.push(WalkItem { path, index: it.index, names: Ghost(names) });
            assert forall|k: int| 0 <= k < pending@.len() implies item_ok(cv, b, #[trigger] pending@[k]) by {
                if k < pending@.len() - 1 {
                    assert(pending@[k] == before[k]);
                }
            }
        }
        j = j + 1;
    }
    Ok(())
}

/// Whether the same path, with component `index`, was visited already.
fn visited_contains(visited: &Vec<(String, usize)>, path: &str, index: usize) -> (r: bool)
    ensures
        r == exists|k: int|
            0 <= k < visited@.len() && same_path(#[trigger] visited@[k].0@, path@) && visited@[k].1
                == index,
{
    let mut i: usize = 0;
    while i < visited.len()
        invariant
            0 <= i <= visited@.len(),
            forall|k: int|
                0 <= k < i ==> !(same_path(#[trigger] visited@[k].0@, path@) && visited@[k].1 == index),
        decreases visited.len() - i,
    {
        if visited[i].1 == index && path_eq(visited[i].0.as_str(), path) {
            return true;
        }
        i = i + 1;
    }
    false
}

/// Walks the file system from `base` through the components `cs`, counting every
/// file system candidate against `limit`. Each place (path and component) is
/// visited once. The paths found come back in path order without repeats, and
/// each is `base` followed by names that the components match.
#[verifier::loop_isolation(false)]
pub fn walk_bounded_glob<F: WalkFileSystem>(
    fs: &F,
    base: &str,
    cs: &Vec<GlobComponent>,
    require_directory: bool,
    pattern: &str,
    seen: &mut usize,
    limit: usize,
) -> (r: Result<Vec<String>, GlobExpansionError>)
    requires
        *old(seen) <= limit,
    ensures
        *old(seen) <= *final(seen) <= limit,
        r matches Ok(v) ==> strictly_sorted(string_views(v@)) && forall|k: int|
            0 <= k < v@.len() ==> matches_pattern_path(component_specs(cs@), base@, #[trigger] v@[k]@),
        r matches Err(e) ==> walk_error(e, pattern@, limit, *final(seen)),
{
    let ghost cv = component_specs(cs@);
    let ghost n = cv.len();
    let ghost b = base@;
    let mut pending: Vec<WalkItem> = Vec::new();
    let start = WalkItem {
        path: chars_to_string(str_to_chars(base).as_slice()),
        index: 0,
        names: Ghost(Seq::<Seq<char>>::empty()),
    };
    assert(join_all(b, Seq::<Seq<char>>::empty()) == b);
    assert forall|rest: Seq<Seq<char>>| #[trigger] matches_from(cv, 0, rest) implies matches_from(
        cv,
        0,
        Seq::<Seq<char>>::empty() + rest,
    ) by {
        assert(Seq::<Seq<char>>::empty() + rest =~= rest);
    }
    pending.push(start);
    let mut visited: Vec<(String, usize)> = Vec::new();
    let mut found: Vec<WalkFound> = Vec::new();
    loop
        invariant
            *old(seen) <= *seen <= limit,
            cv == component_specs(cs@),
            n == cv.len(),
            n == cs@.len(),
            b == base@,
            items_ok(cv, b, pending@),
            founds_ok(cv, b, found@),
        decreases limit - *seen, weight(n, pending@),
    {
        let ghost w0 = weight(n, pending@);
        let seen0 = *seen;
        let item = match pending.pop() {
            None => {
                break;
            },
            Some(x) => x,
        };
        proof {
            let p0 = pending@.push(item);
            assert(p0.drop_last() =~= pending@);
            assert(item_ok(cv, b, p0[p0.len() - 1]));
        }
        assert(w0 == weight(n, pending@) + item_weight(n, item));
        assert(items_ok(cv, b, pending@));
        if visited_contains(&visited, item.path.as_str(), item.index) {
            continue;
        }
        visited.push((item.path.clone(), item.index));
        if item.index >= cs.len() {
            match visit_end(fs, &item, require_directory, pattern, &mut found, Ghost(cv), Ghost(b)) {
                Err(e) => {
                    return Err(e);
                },
                Ok(()) => {},
            }
            continue;
        }
        let is_last = item.index + 1 == cs.len();
        let outcome = match &cs[item.index] {
            GlobComponent::Literal(lit) => visit_literal(
                fs, &item, lit, is_last, require_directory, pattern, seen, limit, &mut pending,
                &mut found, Ghost(cv), Ghost(b),
            ),
            GlobComponent::Pattern(text) => visit_pattern(
                fs, &item, text, is_last, require_directory, pattern, seen, limit, &mut pending,
                &mut found, Ghost(cv), Ghost(b),
            ),
            GlobComponent::Recursive => visit_recursive(
                fs, &item, is_last, pattern, seen, limit, &mut pending, &mut found, Ghost(cv),
                Ghost(b),
            ),
        };
        match outcome {
            Err(e) => {
                return Err(e);
            },
            Ok(()) => {},
        }
    }
    let mut paths: Vec<String> = Vec::new();
    let mut i: usize = 0;
    while i < found.len()
        invariant
            0 <= i <= found@.len(),
            paths@.len() == i,
            founds_ok(cv, b, found@),
            forall|k: int| 0 <= k < i ==> (#[trigger] paths@[k])@ == found@[k].path@,
        decreases found.len() - i,
    {
        paths.push(found[i].path.clone());
        i = i + 1;
    }
    let sorted = sort_dedup_paths(paths);
    assert forall|k: int| 0 <= k < sorted@.len() implies matches_pattern_path(cv, b, #[trigger] sorted@[k]@) by {
        let pv = string_views(paths@);
        assert(pv.contains(sorted@[k]@));
        let j = choose|j: int| 0 <= j < pv.len() && pv[j] == sorted@[k]@;
        assert(paths@[j]@ == found@[j].path@);
        assert(found_ok(cv, b, found@[j]));
        assert(join_all(b, found@[j].names@) == sorted@[k]@ && matches_from(cv, 0, found@[j].names@));
    }
    Ok(sorted)
}

/// Whether the last character of `pattern` is a path separator: then only folders match.
pub open spec fn wants_directory(pattern: Seq<char>) -> bool {
    pattern.len() > 0 && pattern.last() == '/'
}

/// What expanding one pattern against the file system can give, `seen`
/// candidates having been counted after it: the error of an invalid component,
/// else paths in path order that match the pattern, or a failure of the walk.
pub open spec fn pattern_expansion_ok(
    pattern: Seq<char>,
    limit: usize,
    seen: usize,
    r: Result<Vec<String>, GlobExpansionError>,
) -> bool {
    match first_pattern_error(planned(pattern)) {
        Some(m) => r matches Err(GlobExpansionError::InvalidPattern { pattern: p, message }) && p@
            == pattern && message@ == m,
        None => (r matches Ok(v) ==> strictly_sorted(string_views(v@)) && forall|k: int|
            0 <= k < v@.len() ==> matches_pattern_path(
                planned(pattern),
                pattern_base(pattern),
                #[trigger] v@[k]@,
            )) && (r matches Err(e) ==> walk_error(e, pattern, limit, seen)),
    }
}

/// Expands one pattern with metacharacters against the file system.
pub fn expand_filesystem_pattern_bounded<F: WalkFileSystem>(
    fs: &F,
    pattern: &str,
    seen: &mut usize,
    limit: usize,
) -> (r: Result<Vec<String>, GlobExpansionError>)
    requires
        *old(seen) <= limit,
    ensures
        *old(seen) <= *final(seen) <= limit,
        pattern_expansion_ok(pattern@, limit, *final(seen), r),
{
    let chars = str_to_chars(pattern);
    let require_directory = chars.len() > 0 && chars[chars.len() - 1] == '/';
    let (base, cs) = match plan_pattern(pattern) {
        Err(e) => {
            return Err(e);
        },
        Ok(plan) => plan,
    };
    walk_bounded_glob(fs, base.as_str(), &cs, require_directory, pattern, seen, limit)
}

/// Adds the variants `vs` in turn to the distinct patterns `pats`.
pub open spec fn add_variants(vs: Seq<Seq<char>>, pats: Seq<Seq<char>>, max: usize) -> Result<
    Seq<Seq<char>>,
    GlobExpansionError,
>
    decreases vs.len(),
{
    if vs.len() == 0 {
        Ok(pats)
    } else {
        match add_unique(pats, vs[0], max) {
            Err(e) => Err(e),
            Ok(p2) => add_variants(vs.drop_first(), p2, max),
        }
    }
}

/// The distinct patterns to expand for the inputs `paths`: repeated inputs are
/// skipped, inputs with metacharacters or brace groups are brace-expanded, and
/// at most `max` distinct patterns are kept.
pub open spec fn collect_patterns(paths: Seq<Seq<char>>, max: usize) -> Result<
    Seq<Seq<char>>,
    GlobExpansionError,
>
    decreases paths.len(),
{
    if paths.len() == 0 {
        Ok(seq![])
    } else {
        match collect_patterns(paths.drop_last(), max) {
            Err(e) => Err(e),
            Ok(pats) => {
                let p = paths.last();
                if paths.drop_last().contains(p) {
                    Ok(pats)
                } else {
                    let vs = if is_glob(p) {
                        bounded_expansion(p, max)
                    } else {
                        Ok(seq![p])
                    };
                    match vs {
                        Err(e) => Err(e),
                        Ok(vs) => add_variants(vs, pats, max),
                    }
                }
            },
        }
    }
}

proof fn lemma_add_variants_step(vs: Seq<Seq<char>>, j: int, pats: Seq<Seq<char>>, max: usize)
    requires
        0 <= j < vs.len(),
    ensures
        add_variants(vs.subrange(j, vs.len() as int), pats, max) == match add_unique(pats, vs[j], max) {
            Err(e) => Err(e),
            Ok(p2) => add_variants(vs.subrange(j + 1, vs.len() as int), p2, max),
        },
{
    let rest = vs.subrange(j, vs.len() as int);
    assert(rest[0] == vs[j]);
    assert(rest.drop_first() =~= vs.subrange(j + 1, vs.len() as int));
}

/// Adds the variants `vs` to `pats`, in order.
#[verifier::loop_isolation(false)]
fn add_variants_exec(pats: &mut Vec<Vec<char>>, vs: Vec<Vec<char>>, max: usize) -> (r: Result<
    (),
    GlobExpansionError,
>)
    ensures
        match add_variants(char_views(vs@), char_views(old(pats)@), max) {
            Ok(p) => r is Ok && char_views(final(pats)@) == p,
            Err(e) => r == Err::<(), GlobExpansionError>(e),
        },
{
    let ghost vv = char_views(vs@);
    let ghost target = add_variants(vv, char_views(pats@), max);
    let mut j: usize = 0;
    assert(vv.subrange(0, vv.len() as int) =~= vv);
    while j < vs.len()
        invariant
            0 <= j <= vs@.len(),
            vv == char_views(vs@),
            add_variants(vv.subrange(j as int, vv.len() as int), char_views(pats@), max) == target,
        decreases vs.len() - j,
    {
        proof {
            lemma_add_variants_step(vv, j as int, char_views(pats@), max);
        }
        assert(vv[j as int] == vs@[j as int]@);
        let ghost before_vec = pats@;
        assert(crate::glob::views(before_vec) =~= char_views(before_vec));
        let res = crate::glob::add_unique_exec(pats, vs[j].clone(), max);
        assert(crate::glob::views(pats@) =~= char_views(pats@));
        match res {
            Err(e) => {
                assert(add_unique(char_views(before_vec), vv[j as int], max) == Err::<Seq<Seq<char>>, GlobExpansionError>(e));
                return Err(e);
            },
            Ok(()) => {},
        }
        j = j + 1;
    }
    assert(vv.subrange(vs@.len() as int, vv.len() as int) =~= Seq::<Seq<char>>::empty());
    Ok(())
}

proof fn lemma_collect_err(paths: Seq<Seq<char>>, k: int)
    requires
        0 <= k <= paths.len(),
        collect_patterns(paths.subrange(0, k), 0) is Err || true,
    ensures
        forall|max: usize|
            #[trigger] collect_patterns(paths.subrange(0, k), max) is Err ==> collect_patterns(paths, max)
                == collect_patterns(paths.subrange(0, k), max),
    decreases paths.len(),
{
    if k == paths.len() {
        assert(paths.subrange(0, k) =~= paths);
    } else {
        let shorter = paths.drop_last();
        assert(shorter.subrange(0, k) =~= paths.subrange(0, k));
        lemma_collect_err(shorter, k);
    }
}

/// Exec counterpart of [`collect_patterns`].
#[verifier::loop_isolation(false)]
fn collect_patterns_exec(paths: &[String], max: usize) -> (r: Result<Vec<Vec<char>>, GlobExpansionError>)
    ensures
        match collect_patterns(string_views(paths@), max) {
            Ok(p) => r matches Ok(v) && char_views(v@) == p,
            Err(e) => r == Err::<Vec<Vec<char>>, GlobExpansionError>(e),
        },
{
    let ghost pv = string_views(paths@);
    let mut pats: Vec<Vec<char>> = Vec::new();
    let mut i: usize = 0;
    assert(pv.subrange(0, 0) =~= Seq::<Seq<char>>::empty());
    assert(char_views(pats@) =~= Seq::<Seq<char>>::empty());
    while i < paths.len()
        invariant
            0 <= i <= paths@.len(),
            pv == string_views(paths@),
            collect_patterns(pv.subrange(0, i as int), max) == Ok::<Seq<Seq<char>>, GlobExpansionError>(
                char_views(pats@),
            ),
        decreases paths.len() - i,
    {
        let ghost pre = pv.subrange(0, i as int);
        let ghost cur = pv.subrange(0, i + 1);
        assert(cur.drop_last() =~= pre);
        assert(cur.last() == paths@[i as int]@);
        proof {
            lemma_collect_err(pv, i + 1);
        }
        let mut dup = false;
        let mut j: usize = 0;
        while j < i
            invariant
                0 <= j <= i,
                i < paths@.len(),
                dup == exists|k: int| 0 <= k < j && paths@[k]@ == paths@[i as int]@,
            decreases i - j,
        {
            if paths[j] == paths[i] {
                dup = true;
            }
            j = j + 1;
        }
        assert(dup == pre.contains(cur.last())) by {
            if dup {
                let k = choose|k: int| 0 <= k < i && paths@[k]@ == paths@[i as int]@;
                assert(pre[k] == paths@[k]@);
            }
            if pre.contains(cur.last()) {
                let k = choose|k: int| 0 <= k < pre.len() && pre[k] == cur.last();
                assert(paths@[k]@ == pre[k]);
            }
        }
        if !dup {
            let p = &paths[i];
            let variants: Vec<Vec<char>> = if is_glob_pattern(p.as_str()) {
                match expand_braces_bounded(p.as_str(), max) {
                    Err(e) => {
                        return Err(e);
                    },
                    Ok(vs) => {
                        let mut out: Vec<Vec<char>> = Vec::new();
                        let mut k: usize = 0;
                        while k < vs.len()
                            invariant
                                0 <= k <= vs@.len(),
                                out@.len() == k,
                                forall|m: int| 0 <= m < k ==> (#[trigger] out@[m])@ == vs@[m]@,
                            decreases vs.len() - k,
                        {
                            out.push(str_to_chars(vs[k].as_str()));
                            k = k + 1;
                        }
                        assert(char_views(out@) =~= vs@.map_values(|x: String| x@));
                        out
                    },
                }
            } else {
                let mut one: Vec<Vec<char>> = Vec::new();
                one.push(str_to_chars(p.as_str()));
                assert(char_views(one@) =~= seq![p@]);
                one
            };
            match add_variants_exec(&mut pats, variants, max) {
                Err(e) => {
                    return Err(e);
                },
                Ok(()) => {},
            }
        }
        i = i + 1;
    }
    assert(pv.subrange(0, paths@.len() as int) =~= pv);
    Ok(pats)
}

/// No two of the paths are the same path.
pub open spec fn distinct_paths(s: Seq<Seq<char>>) -> bool {
    forall|i: int, j: int|
        0 <= i < s.len() && 0 <= j < s.len() && i != j ==> !same_path(#[trigger] s[i], #[trigger] s[j])
}

/// `res` with `p` added unless the same path is there already.
pub open spec fn add_path(res: Seq<Seq<char>>, p: Seq<char>) -> Seq<Seq<char>> {
    if holds_path(res, p) {
        res
    } else {
        res.push(p)
    }
}

/// The paths of `s`, the first of each set of equal paths kept, in order.
pub open spec fn dedup_paths(s: Seq<Seq<char>>) -> Seq<Seq<char>>
    decreases s.len(),
{
    if s.len() == 0 {
        seq![]
    } else {
        add_path(dedup_paths(s.drop_last()), s.last())
    }
}

/// Adds `p` to `results` unless the same path is there already.
#[verifier::loop_isolation(false)]
fn add_result(results: &mut Vec<String>, p: String)
    requires
        distinct_paths(string_views(old(results)@)),
    ensures
        string_views(final(results)@) == add_path(string_views(old(results)@), p@),
        distinct_paths(string_views(final(results)@)),
{
    let mut i: usize = 0;
    while i < results.len()
        invariant
            0 <= i <= results@.len(),
            forall|k: int| 0 <= k < i ==> !same_path(#[trigger] string_views(results@)[k], p@),
        decreases results.len() - i,
    {
        if path_eq(results[i].as_str(), p.as_str()) {
            assert(string_views(results@)[i as int] == results@[i as int]@);
            assert(holds_path(string_views(results@), p@));
            return;
        }
        assert(string_views(results@)[i as int] == results@[i as int]@);
        i = i + 1;
    }
    let ghost before = string_views(results@);
    assert(!holds_path(before, p@));
    results.push(p);
    assert(string_views(results@) =~= before.push(p@));
    assert forall|a: int, c: int|
        0 <= a < before.len() + 1 && 0 <= c < before.len() + 1 && a != c implies !same_path(
        #[trigger] before.push(p@)[a],
        #[trigger] before.push(p@)[c],
    ) by {
        if a == before.len() {
            assert(!same_path(before[c], p@));
        } else if c == before.len() {
            assert(!same_path(before[a], p@));
        }
    }
}

/// A path that expanding pattern `pat` can give: the pattern itself when it has
/// no metacharacters, else a path the pattern matches.
pub open spec fn expansion_of(pat: Seq<char>, p: Seq<char>) -> bool {
    if !has_glob_meta(pat) {
        p == pat
    } else {
        first_pattern_error(planned(pat)) is None && matches_pattern_path(
            planned(pat),
            pattern_base(pat),
            p,
        )
    }
}

/// The error is one that expanding `pats` can end in.
pub open spec fn expansion_error(e: GlobExpansionError, pats: Seq<Seq<char>>, max_candidates: usize) -> bool {
    ||| e == GlobExpansionError::CandidateLimitExceeded { limit: max_candidates }
    ||| exists|i: int|
        0 <= i < pats.len() && (traversal_of(e, #[trigger] pats[i]) || invalid_pattern_of(e, pats[i]))
}

/// `e` reports that a component of `pattern` does not compile.
pub open spec fn invalid_pattern_of(e: GlobExpansionError, pattern: Seq<char>) -> bool {
    e matches GlobExpansionError::InvalidPattern { pattern: p, .. } && p@ == pattern
}

pub open spec fn all_literal(pats: Seq<Seq<char>>) -> bool {
    forall|i: int| 0 <= i < pats.len() ==> !has_glob_meta(#[trigger] pats[i])
}

/// What expanding the distinct patterns `pats` gives: paths without repeats, each
/// an expansion of one of the patterns, every pattern without metacharacters
/// among them, and only when every pattern with metacharacters compiles (a
/// malformed one is an error); when no pattern has metacharacters, exactly the patterns without
/// repeats, or a candidate limit error when there are more than `max_candidates`.
pub open spec fn expansion_outcome_ok(
    pats: Seq<Seq<char>>,
    max_candidates: usize,
    r: Result<Vec<String>, GlobExpansionError>,
) -> bool {
    &&& all_literal(pats) ==> if pats.len() <= max_candidates {
        r matches Ok(v) && string_views(v@) == dedup_paths(pats)
    } else {
        r == Err::<Vec<String>, GlobExpansionError>(
            GlobExpansionError::CandidateLimitExceeded { limit: max_candidates },
        )
    }
    &&& r matches Ok(v) ==> {
        &&& forall|i: int|
            0 <= i < pats.len() && has_glob_meta(#[trigger] pats[i]) ==> first_pattern_error(
                planned(pats[i]),
            ) is None
        &&& distinct_paths(string_views(v@))
        &&& forall|k: int|
            0 <= k < v@.len() ==> exists|i: int|
                0 <= i < pats.len() && expansion_of(pats[i], #[trigger] v@[k]@)
        &&& forall|i: int|
            0 <= i < pats.len() && !has_glob_meta(#[trigger] pats[i]) ==> holds_path(
                string_views(v@),
                pats[i],
            )
    }
    &&& r matches Err(e) ==> expansion_error(e, pats, max_candidates)
}

proof fn lemma_add_path(res: Seq<Seq<char>>, p: Seq<char>)
    ensures
        holds_path(add_path(res, p), p),
        forall|q: Seq<char>| #[trigger] holds_path(res, q) ==> holds_path(add_path(res, p), q),
        forall|k: int|
            0 <= k < add_path(res, p).len() ==> #[trigger] add_path(res, p)[k] == p || (k < res.len()
                && add_path(res, p)[k] == res[k]),
{
    let a = add_path(res, p);
    if !holds_path(res, p) {
        assert(a[res.len() as int] == p);
        assert(same_path(a[res.len() as int], p));
        assert forall|q: Seq<char>| #[trigger] holds_path(res, q) implies holds_path(a, q) by {
            let i = choose|i: int| 0 <= i < res.len() && same_path(#[trigger] res[i], q);
            assert(a[i] == res[i]);
        }
    }
}

/// Expands path patterns against the file system within the given limits.
///
/// Repeated inputs, and repeated brace variants, are dropped before any file
/// system access; a pattern without metacharacters costs one candidate and is
/// kept as it is, without a look at the file system. Paths come back without
/// repeats, in the order found. The candidate limit is checked between directory
/// entries; it cannot interrupt a file system call already in progress.
#[verifier::loop_isolation(false)]
pub fn expand_glob_patterns_bounded<F: WalkFileSystem>(
    fs: &F,
    paths: &[String],
    limits: GlobExpansionLimits,
) -> (r: Result<Vec<String>, GlobExpansionError>)
    ensures
        match collect_patterns(string_views(paths@), limits.max_patterns) {
            Err(e) => r == Err::<Vec<String>, GlobExpansionError>(e),
            Ok(pats) => expansion_outcome_ok(pats, limits.max_candidates, r),
        },
{
    let pats = match collect_patterns_exec(paths, limits.max_patterns) {
        Err(e) => {
            return Err(e);
        },
        Ok(p) => p,
    };
    let ghost pv = char_views(pats@);
    let maxc = limits.max_candidates;
    let mut seen: usize = 0;
    let mut results: Vec<String> = Vec::new();
    let ghost mut origin: Seq<int> = Seq::empty();
    let mut idx: usize = 0;
    assert(pv.subrange(0, 0) =~= Seq::<Seq<char>>::empty());
    assert(string_views(results@) =~= Seq::<Seq<char>>::empty());
    while idx < pats.len()
        invariant
            0 <= idx <= pats@.len(),
            pv == char_views(pats@),
            seen <= maxc,
            distinct_paths(string_views(results@)),
            origin.len() == results@.len(),
            forall|k: int|
                0 <= k < results@.len() ==> 0 <= #[trigger] origin[k] < idx && expansion_of(
                    pv[origin[k]],
                    results@[k]@,
                ),
            forall|i: int|
                0 <= i < idx && !has_glob_meta(#[trigger] pv[i]) ==> holds_path(
                    string_views(results@),
                    pv[i],
                ),
            all_literal(pv.subrange(0, idx as int)) ==> seen == idx && string_views(results@)
                == dedup_paths(pv.subrange(0, idx as int)),
            forall|i: int|
                0 <= i < idx && has_glob_meta(#[trigger] pv[i]) ==> first_pattern_error(planned(pv[i]))
                    is None,
        decreases pats.len() - idx,
    {
        let pat = &pats[idx];
        assert(pv[idx as int] == pat@);
        let ghost prefix = pv.subrange(0, idx as int);
        let ghost next = pv.subrange(0, idx + 1);
        assert(next.drop_last() =~= prefix);
        assert(next.last() == pat@);
        if !has_glob_meta_exec(pat) {
            match increment_candidates(&mut seen, maxc) {
                Err(e) => {
                    proof {
                        if all_literal(pv) {
                            assert(all_literal(prefix));
                        }
                    }
                    return Err(e);
                },
                Ok(()) => {},
            }
            let ghost before = string_views(results@);
            let ghost before_vec = results@;
            add_result(&mut results, chars_to_string(pat.as_slice()));
            proof {
                lemma_add_path(before, pat@);
                let grew = results@.len() > before_vec.len();
                if grew {
                    origin = origin.push(idx as int);
                }
                assert forall|k: int| 0 <= k < results@.len() implies 0 <= #[trigger] origin[k] < idx + 1
                    && expansion_of(pv[origin[k]], results@[k]@) by {
                    assert(string_views(results@)[k] == results@[k]@);
                    if k < before_vec.len() {
                        assert(results@[k]@ == before[k]);
                        assert(before[k] == before_vec[k]@);
                    } else {
                        assert(results@[k]@ == pat@);
                    }
                }
                assert forall|i: int| 0 <= i < idx + 1 && !has_glob_meta(#[trigger] pv[i]) implies holds_path(
                    string_views(results@),
                    pv[i],
                ) by {
                    if i < idx {
                        assert(holds_path(before, pv[i]));
                    }
                }
                if all_literal(next) {
                    assert forall|i: int| 0 <= i < prefix.len() implies !has_glob_meta(#[trigger] prefix[i]) by {
                        assert(prefix[i] == next[i]);
                    }
                    assert(dedup_paths(next) == add_path(dedup_paths(prefix), pat@));
                }
            }
        } else {
            proof {
                assert(!all_literal(next)) by {
                    assert(next[idx as int] == pat@);
                }
            }
            let text = chars_to_string(pat.as_slice());
            let found = match expand_filesystem_pattern_bounded(fs, text.as_str(), &mut seen, maxc) {
                Err(e) => {
                    proof {
                        if first_pattern_error(planned(pat@)) is None {
                            assert(walk_error(e, pat@, maxc, seen));
                        }
                        assert(traversal_of(e, pv[idx as int]) || invalid_pattern_of(e, pv[idx as int])
                            || e == GlobExpansionError::CandidateLimitExceeded { limit: maxc });
                    }
                    return Err(e);
                },
                Ok(v) => v,
            };
            assert(first_pattern_error(planned(pat@)) is None);
            let mut j: usize = 0;
            while j < found.len()
                invariant
                    0 <= j <= found@.len(),
                    0 <= idx < pats@.len(),
                    pv == char_views(pats@),
                    pv[idx as int] == pat@,
                    has_glob_meta(pat@),
                    first_pattern_error(planned(pat@)) is None,
                    forall|k: int|
                        0 <= k < found@.len() ==> matches_pattern_path(
                            planned(pat@),
                            pattern_base(pat@),
                            #[trigger] found@[k]@,
                        ),
                    distinct_paths(string_views(results@)),
                    origin.len() == results@.len(),
                    forall|k: int|
                        0 <= k < results@.len() ==> 0 <= #[trigger] origin[k] < idx + 1 && expansion_of(
                            pv[origin[k]],
                            results@[k]@,
                        ),
                    forall|i: int|
                        0 <= i < idx && !has_glob_meta(#[trigger] pv[i]) ==> holds_path(
                            string_views(results@),
                            pv[i],
                        ),
                    forall|i: int|
                        0 <= i < idx && has_glob_meta(#[trigger] pv[i]) ==> first_pattern_error(
                            planned(pv[i]),
                        ) is None,
                decreases found.len() - j,
            {
                let ghost before = string_views(results@);
                let ghost before_vec = results@;
                let ghost q = found@[j as int]@;
                assert(matches_pattern_path(planned(pat@), pattern_base(pat@), q));
                add_result(&mut results, found[j].clone());
                proof {
                    lemma_add_path(before, q);
                    let grew = results@.len() > before_vec.len();
                    if grew {
                        origin = origin.push(idx as int);
                    }
                    assert forall|k: int| 0 <= k < results@.len() implies 0 <= #[trigger] origin[k] < idx
                        + 1 && expansion_of(pv[origin[k]], results@[k]@) by {
                        assert(string_views(results@)[k] == results@[k]@);
                        if k < before_vec.len() {
                            assert(results@[k]@ == before[k]);
                            assert(before[k] == before_vec[k]@);
                        } else {
                            assert(results@[k]@ == q);
                            assert(expansion_of(pv[idx as int], q));
                        }
                    }
                    assert forall|i: int| 0 <= i < idx && !has_glob_meta(#[trigger] pv[i]) implies holds_path(
                        string_views(results@),
                        pv[i],
                    ) by {
                        assert(holds_path(before, pv[i]));
                    }
                }
                j = j + 1;
            }
        }
        idx = idx + 1;
    }
    assert(pv.subrange(0, pats@.len() as int) =~= pv);
    assert forall|k: int| 0 <= k < results@.len() implies exists|i: int|
        0 <= i < pv.len() && expansion_of(pv[i], #[trigger] results@[k]@) by {
        assert(expansion_of(pv[origin[k]], results@[k]@));
    }
    Ok(results)
}

/// Matching a pattern against the file system, as `glob::glob` does: the
/// application performs it, since it reads folders. Nothing is assumed of the
/// paths it gives.
pub trait GlobSearch {
    /// The paths that `glob::glob(pattern)` yields without an error, in its
    /// order (none when the pattern is invalid).
    fn glob_paths(&self, pattern: &str) -> Vec<String>;
}

/// The chunks of `c` one after another.
pub open spec fn flatten_chunks(c: Seq<Seq<Seq<char>>>) -> Seq<Seq<char>>
    decreases c.len(),
{
    if c.len() == 0 {
        seq![]
    } else {
        flatten_chunks(c.drop_last()) + c.last()
    }
}

/// `out` is what expanding the pattern `p` can give: `p` itself when it is no
/// pattern; otherwise, for each brace variant in turn, the variant itself when it
/// has no metacharacters, else the paths that the file system matches.
pub open spec fn pattern_expansion(p: Seq<char>, out: Seq<Seq<char>>) -> bool {
    if !is_glob(p) {
        out == seq![p]
    } else {
        exists|chunks: Seq<Seq<Seq<char>>>| #[trigger] variant_chunks(capped_expansion(p), chunks, out)
    }
}

/// `search` can give `paths` for the pattern `pattern`: a call of
/// [`GlobSearch::glob_paths`] on it gave them.
pub open spec fn searched<G: GlobSearch>(search: &G, pattern: Seq<char>, paths: Seq<Seq<char>>) -> bool {
    exists|p: &str, v: Vec<String>|
        p@ == pattern && call_ensures(G::glob_paths, (search, p), v) && string_views(v@) == paths
}

/// `out` is what expanding `p` gives for the search's own answers: `p` itself
/// when it is no pattern; else, for each brace variant in turn, the variant
/// itself when it has no metacharacters, else all of a list the search gave for it.
pub open spec fn searched_expansion<G: GlobSearch>(search: &G, p: Seq<char>, out: Seq<Seq<char>>) -> bool {
    if !is_glob(p) {
        out == seq![p]
    } else {
        exists|chunks: Seq<Seq<Seq<char>>>|
            #[trigger] variant_chunks(capped_expansion(p), chunks, out) && forall|j: int|
                0 <= j < chunks.len() && has_glob_meta(capped_expansion(p)[j]) ==> searched(
                    search,
                    capped_expansion(p)[j],
                    #[trigger] chunks[j],
                )
    }
}

/// `chunks` has one chunk per variant, a variant without metacharacters giving
/// itself, and `out` is the chunks one after another.
pub open spec fn variant_chunks(
    variants: Seq<Seq<char>>,
    chunks: Seq<Seq<Seq<char>>>,
    out: Seq<Seq<char>>,
) -> bool {
    &&& chunks.len() == variants.len()
    &&& flatten_chunks(chunks) == out
    &&& forall|j: int|
        0 <= j < variants.len() && !has_glob_meta(#[trigger] variants[j]) ==> chunks[j] == seq![
            variants[j],
        ]
}

/// Expands one pattern to the matching paths: brace groups first, then each
/// variant with metacharacters is matched against the file system by the glob
/// crate (through `search`); a variant without metacharacters, and an input that is no pattern at
/// all, is returned as it is, without a look at the file system.
#[verifier::loop_isolation(false)]
pub fn expand_glob_pattern<G: GlobSearch>(search: &G, pattern: &str) -> (r: Vec<String>)
    ensures
        pattern_expansion(pattern@, string_views(r@)),
        is_glob(pattern@) ==> exists|chunks: Seq<Seq<Seq<char>>>|
            #[trigger] variant_chunks(capped_expansion(pattern@), chunks, string_views(r@))
                && forall|j: int|
                0 <= j < chunks.len() && has_glob_meta(capped_expansion(pattern@)[j]) ==> searched(
                    search,
                    capped_expansion(pattern@)[j],
                    #[trigger] chunks[j],
                ),
        searched_expansion(search, pattern@, string_views(r@)),
{
    if !is_glob_pattern(pattern) {
        let mut one: Vec<String> = Vec::new();
        one.push(chars_to_string(str_to_chars(pattern).as_slice()));
        assert(string_views(one@) =~= seq![pattern@]);
        return one;
    }
    let variants = expand_braces(pattern);
    let ghost vv = capped_expansion(pattern@);
    assert(vv == variants@.map_values(|x: String| x@));
    let mut result: Vec<String> = Vec::new();
    let ghost mut chunks: Seq<Seq<Seq<char>>> = Seq::empty();
    let mut i: usize = 0;
    assert(string_views(result@) =~= flatten_chunks(chunks));
    while i < variants.len()
        invariant
            0 <= i <= variants@.len(),
            vv.len() == variants@.len(),
            forall|j: int| 0 <= j < vv.len() ==> vv[j] == (#[trigger] variants@[j])@,
            chunks.len() == i,
            string_views(result@) == flatten_chunks(chunks),
            forall|j: int|
                0 <= j < i && !has_glob_meta(#[trigger] vv[j]) ==> chunks[j] == seq![vv[j]],
            forall|j: int|
                0 <= j < i && has_glob_meta(vv[j]) ==> searched(search, vv[j], #[trigger] chunks[j]),
        decreases variants.len() - i,
    {
        let v = &variants[i];
        assert(vv[i as int] == v@);
        let vc = str_to_chars(v.as_str());
        let ghost before = string_views(result@);
        let ghost chunk: Seq<Seq<char>>;
        if !has_glob_meta_exec(&vc) {
            result.push(v.clone());
            proof {
                chunk = seq![v@];
            }
        } else {
            let vs: &str = v.as_str();
            let matched = search.glob_paths(vs);
            assert(searched(search, vv[i as int], string_views(matched@)));
            let mut k: usize = 0;
            while k < matched.len()
                invariant
                    0 <= k <= matched@.len(),
                    string_views(result@) == before + string_views(matched@).subrange(0, k as int),
                decreases matched.len() - k,
            {
                let ghost r0 = string_views(result@);
                result.push(matched[k].clone());
                assert(string_views(result@) =~= r0.push(matched@[k as int]@));
                assert(string_views(matched@).subrange(0, k + 1) =~= string_views(matched@).subrange(
                    0,
                    k as int,
                ).push(matched@[k as int]@));
                assert(string_views(result@) =~= before + string_views(matched@).subrange(0, k + 1));
                k = k + 1;
            }
            proof {
                chunk = string_views(matched@);
                assert(string_views(matched@).subrange(0, matched@.len() as int) =~= chunk);
            }
        }
        proof {
            let c2 = chunks.push(chunk);
            assert(c2.drop_last() =~= chunks);
            assert(string_views(result@) =~= before + chunk);
            assert forall|j: int| 0 <= j < i + 1 && has_glob_meta(vv[j]) implies searched(
                search,
                vv[j],
                #[trigger] c2[j],
            ) by {
                if j < i {
                    assert(c2[j] == chunks[j]);
                }
            }
            chunks = c2;
        }
        i = i + 1;
    }
    assert(variant_chunks(vv, chunks, string_views(result@)));
    result
}

/// Expands each of the paths in turn (see [`expand_glob_pattern`]) and gives all
/// the results one after another; repeats are kept.
#[verifier::loop_isolation(false)]
pub fn expand_glob_patterns<G: GlobSearch>(search: &G, paths: &[String]) -> (r: Vec<String>)
    ensures
        exists|chunks: Seq<Seq<Seq<char>>>|
            #![trigger flatten_chunks(chunks)]
            chunks.len() == paths@.len() && flatten_chunks(chunks) == string_views(r@) && forall|k: int|
                0 <= k < paths@.len() ==> pattern_expansion(paths@[k]@, #[trigger] chunks[k]),
        exists|chunks: Seq<Seq<Seq<char>>>|
            #![trigger flatten_chunks(chunks)]
            chunks.len() == paths@.len() && flatten_chunks(chunks) == string_views(r@) && forall|k: int|
                0 <= k < paths@.len() ==> searched_expansion(search, paths@[k]@, #[trigger] chunks[k]),
{
    let mut result: Vec<String> = Vec::new();
    let ghost mut chunks: Seq<Seq<Seq<char>>> = Seq::empty();
    let mut i: usize = 0;
    assert(string_views(result@) =~= flatten_chunks(chunks));
    while i < paths.len()
        invariant
            0 <= i <= paths@.len(),
            chunks.len() == i,
            string_views(result@) == flatten_chunks(chunks),
            forall|k: int| 0 <= k < i ==> pattern_expansion(paths@[k]@, #[trigger] chunks[k]),
            forall|k: int| 0 <= k < i ==> searched_expansion(search, paths@[k]@, #[trigger] chunks[k]),
        decreases paths.len() - i,
    {
        let expanded = expand_glob_pattern(search, paths[i].as_str());
        let ghost before = string_views(result@);
        let mut k: usize = 0;
        while k < expanded.len()
            invariant
                0 <= k <= expanded@.len(),
                string_views(result@) == before + string_views(expanded@).subrange(0, k as int),
            decreases expanded.len() - k,
        {
            let ghost r0 = string_views(result@);
            result.push(expanded[k].clone());
            assert(string_views(result@) =~= r0.push(expanded@[k as int]@));
            assert(string_views(expanded@).subrange(0, k + 1) =~= string_views(expanded@).subrange(
                0,
                k as int,
            ).push(expanded@[k as int]@));
            assert(string_views(result@) =~= before + string_views(expanded@).subrange(0, k + 1));
            k = k + 1;
        }
        proof {
            let chunk = string_views(expanded@);
            assert(chunk.subrange(0, chunk.len() as int) =~= chunk);
            let c2 = chunks.push(chunk);
            assert(c2.drop_last() =~= chunks);
            assert forall|j: int| 0 <= j < i + 1 implies pattern_expansion(paths@[j]@, #[trigger] c2[j]) by {
                if j < i {
                    assert(c2[j] == chunks[j]);
                }
            }
            assert forall|j: int| 0 <= j < i + 1 implies searched_expansion(search, paths@[j]@, #[trigger] c2[j]) by {
                if j < i {
                    assert(c2[j] == chunks[j]);
                }
            }
            chunks = c2;
        }
        i = i + 1;
    }
    assert(flatten_chunks(chunks) == string_views(result@));
    result
}

} // verus!
