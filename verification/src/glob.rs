//! Glob pattern classification and bounded expansion of path patterns.
use vstd::prelude::*;
use crate::braces::{
    brace_children, brace_group, capped_expansion, children_exec, expand_braces_inner,
    find_brace_group, MAX_BRACE_EXPANSION_STEPS,
};
use crate::text::{
    chars_eq, chars_to_string, contains_char, find_char_from, find_from, has_char, lemma_find_from_char,
    lemma_find_from_props, str_to_chars, sub_chars,
};

verus! {

/// Limits applied while expanding path patterns.
#[derive(Debug, Clone, Copy)]
pub struct GlobExpansionLimits {
    pub max_patterns: usize,
    pub max_candidates: usize,
}

/// Why a bounded expansion gave up.
#[derive(Debug, Clone, PartialEq, Eq)]
pub enum GlobExpansionError {
    PatternLimitExceeded { limit: usize },
    BraceWorkLimitExceeded { limit: usize },
    CandidateLimitExceeded { limit: usize },
    InvalidPattern { pattern: String, message: String },
    Traversal { pattern: String, message: String },
}

/// The limits used by JSON-RPC path expansion.
pub fn default_glob_expansion_limits() -> (r: GlobExpansionLimits)
    ensures
        r.max_patterns == 1024,
        r.max_candidates == 10_000,
{
    GlobExpansionLimits { max_patterns: 1024, max_candidates: 10_000 }
}

/// Glob metacharacters: `*`, `?`, `[` and `]`.
pub open spec fn is_glob_meta(c: char) -> bool {
    c == '*' || c == '?' || c == '[' || c == ']'
}

pub open spec fn has_glob_meta(s: Seq<char>) -> bool {
    exists|i: int| 0 <= i < s.len() && is_glob_meta(#[trigger] s[i])
}

/// The `{` at `i` opens a group whose first closing `}` comes after a `,`.
pub open spec fn brace_pair_at(s: Seq<char>, i: int) -> bool {
    match find_from(s, '}', i) {
        Some(j) => has_char(s.subrange(i + 1, j), ','),
        None => false,
    }
}

/// `s` holds a brace group `{..,..}` with at least one comma.
pub open spec fn has_brace_pair(s: Seq<char>) -> bool {
    exists|i: int| 0 <= i < s.len() && s[i] == '{' && #[trigger] brace_pair_at(s, i)
}

/// Whether the path pattern uses glob metacharacters or brace expansion.
pub open spec fn is_glob(s: Seq<char>) -> bool {
    has_glob_meta(s) || has_brace_pair(s)
}

pub open spec fn is_path_sep(c: char) -> bool {
    c == '/' || c == '\\'
}

/// `s` has a path segment (split at `/` or `\`) that is exactly `**`.
pub open spec fn has_recursive_segment(s: Seq<char>) -> bool {
    exists|i: int|
        0 <= i && i + 2 <= s.len() && #[trigger] s[i] == '*' && s[i + 1] == '*' && (i == 0
            || is_path_sep(s[i - 1])) && (i + 2 == s.len() || is_path_sep(s[i + 2]))
}

pub fn has_glob_meta_exec(s: &Vec<char>) -> (r: bool)
    ensures
        r == has_glob_meta(s@),
{
    let mut i: usize = 0;
    while i < s.len()
        invariant
            0 <= i <= s.len(),
            forall|k: int| 0 <= k < i ==> !is_glob_meta(#[trigger] s@[k]),
        decreases s.len() - i,
    {
        let c = s[i];
        if c == '*' || c == '?' || c == '[' || c == ']' {
            return true;
        }
        i = i + 1;
    }
    false
}

/// Scans for a brace group that holds a comma.
pub fn has_brace_pattern(path: &Vec<char>) -> (r: bool)
    ensures
        r == has_brace_pair(path@),
{
    let mut pos: usize = 0;
    loop
        invariant
            pos <= path.len(),
            forall|i: int| 0 <= i < pos && path@[i] == '{' ==> !#[trigger] brace_pair_at(path@, i),
        decreases path.len() - pos,
    {
        match find_char_from(path, '{', pos) {
            None => {
                proof {
                    lemma_find_from_props(path@, '{', pos as int);
                }
                return false;
            },
            Some(o) => {
                proof {
                    lemma_find_from_props(path@, '{', pos as int);
                }
                match find_char_from(path, '}', o) {
                    None => {
                        proof {
                            lemma_find_from_props(path@, '}', o as int);
                            assert forall|i: int|
                                0 <= i < path@.len() && path@[i] == '{' implies !#[trigger] brace_pair_at(
                                path@,
                                i,
                            ) by {
                                if i >= o {
                                    crate::text::lemma_find_from_none(path@, '}', i);
                                }
                            }
                        }
                        return false;
                    },
                    Some(c) => {
                        proof {
                            lemma_find_from_props(path@, '}', o as int);
                        }
                        let inner = sub_chars(path, o + 1, c);
                        if contains_char(&inner, ',') {
                            assert(path@[o as int] == '{' && brace_pair_at(path@, o as int));
                            return true;
                        }
                        proof {
                            assert forall|i: int|
                                0 <= i < c + 1 && path@[i] == '{' implies !#[trigger] brace_pair_at(
                                path@,
                                i,
                            ) by {
                                if i >= pos {
                                    assert(o <= i < c);
                                    lemma_find_from_char(path@, '}', i, c as int);
                                    if has_char(path@.subrange(i + 1, c as int), ',') {
                                        let sub = path@.subrange(i + 1, c as int);
                                        let k = choose|k: int| 0 <= k < sub.len() && #[trigger] sub[k] == ',';
                                        assert(inner@[k + i - o] == ',');
                                    }
                                }
                            }
                        }
                        pos = c + 1;
                    },
                }
            },
        }
    }
}

/// Checks whether a path string contains glob metacharacters or brace expansion.
///
/// `"/home/user/*"` and `"./**/{bin,Scripts}/python"` are patterns; `"/home/user/envs"` is not.
pub fn is_glob_pattern(path: &str) -> (r: bool)
    ensures
        r == is_glob(path@),
{
    let s = str_to_chars(path);
    has_glob_meta_exec(&s) || has_brace_pattern(&s)
}

pub fn has_recursive_segment_exec(s: &Vec<char>) -> (r: bool)
    ensures
        r == has_recursive_segment(s@),
{
    let mut i: usize = 0;
    while i < s.len()
        invariant
            0 <= i <= s.len(),
            forall|k: int|
                0 <= k < i && k + 2 <= s@.len() ==> !(#[trigger] s@[k] == '*' && s@[k + 1] == '*'
                    && (k == 0 || is_path_sep(s@[k - 1])) && (k + 2 == s@.len() || is_path_sep(
                    s@[k + 2],
                ))),
        decreases s.len() - i,
    {
        if i + 1 < s.len() && s[i] == '*' && s[i + 1] == '*' {
            let before = i == 0 || s[i - 1] == '/' || s[i - 1] == '\\';
            let after = i + 2 == s.len() || s[i + 2] == '/' || s[i + 2] == '\\';
            if before && after {
                return true;
            }
        }
        i = i + 1;
    }
    false
}

/// Brace-expands `pattern` (capped at 1024 results and 10,000 visited patterns).
///
/// `"{bin,Scripts}/python"` gives `["bin/python", "Scripts/python"]`; `"{a,b}/{c,d}"`
/// gives `["a/c", "a/d", "b/c", "b/d"]`. Nested braces are not supported.
pub fn expand_braces(pattern: &str) -> (r: Vec<String>)
    ensures
        r@.map_values(|s: String| s@) == capped_expansion(pattern@),
{
    let chars = str_to_chars(pattern);
    let expanded = expand_braces_inner(&chars);
    let mut out: Vec<String> = Vec::new();
    let mut i: usize = 0;
    while i < expanded.len()
        invariant
            0 <= i <= expanded.len(),
            out@.len() == i,
            forall|j: int| 0 <= j < i ==> (#[trigger] out@[j])@ == expanded@[j]@,
        decreases expanded.len() - i,
    {
        out.push(chars_to_string(expanded[i].as_slice()));
        i = i + 1;
    }
    assert(out@.map_values(|s: String| s@) =~= expanded@.map_values(|v: Vec<char>| v@));
    out
}

/// True when some brace variant of `path` has a `**` segment, i.e. the glob can
/// traverse an unbounded number of path components.
pub fn is_recursive_glob_pattern(path: &str) -> (r: bool)
    ensures
        r == exists|k: int|
            0 <= k < capped_expansion(path@).len() && has_recursive_segment(
                #[trigger] capped_expansion(path@)[k],
            ),
{
    let chars = str_to_chars(path);
    let variants = expand_braces_inner(&chars);
    let ghost cv = capped_expansion(path@);
    let mut i: usize = 0;
    while i < variants.len()
        invariant
            0 <= i <= variants.len(),
            variants@.map_values(|v: Vec<char>| v@) == cv,
            cv == capped_expansion(path@),
            forall|k: int| 0 <= k < i ==> !has_recursive_segment(#[trigger] cv[k]),
        decreases variants.len() - i,
    {
        assert(cv[i as int] == variants@[i as int]@);
        if has_recursive_segment_exec(&variants[i]) {
            return true;
        }
        i = i + 1;
    }
    false
}

/// The character sequences that the vectors of `s` hold.
pub open spec fn views(s: Seq<Vec<char>>) -> Seq<Seq<char>> {
    s.map_values(|v: Vec<char>| v@)
}

/// Adds `v` to the distinct patterns `next` unless it is already there; fails
/// when `next` already holds `limit` patterns.
pub open spec fn add_unique(next: Seq<Seq<char>>, v: Seq<char>, limit: usize) -> Result<
    Seq<Seq<char>>,
    GlobExpansionError,
> {
    if next.contains(v) {
        Ok(next)
    } else if next.len() == limit {
        Err(GlobExpansionError::PatternLimitExceeded { limit })
    } else {
        Ok(next.push(v))
    }
}

pub open spec fn work_limit_error() -> GlobExpansionError {
    GlobExpansionError::BraceWorkLimitExceeded { limit: MAX_BRACE_EXPANSION_STEPS }
}

/// Adds the variants `vs` one by one, each costing one step of work.
pub open spec fn run_variants(
    vs: Seq<Seq<char>>,
    next: Seq<Seq<char>>,
    steps: nat,
    limit: usize,
) -> Result<(Seq<Seq<char>>, nat), GlobExpansionError>
    decreases vs.len(),
{
    if vs.len() == 0 {
        Ok((next, steps))
    } else if steps >= MAX_BRACE_EXPANSION_STEPS {
        Err(work_limit_error())
    } else {
        match add_unique(next, vs[0], limit) {
            Err(e) => Err(e),
            Ok(n2) => run_variants(vs.drop_first(), n2, steps + 1, limit),
        }
    }
}

/// Visits one pending pattern: its first brace group is expanded, or, when it has
/// none, the pattern itself is kept.
pub open spec fn visit_pattern(p: Seq<char>, next: Seq<Seq<char>>, steps: nat, limit: usize) -> Result<
    (Seq<Seq<char>>, nat),
    GlobExpansionError,
> {
    if steps >= MAX_BRACE_EXPANSION_STEPS {
        Err(work_limit_error())
    } else if brace_group(p) is Some {
        run_variants(brace_children(p), next, steps + 1, limit)
    } else {
        match add_unique(next, p, limit) {
            Err(e) => Err(e),
            Ok(n2) => Ok((n2, steps + 1)),
        }
    }
}

/// One round: every pending pattern visited in order.
pub open spec fn run_round(
    pending: Seq<Seq<char>>,
    next: Seq<Seq<char>>,
    steps: nat,
    limit: usize,
) -> Result<(Seq<Seq<char>>, nat), GlobExpansionError>
    decreases pending.len(),
{
    if pending.len() == 0 {
        Ok((next, steps))
    } else {
        match visit_pattern(pending[0], next, steps, limit) {
            Err(e) => Err(e),
            Ok((n2, s2)) => run_round(pending.drop_first(), n2, s2, limit),
        }
    }
}

/// Whether some pending pattern still has a brace group.
pub open spec fn round_expands(pending: Seq<Seq<char>>) -> bool {
    exists|i: int| 0 <= i < pending.len() && #[trigger] brace_group(pending[i]) is Some
}

/// Rounds of expansion until no brace group is left.
pub open spec fn bounded_rounds(pending: Seq<Seq<char>>, steps: nat, limit: usize) -> Result<
    Seq<Seq<char>>,
    GlobExpansionError,
>
    decreases MAX_BRACE_EXPANSION_STEPS - steps,
{
    match run_round(pending, seq![], steps, limit) {
        Err(e) => Err(e),
        Ok((next, s2)) => if !round_expands(pending) {
            Ok(next)
        } else if s2 <= steps || s2 > MAX_BRACE_EXPANSION_STEPS {
            Ok(next)
        } else {
            bounded_rounds(next, s2, limit)
        },
    }
}

/// Brace expansion by rounds, duplicates dropped as they appear, with at most
/// `limit` distinct patterns in a round and at most 10,000 steps of work.
pub open spec fn bounded_expansion(pattern: Seq<char>, limit: usize) -> Result<
    Seq<Seq<char>>,
    GlobExpansionError,
> {
    bounded_rounds(seq![pattern], 0, limit)
}

pub fn add_unique_exec(next: &mut Vec<Vec<char>>, v: Vec<char>, limit: usize) -> (r: Result<
    (),
    GlobExpansionError,
>)
    ensures
        match add_unique(views(old(next)@), v@, limit) {
            Ok(n) => r is Ok && views(final(next)@) == n,
            Err(e) => r == Err::<(), GlobExpansionError>(e),
        },
{
    let mut i: usize = 0;
    while i < next.len()
        invariant
            0 <= i <= next@.len(),
            forall|k: int| 0 <= k < i ==> (#[trigger] next@[k])@ != v@,
        decreases next.len() - i,
    {
        if chars_eq(&next[i], &v) {
            assert(views(next@)[i as int] == v@);
            return Ok(());
        }
        i = i + 1;
    }
    proof {
        if views(next@).contains(v@) {
            let k = choose|k: int| 0 <= k < views(next@).len() && views(next@)[k] == v@;
            assert(next@[k]@ == v@);
        }
    }
    if next.len() == limit {
        return Err(GlobExpansionError::PatternLimitExceeded { limit });
    }
    let ghost before = views(next@);
    next.push(v);
    assert(views(next@) =~= before.push(v@));
    Ok(())
}

/// Expands brace groups by rounds, failing past `limit` distinct patterns in a
/// round or past 10,000 steps of work; duplicates are dropped as they appear.
#[verifier::loop_isolation(false)]
pub fn expand_braces_bounded(pattern: &str, limit: usize) -> (r: Result<
    Vec<String>,
    GlobExpansionError,
>)
    ensures
        match bounded_expansion(pattern@, limit) {
            Ok(s) => r matches Ok(v) && v@.map_values(|x: String| x@) == s,
            Err(e) => r == Err::<Vec<String>, GlobExpansionError>(e),
        },
{
    let mut pending: Vec<Vec<char>> = Vec::new();
    pending.push(str_to_chars(pattern));
    assert(views(pending@) =~= seq![pattern@]);
    let mut steps: usize = 0;
    loop
        invariant
            steps <= MAX_BRACE_EXPANSION_STEPS,
            bounded_rounds(views(pending@), steps as nat, limit) == bounded_expansion(pattern@, limit),
        decreases MAX_BRACE_EXPANSION_STEPS - steps,
    {
        let ghost pv = views(pending@);
        let ghost steps0 = steps;
        let mut next: Vec<Vec<char>> = Vec::new();
        let mut expanded = false;
        let mut i: usize = 0;
        assert(pv.subrange(0, pv.len() as int) =~= pv);
        assert(views(next@) =~= Seq::<Seq<char>>::empty());
        while i < pending.len()
            invariant
                pv == views(pending@),
                0 <= i <= pending@.len(),
                steps0 + i <= steps <= MAX_BRACE_EXPANSION_STEPS,
                run_round(pv, seq![], steps0 as nat, limit) == run_round(
                    pv.subrange(i as int, pv.len() as int),
                    views(next@),
                    steps as nat,
                    limit,
                ),
                expanded == exists|j: int| 0 <= j < i && #[trigger] brace_group(pv[j]) is Some,
            decreases pending.len() - i,
        {
            let ghost rest = pv.subrange(i as int, pv.len() as int);
            assert(rest[0] == pv[i as int]);
            assert(rest.drop_first() =~= pv.subrange(i + 1, pv.len() as int));
            assert(pv[i as int] == pending@[i as int]@);
            let ghost next_before = views(next@);
            let ghost steps_visit = steps;
            if steps == MAX_BRACE_EXPANSION_STEPS {
                return Err(GlobExpansionError::BraceWorkLimitExceeded {
                    limit: MAX_BRACE_EXPANSION_STEPS,
                });
            }
            steps = steps + 1;
            match find_brace_group(&pending[i]) {
                Some((o, c)) => {
                    expanded = true;
                    let kids = children_exec(&pending[i], o, c);
                    let ghost kv = views(kids@);
                    let ghost steps1 = steps;
                    let ghost next1 = views(next@);
                    let mut k: usize = 0;
                    assert(kv.subrange(0, kv.len() as int) =~= kv);
                    while k < kids.len()
                        invariant
                            kv == views(kids@),
                            0 <= k <= kids@.len(),
                            steps1 <= steps <= MAX_BRACE_EXPANSION_STEPS,
                            run_variants(kv, next1, steps1 as nat, limit) == run_variants(
                                kv.subrange(k as int, kv.len() as int),
                                views(next@),
                                steps as nat,
                                limit,
                            ),
                        decreases kids.len() - k,
                    {
                        let ghost krest = kv.subrange(k as int, kv.len() as int);
                        assert(krest[0] == kv[k as int]);
                        assert(krest.drop_first() =~= kv.subrange(k + 1, kv.len() as int));
                        assert(kv[k as int] == kids@[k as int]@);
                        if steps == MAX_BRACE_EXPANSION_STEPS {
                            return Err(GlobExpansionError::BraceWorkLimitExceeded {
                                limit: MAX_BRACE_EXPANSION_STEPS,
                            });
                        }
                        steps = steps + 1;
                        let variant = kids[k].clone();
                        add_unique_exec(&mut next, variant, limit)?;
                        k = k + 1;
                    }
                    assert(kv.subrange(kids@.len() as int, kv.len() as int) =~= Seq::<
                        Seq<char>,
                    >::empty());
                },
                None => {
                    let kept = pending[i].clone();
                    add_unique_exec(&mut next, kept, limit)?;
                },
            }
            i = i + 1;
        }
        assert(pv.subrange(pending@.len() as int, pv.len() as int) =~= Seq::<Seq<char>>::empty());
        if !expanded {
            let mut out: Vec<String> = Vec::new();
            let mut j: usize = 0;
            while j < next.len()
                invariant
                    0 <= j <= next@.len(),
                    out@.len() == j,
                    forall|q: int| 0 <= q < j ==> (#[trigger] out@[q])@ == next@[q]@,
                decreases next.len() - j,
            {
                out.push(chars_to_string(next[j].as_slice()));
                j = j + 1;
            }
            assert(out@.map_values(|x: String| x@) =~= views(next@));
            return Ok(out);
        }
        assert(round_expands(pv));
        pending = next;
    }
}


} // verus!
