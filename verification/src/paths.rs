//! Paths as text: joining, components, and the component order of paths.
use vstd::prelude::*;
use crate::os_environment::FileSystem;
use crate::text::{
    append_chars, char_views, chars_eq, chars_to_string, drop_trailing, find_from, split_chars,
    split_on, str_to_chars, sub_chars, trim_end_char, lemma_find_from_props,
};

verus! {

/// `base` joined with `name` by `sep`: `name` as is when it is absolute, no second
/// separator when `base` already ends in one.
pub open spec fn join_with(base: Seq<char>, name: Seq<char>, sep: char) -> Seq<char> {
    if name.len() > 0 && name[0] == sep {
        name
    } else if base.len() == 0 || base.last() == sep {
        base + name
    } else {
        base + seq![sep] + name
    }
}

/// `base` joined with `name` by `/`.
pub open spec fn join(base: Seq<char>, name: Seq<char>) -> Seq<char> {
    join_with(base, name, '/')
}

/// Exec counterpart of [`join_with`].
pub fn join_path_with(base: &str, name: &str, sep: char) -> (r: String)
    ensures
        r@ == join_with(base@, name@, sep),
{
    let b = str_to_chars(base);
    let n = str_to_chars(name);
    if n.len() > 0 && n[0] == sep {
        return chars_to_string(n.as_slice());
    }
    let mut out = b.clone();
    if !(b.len() == 0 || b[b.len() - 1] == sep) {
        out.push(sep);
    }
    append_chars(&mut out, &n);
    chars_to_string(out.as_slice())
}

/// `base` joined with `name` by `/`.
pub fn join_path(base: &str, name: &str) -> (r: String)
    ensures
        r@ == join(base@, name@),
{
    join_path_with(base, name, '/')
}

/// The components of a `/`-separated path, as `Path::components` gives them on
/// Unix: `/` for a root, empty pieces and inner `.` pieces dropped.
pub open spec fn components(s: Seq<char>) -> Seq<Seq<char>> {
    let pieces = split_on(s, '/');
    let root: Seq<Seq<char>> = if s.len() > 0 && s[0] == '/' {
        seq![seq!['/']]
    } else {
        seq![]
    };
    root + kept_pieces(pieces, 0)
}

/// The pieces from position `i` on that are components: not empty, and `.` only
/// as the very first piece.
pub open spec fn kept_pieces(pieces: Seq<Seq<char>>, i: int) -> Seq<Seq<char>>
    decreases pieces.len() - i,
{
    if i < 0 || i >= pieces.len() {
        seq![]
    } else if pieces[i].len() == 0 || (i > 0 && pieces[i] == seq!['.']) {
        kept_pieces(pieces, i + 1)
    } else {
        seq![pieces[i]] + kept_pieces(pieces, i + 1)
    }
}

/// Exec counterpart of [`components`].
pub fn path_components(s: &Vec<char>) -> (r: Vec<Vec<char>>)
    ensures
        char_views(r@) == components(s@),
{
    let pieces = split_chars(s, '/');
    let ghost pv = char_views(pieces@);
    let mut out: Vec<Vec<char>> = Vec::new();
    if s.len() > 0 && s[0] == '/' {
        let mut root: Vec<char> = Vec::new();
        root.push('/');
        out.push(root);
    }
    let ghost root_part = char_views(out@);
    assert(root_part =~= (if s@.len() > 0 && s@[0] == '/' {
        seq![seq!['/']]
    } else {
        Seq::<Seq<char>>::empty()
    }));
    let mut i: usize = pieces.len();
    let mut kept: Vec<Vec<char>> = Vec::new();
    // build the kept pieces from the back, then reverse into `out`
    let mut tail: Vec<Vec<char>> = Vec::new();
    assert(kept_pieces(pv, pv.len() as int) =~= Seq::<Seq<char>>::empty());
    while i > 0
        invariant
            pv == char_views(pieces@),
            0 <= i <= pieces@.len(),
            char_views(tail@).reverse() == kept_pieces(pv, i as int),
        decreases i,
    {
        i = i - 1;
        let p = &pieces[i];
        assert(pv[i as int] == p@);
        let is_dot = p.len() == 1 && p[0] == '.';
        assert(is_dot == (p@ == seq!['.'])) by {
            if p@.len() == 1 && p@[0] == '.' {
                assert(p@ =~= seq!['.']);
            }
        }
        if p.len() == 0 || (i > 0 && is_dot) {
        } else {
            let ghost before = char_views(tail@);
            tail.push(p.clone());
            assert(char_views(tail@) =~= before.push(p@));
            assert(before.push(p@).reverse() =~= seq![p@] + before.reverse());
        }
    }
    let mut k: usize = tail.len();
    let ghost tv = char_views(tail@);
    while k > 0
        invariant
            tv == char_views(tail@),
            0 <= k <= tail@.len(),
            char_views(out@) == root_part + tv.reverse().subrange(0, tail@.len() - k),
        decreases k,
    {
        k = k - 1;
        let ghost before = char_views(out@);
        out.push(tail[k].clone());
        assert(char_views(out@) =~= before.push(tail@[k as int]@));
        assert(tv.reverse()[tail@.len() - 1 - k] == tv[k as int]);
        assert(tv.reverse().subrange(0, tail@.len() - k) =~= tv.reverse().subrange(
            0,
            tail@.len() - k - 1,
        ).push(tv[k as int]));
    }
    assert(tv.reverse().subrange(0, tv.len() as int) =~= tv.reverse());
    let _ = kept.len();
    out
}

/// Strict lexicographic order of characters by code point.
pub open spec fn chars_lt(a: Seq<char>, b: Seq<char>) -> bool
    decreases a.len(),
{
    if a.len() == 0 {
        b.len() > 0
    } else if b.len() == 0 {
        false
    } else if a[0] != b[0] {
        (a[0] as u32) < (b[0] as u32)
    } else {
        chars_lt(a.drop_first(), b.drop_first())
    }
}

/// Strict lexicographic order of component lists.
pub open spec fn comps_lt(a: Seq<Seq<char>>, b: Seq<Seq<char>>) -> bool
    decreases a.len(),
{
    if a.len() == 0 {
        b.len() > 0
    } else if b.len() == 0 {
        false
    } else if a[0] != b[0] {
        chars_lt(a[0], b[0])
    } else {
        comps_lt(a.drop_first(), b.drop_first())
    }
}

/// Path order: by components, as `Path`'s `Ord` compares paths.
pub open spec fn path_lt(a: Seq<char>, b: Seq<char>) -> bool {
    comps_lt(components(a), components(b))
}

/// Two paths are the same path when their components are equal.
pub open spec fn same_path(a: Seq<char>, b: Seq<char>) -> bool {
    components(a) == components(b)
}

pub proof fn lemma_chars_lt_total(a: Seq<char>, b: Seq<char>)
    ensures
        a != b ==> chars_lt(a, b) || chars_lt(b, a),
        !(chars_lt(a, b) && chars_lt(b, a)),
        !chars_lt(a, a),
    decreases a.len(),
{
    if a.len() > 0 && b.len() > 0 {
        if a[0] != b[0] {
            vstd::utf8::char_u32_cast(a[0], a[0] as u32);
            vstd::utf8::char_u32_cast(b[0], b[0] as u32);
        }
        if a[0] == b[0] {
            lemma_chars_lt_total(a.drop_first(), b.drop_first());
            if a != b {
                assert(a.drop_first() != b.drop_first()) by {
                    if a.drop_first() == b.drop_first() {
                        assert(a =~= seq![a[0]] + a.drop_first());
                        assert(b =~= seq![b[0]] + b.drop_first());
                    }
                }
            }
        }
    } else if a.len() == 0 && b.len() == 0 {
        assert(a =~= b);
    }
    if a.len() > 0 {
        lemma_chars_lt_total(a.drop_first(), a.drop_first());
    }
}

pub proof fn lemma_comps_lt_total(a: Seq<Seq<char>>, b: Seq<Seq<char>>)
    ensures
        a != b ==> comps_lt(a, b) || comps_lt(b, a),
        !(comps_lt(a, b) && comps_lt(b, a)),
        !comps_lt(a, a),
    decreases a.len(),
{
    if a.len() > 0 && b.len() > 0 {
        lemma_chars_lt_total(a[0], b[0]);
        if a[0] == b[0] {
            lemma_comps_lt_total(a.drop_first(), b.drop_first());
            if a != b {
                assert(a.drop_first() != b.drop_first()) by {
                    if a.drop_first() == b.drop_first() {
                        assert(a =~= seq![a[0]] + a.drop_first());
                        assert(b =~= seq![b[0]] + b.drop_first());
                    }
                }
            }
        }
    } else if a.len() == 0 && b.len() == 0 {
        assert(a =~= b);
    }
    if a.len() > 0 {
        lemma_comps_lt_total(a.drop_first(), a.drop_first());
    }
}

pub fn chars_less(a: &Vec<char>, b: &Vec<char>) -> (r: bool)
    ensures
        r == chars_lt(a@, b@),
{
    let mut i: usize = 0;
    assert(a@.subrange(0, a@.len() as int) =~= a@);
    assert(b@.subrange(0, b@.len() as int) =~= b@);
    while i < a.len() && i < b.len() && a[i] == b[i]
        invariant
            0 <= i <= a@.len(),
            i <= b@.len(),
            chars_lt(a@, b@) == chars_lt(a@.subrange(i as int, a@.len() as int), b@.subrange(
                i as int,
                b@.len() as int,
            )),
        decreases a.len() - i,
    {
        let ghost sa = a@.subrange(i as int, a@.len() as int);
        let ghost sb = b@.subrange(i as int, b@.len() as int);
        assert(sa.drop_first() =~= a@.subrange(i + 1, a@.len() as int));
        assert(sb.drop_first() =~= b@.subrange(i + 1, b@.len() as int));
        i = i + 1;
    }
    if i == a.len() {
        i < b.len()
    } else if i == b.len() {
        false
    } else {
        (a[i] as u32) < (b[i] as u32)
    }
}

fn comps_less(a: &Vec<Vec<char>>, b: &Vec<Vec<char>>) -> (r: bool)
    ensures
        r == comps_lt(char_views(a@), char_views(b@)),
{
    let ghost av = char_views(a@);
    let ghost bv = char_views(b@);
    let mut i: usize = 0;
    assert(av.subrange(0, av.len() as int) =~= av);
    assert(bv.subrange(0, bv.len() as int) =~= bv);
    loop
        invariant
            0 <= i <= a@.len(),
            i <= b@.len(),
            av == char_views(a@),
            bv == char_views(b@),
            comps_lt(av, bv) == comps_lt(av.subrange(i as int, av.len() as int), bv.subrange(
                i as int,
                bv.len() as int,
            )),
        decreases a.len() - i,
    {
        if i == a.len() {
            return i < b.len();
        }
        if i == b.len() {
            return false;
        }
        let ghost sa = av.subrange(i as int, av.len() as int);
        let ghost sb = bv.subrange(i as int, bv.len() as int);
        assert(sa[0] == a@[i as int]@);
        assert(sb[0] == b@[i as int]@);
        if !chars_eq(&a[i], &b[i]) {
            return chars_less(&a[i], &b[i]);
        }
        assert(sa.drop_first() =~= av.subrange(i + 1, av.len() as int));
        assert(sb.drop_first() =~= bv.subrange(i + 1, bv.len() as int));
        i = i + 1;
    }
}

/// Whether `a` comes before `b` in path order.
pub fn path_less(a: &str, b: &str) -> (r: bool)
    ensures
        r == path_lt(a@, b@),
{
    let ca = path_components(&str_to_chars(a));
    let cb = path_components(&str_to_chars(b));
    comps_less(&ca, &cb)
}

/// Whether `a` and `b` name the same path (equal components).
#[verifier::loop_isolation(false)]
pub fn path_eq(a: &str, b: &str) -> (r: bool)
    ensures
        r == same_path(a@, b@),
{
    let ca = path_components(&str_to_chars(a));
    let cb = path_components(&str_to_chars(b));
    if ca.len() != cb.len() {
        assert(char_views(ca@).len() != char_views(cb@).len());
        return false;
    }
    let mut i: usize = 0;
    while i < ca.len()
        invariant
            ca@.len() == cb@.len(),
            0 <= i <= ca@.len(),
            forall|k: int| 0 <= k < i ==> ca@[k]@ == cb@[k]@,
        decreases ca.len() - i,
    {
        if !chars_eq(&ca[i], &cb[i]) {
            assert(char_views(ca@)[i as int] != char_views(cb@)[i as int]);
            return false;
        }
        i = i + 1;
    }
    assert(char_views(ca@) =~= char_views(cb@));
    true
}

/// Whether the components of `base` start the components of `p` (as
/// `Path::starts_with` compares).
pub open spec fn path_starts_with(p: Seq<char>, base: Seq<char>) -> bool {
    components(base).len() <= components(p).len() && components(p).subrange(
        0,
        components(base).len() as int,
    ) == components(base)
}

/// Exec counterpart of [`path_starts_with`].
#[verifier::loop_isolation(false)]
pub fn path_starts_with_exec(p: &str, base: &str) -> (r: bool)
    ensures
        r == path_starts_with(p@, base@),
{
    let cp = path_components(&str_to_chars(p));
    let cb = path_components(&str_to_chars(base));
    if cb.len() > cp.len() {
        return false;
    }
    let mut i: usize = 0;
    while i < cb.len()
        invariant
            cb@.len() <= cp@.len(),
            0 <= i <= cb@.len(),
            forall|k: int| 0 <= k < i ==> cp@[k]@ == cb@[k]@,
        decreases cb.len() - i,
    {
        if !chars_eq(&cp[i], &cb[i]) {
            assert(char_views(cp@).subrange(0, cb@.len() as int)[i as int] != char_views(cb@)[i as int]);
            return false;
        }
        i = i + 1;
    }
    assert(char_views(cp@).subrange(0, cb@.len() as int) =~= char_views(cb@));
    true
}

/// Whether the same path as `p` stands in `list`.
pub fn contains_path(list: &Vec<String>, p: &str) -> (r: bool)
    ensures
        r == holds_path(string_views(list@), p@),
{
    let mut i: usize = 0;
    while i < list.len()
        invariant
            0 <= i <= list@.len(),
            forall|k: int| 0 <= k < i ==> !same_path(#[trigger] string_views(list@)[k], p@),
        decreases list.len() - i,
    {
        assert(string_views(list@)[i as int] == list@[i as int]@);
        if path_eq(list[i].as_str(), p) {
            return true;
        }
        i = i + 1;
    }
    false
}

/// The character sequences that the strings of `s` hold.
pub open spec fn string_views(s: Seq<String>) -> Seq<Seq<char>> {
    s.map_values(|x: String| x@)
}

/// A list of paths in strictly increasing path order.
pub open spec fn strictly_sorted(s: Seq<Seq<char>>) -> bool {
    forall|i: int| 0 <= i < s.len() - 1 ==> #[trigger] path_lt(s[i], s[i + 1])
}

/// The same path as `p` stands in `s`.
pub open spec fn holds_path(s: Seq<Seq<char>>, p: Seq<char>) -> bool {
    exists|i: int| 0 <= i < s.len() && same_path(#[trigger] s[i], p)
}

/// Inserts `p` into the strictly sorted `list` unless the same path is already there.
fn insert_sorted_unique(list: &mut Vec<String>, p: String)
    requires
        strictly_sorted(string_views(old(list)@)),
    ensures
        strictly_sorted(string_views(final(list)@)),
        final(list)@.len() <= old(list)@.len() + 1,
        holds_path(string_views(final(list)@), p@),
        forall|q: Seq<char>|
            #[trigger] holds_path(string_views(old(list)@), q) ==> holds_path(
                string_views(final(list)@),
                q,
            ),
        forall|k: int|
            0 <= k < final(list)@.len() ==> (#[trigger] final(list)@[k])@ == p@ || string_views(
                old(list)@,
            ).contains(final(list)@[k]@),
{
    let ghost lv = string_views(list@);
    let mut k: usize = 0;
    while k < list.len() && path_less(list[k].as_str(), p.as_str())
        invariant
            0 <= k <= list@.len(),
            lv == string_views(list@),
            forall|j: int| 0 <= j < k ==> path_lt(#[trigger] lv[j], p@),
        decreases list.len() - k,
    {
        k = k + 1;
    }
    let at_end = k == list.len();
    assert(!at_end ==> !path_lt(lv[k as int], p@));
    if k < list.len() && path_eq(list[k].as_str(), p.as_str()) {
        assert(same_path(lv[k as int], p@));
        assert forall|j: int| 0 <= j < list@.len() implies string_views(list@).contains(
            (#[trigger] list@[j])@,
        ) by {
            assert(string_views(list@)[j] == list@[j]@);
        }
        return;
    }
    proof {
        if k < list@.len() {
            lemma_comps_lt_total(components(lv[k as int]), components(p@));
        }
    }
    list.insert(k, p);
    let ghost nv = string_views(list@);
    assert forall|i: int| 0 <= i < nv.len() - 1 implies #[trigger] path_lt(nv[i], nv[i + 1]) by {
        if i < k - 1 {
            assert(nv[i] == lv[i] && nv[i + 1] == lv[i + 1]);
        } else if i == k - 1 {
            assert(nv[i] == lv[i] && nv[i + 1] == p@);
        } else if i == k {
            assert(nv[i] == p@ && nv[i + 1] == lv[i]);
            assert(!same_path(lv[k as int], p@));
            assert(!path_lt(lv[k as int], p@));
            assert(comps_lt(components(p@), components(lv[k as int])));
        } else {
            assert(nv[i] == lv[i - 1] && nv[i + 1] == lv[i]);
            let h = i - 1;
            assert(path_lt(lv[h], lv[h + 1]));
        }
    }
    assert(nv[k as int] == p@);
    assert forall|j: int| 0 <= j < list@.len() implies (#[trigger] list@[j])@ == p@ || lv.contains(
        list@[j]@,
    ) by {
        if j < k {
            assert(lv[j] == nv[j]);
        } else if j > k {
            assert(lv[j - 1] == nv[j]);
        }
    }
    assert forall|q: Seq<char>| #[trigger] holds_path(lv, q) implies holds_path(nv, q) by {
        let j = choose|j: int| 0 <= j < lv.len() && same_path(#[trigger] lv[j], q);
        if j < k {
            assert(nv[j] == lv[j]);
        } else {
            assert(nv[j + 1] == lv[j]);
        }
    }
}

/// `paths` in strictly increasing path order with later copies of a path dropped.
pub fn sort_dedup_paths(paths: Vec<String>) -> (r: Vec<String>)
    ensures
        strictly_sorted(string_views(r@)),
        forall|k: int|
            0 <= k < paths@.len() ==> holds_path(
                string_views(r@),
                (#[trigger] paths@[k])@,
            ),
        forall|k: int| 0 <= k < r@.len() ==> string_views(paths@).contains((#[trigger] r@[k])@),
        r@.len() <= paths@.len(),
{
    let mut out: Vec<String> = Vec::new();
    let mut i: usize = 0;
    while i < paths.len()
        invariant
            0 <= i <= paths@.len(),
            out@.len() <= i,
            strictly_sorted(string_views(out@)),
            forall|k: int|
                0 <= k < i ==> holds_path(
                    string_views(out@),
                    (#[trigger] paths@[k])@,
                ),
            forall|k: int|
                0 <= k < out@.len() ==> string_views(paths@).subrange(0, i as int).contains(
                    (#[trigger] out@[k])@,
                ),
        decreases paths.len() - i,
    {
        let ghost before = out@;
        insert_sorted_unique(&mut out, paths[i].clone());
        proof {
            let pv = string_views(paths@);
            assert forall|k: int| 0 <= k < out@.len() implies pv.subrange(0, i + 1).contains(
                (#[trigger] out@[k])@,
            ) by {
                if out@[k]@ == paths@[i as int]@ {
                    assert(pv.subrange(0, i + 1)[i as int] == out@[k]@);
                } else {
                    let j0 = choose|j: int|
                        0 <= j < string_views(before).len() && string_views(before)[j] == out@[k]@;
                    assert(pv.subrange(0, i as int).contains(before[j0]@));
                    let j1 = choose|j: int|
                        0 <= j < pv.subrange(0, i as int).len() && pv.subrange(0, i as int)[j]
                            == before[j0]@;
                    assert(pv.subrange(0, i + 1)[j1] == out@[k]@);
                }
            }
        }
        i = i + 1;
    }
    proof {
        assert(string_views(paths@).subrange(0, paths@.len() as int) =~= string_views(paths@));
    }
    out
}

/// Position of the last `c` in `s` before position `end`.
pub open spec fn rfind_before(s: Seq<char>, c: char, end: int) -> Option<int>
    decreases end,
{
    if end <= 0 || end > s.len() {
        None
    } else if s[end - 1] == c {
        Some(end - 1)
    } else {
        rfind_before(s, c, end - 1)
    }
}

pub proof fn lemma_rfind_before(s: Seq<char>, c: char, end: int)
    requires
        0 <= end <= s.len(),
    ensures
        match rfind_before(s, c, end) {
            Some(i) => 0 <= i < end && s[i] == c && forall|k: int| i < k < end ==> s[k] != c,
            None => forall|k: int| 0 <= k < end ==> s[k] != c,
        },
    decreases end,
{
    if end > 0 && s[end - 1] != c {
        lemma_rfind_before(s, c, end - 1);
    }
}

/// Exec counterpart of [`rfind_before`].
pub fn rfind_char(s: &Vec<char>, c: char, end: usize) -> (r: Option<usize>)
    requires
        end <= s@.len(),
    ensures
        match r {
            Some(i) => rfind_before(s@, c, end as int) == Some(i as int),
            None => rfind_before(s@, c, end as int) is None,
        },
{
    let mut e: usize = end;
    while e > 0
        invariant
            e <= end <= s@.len(),
            rfind_before(s@, c, end as int) == rfind_before(s@, c, e as int),
        decreases e,
    {
        if s[e - 1] == c {
            return Some(e - 1);
        }
        e = e - 1;
    }
    None
}

/// The parent of a `/`-separated path, as `Path::parent` gives it: `None` for
/// the empty path and for the root, `""` for a single relative component.
pub open spec fn parent_of(s: Seq<char>) -> Option<Seq<char>> {
    let stripped = drop_trailing(s, |x: char| x == '/');
    if stripped.len() == 0 {
        None
    } else {
        match rfind_before(stripped, '/', stripped.len() as int) {
            None => Some(Seq::<char>::empty()),
            Some(i) => {
                let head = drop_trailing(stripped.subrange(0, i), |x: char| x == '/');
                if head.len() == 0 {
                    Some(seq!['/'])
                } else {
                    Some(head)
                }
            },
        }
    }
}

/// The last component of a `/`-separated path, as `Path::file_name` gives it:
/// `None` when the path is empty, the root, or ends in `..`.
pub open spec fn file_name_of(s: Seq<char>) -> Option<Seq<char>> {
    let stripped = drop_trailing(s, |x: char| x == '/');
    let name = match rfind_before(stripped, '/', stripped.len() as int) {
        None => stripped,
        Some(i) => stripped.subrange(i + 1, stripped.len() as int),
    };
    if name.len() == 0 || name == seq!['.', '.'] {
        None
    } else {
        Some(name)
    }
}

/// The parent of `path`.
pub fn parent_path(path: &str) -> (r: Option<String>)
    ensures
        match r {
            Some(p) => parent_of(path@) == Some(p@),
            None => parent_of(path@) is None,
        },
{
    let s = str_to_chars(path);
    let stripped = trim_end_char(&s, '/');
    if stripped.len() == 0 {
        return None;
    }
    match rfind_char(&stripped, '/', stripped.len()) {
        None => Some(String::new()),
        Some(i) => {
            proof {
                lemma_rfind_before(stripped@, '/', stripped@.len() as int);
            }
            let head_full = sub_chars(&stripped, 0, i);
            let head = trim_end_char(&head_full, '/');
            if head.len() == 0 {
                let mut root: Vec<char> = Vec::new();
                root.push('/');
                assert(root@ =~= seq!['/']);
                Some(chars_to_string(root.as_slice()))
            } else {
                Some(chars_to_string(head.as_slice()))
            }
        },
    }
}

/// The last component of `path`.
pub fn file_name(path: &str) -> (r: Option<String>)
    ensures
        match r {
            Some(p) => file_name_of(path@) == Some(p@),
            None => file_name_of(path@) is None,
        },
{
    let s = str_to_chars(path);
    let stripped = trim_end_char(&s, '/');
    proof {
        lemma_rfind_before(stripped@, '/', stripped@.len() as int);
    }
    let name = match rfind_char(&stripped, '/', stripped.len()) {
        None => stripped,
        Some(i) => sub_chars(&stripped, i + 1, stripped.len()),
    };
    if name.len() == 0 {
        return None;
    }
    let is_dotdot = name.len() == 2 && name[0] == '.' && name[1] == '.';
    assert(is_dotdot == (name@ == seq!['.', '.'])) by {
        if name@.len() == 2 && name@[0] == '.' && name@[1] == '.' {
            assert(name@ =~= seq!['.', '.']);
        }
    }
    if is_dotdot {
        None
    } else {
        Some(chars_to_string(name.as_slice()))
    }
}

/// Whether the last component of `path` is `name` (as `Path::ends_with` with a
/// one-component argument).
pub open spec fn last_component_is(path: Seq<char>, name: Seq<char>) -> bool {
    let c = components(path);
    c.len() > 0 && c.last() == name
}

/// Exec counterpart of [`last_component_is`].
pub fn ends_with_component(path: &str, name: &str) -> (r: bool)
    ensures
        r == last_component_is(path@, name@),
{
    let c = path_components(&str_to_chars(path));
    if c.len() == 0 {
        return false;
    }
    let n = str_to_chars(name);
    assert(char_views(c@).last() == c@[c@.len() - 1]@);
    chars_eq(&c[c.len() - 1], &n)
}


/// Whether an executable name may be a symlink worth resolving: it starts with
/// `python` or `conda` and does not end in `-config` or `-build`.
pub open spec fn resolvable_name(name: Seq<char>) -> bool {
    !crate::text::ends_with(name, "-config"@) && !crate::text::ends_with(name, "-build"@) && (
    crate::text::starts_with(name, "python"@) || crate::text::starts_with(name, "conda"@))
}

/// Exec counterpart of [`resolvable_name`].
pub fn is_resolvable_name(name: &str) -> (r: bool)
    ensures
        r == resolvable_name(name@),
{
    let n = str_to_chars(name);
    !crate::text::ends_with_chars(&n, &str_to_chars("-config"))
        && !crate::text::ends_with_chars(&n, &str_to_chars("-build")) && (
    crate::text::starts_with_chars(&n, &str_to_chars("python"))
        || crate::text::starts_with_chars(&n, &str_to_chars("conda")))
}

/// The target `resolve_symlink` gives for `exe`, given the file system's answers
/// to whether it is a symlink and what it resolves to.
pub open spec fn symlink_target(exe: Seq<char>, is_link: bool, target: Option<Seq<char>>) -> Option<Seq<char>> {
    match file_name_of(exe) {
        Some(n) => if resolvable_name(n) && is_link {
            match target {
                Some(t) => if t != exe {
                    Some(t)
                } else {
                    None
                },
                None => None,
            }
        } else {
            None
        },
        None => None,
    }
}

/// `is_link` and `target` are the file system's answers for `exe`, where
/// [`symlink_target`] asks for them: whether it is a symlink (for a resolvable
/// name), and what it resolves to (for a symlink).
pub open spec fn symlink_answers<F: FileSystem>(fs: &F, exe: Seq<char>, is_link: bool, target: Option<Seq<char>>) -> bool {
    &&& (file_name_of(exe) matches Some(n) && resolvable_name(n)
        ==> crate::os_environment::answered_is_symlink(fs, exe, is_link))
    &&& (file_name_of(exe) matches Some(n) && resolvable_name(n) && is_link
        ==> crate::os_environment::answered_canonical(fs, exe, target))
}

/// `res` is what [`resolve_symlink`] gives for `exe` for the file system's answers.
pub open spec fn symlink_read<F: FileSystem>(fs: &F, exe: Seq<char>, res: Option<Seq<char>>) -> bool {
    exists|is_link: bool, target: Option<Seq<char>>|
        #[trigger] symlink_target(exe, is_link, target) == res && symlink_answers(fs, exe, is_link, target)
}

/// The target of the symlink `exe`, when its name is one of a Python or conda
/// executable and it is a symlink that resolves elsewhere.
pub fn resolve_symlink<F: FileSystem>(fs: &F, exe: &str) -> (r: Option<String>)
    ensures
        r is Some ==> file_name_of(exe@) is Some && resolvable_name(file_name_of(exe@)->0),
        r matches Some(t) ==> t@ != exe@,
        exists|is_link: bool, target: Option<Seq<char>>|
            #[trigger] symlink_target(exe@, is_link, target) == crate::text::opt_view(r) && symlink_answers(
                fs,
                exe@,
                is_link,
                target,
            ),
        symlink_read(fs, exe@, crate::text::opt_view(r)),
{
    let name = match file_name(exe) {
        Some(n) => n,
        None => {
            return None;
        },
    };
    if !is_resolvable_name(name.as_str()) {
        assert(symlink_target(exe@, false, None) is None);
        return None;
    }
    let link = fs.is_symlink(exe);
    assert(crate::os_environment::answered_is_symlink(fs, exe@, link));
    if !link {
        assert(symlink_target(exe@, false, None) is None);
        return None;
    }
    let canon = fs.canonicalize(exe);
    assert(crate::os_environment::answered_canonical(fs, exe@, crate::text::opt_view(canon)));
    match canon {
        Some(target) => {
            if chars_eq(&str_to_chars(target.as_str()), &str_to_chars(exe)) {
                assert(symlink_target(exe@, true, Some(target@)) is None);
                None
            } else {
                assert(symlink_target(exe@, true, Some(target@)) == Some(target@));
                Some(target)
            }
        },
        None => {
            assert(symlink_target(exe@, true, None) is None);
            None
        },
    }
}

/// Whether a path starts with the `~` component.
pub open spec fn starts_with_home(t: Seq<char>) -> bool {
    t == "~"@ || crate::text::starts_with(t, "~/"@)
}

/// A path with `~` replaced by `home`, or `${USERNAME}` and `${HOME}` replaced by
/// `username` and `home` (empty when unknown).
pub open spec fn expanded_path(path: Seq<char>, home: Option<Seq<char>>, username: Option<Seq<char>>) -> Seq<char> {
    if starts_with_home(path) && home is Some {
        join(home->0, crate::text::drop_leading(path.drop_first(), |c: char| c == '/'))
    } else if crate::text::contains_sub(path, "${USERNAME}"@) || crate::text::contains_sub(path, "${HOME}"@) {
        crate::text::replace_seq(
            crate::text::replace_seq(path, "${USERNAME}"@, match username { Some(u) => u, None => Seq::empty() }),
            "${HOME}"@,
            match home { Some(h) => h, None => Seq::empty() },
        )
    } else {
        path
    }
}

/// Expands `~`, `${USERNAME}` and `${HOME}` in `path`.
pub fn expand_path(path: &str, home: &Option<String>, username: &Option<String>) -> (r: String)
    ensures
        r@ == expanded_path(path@, crate::text::opt_view(*home), crate::text::opt_view(*username)),
{
    let t = str_to_chars(path);
    let is_tilde_only = t.len() == 1 && t[0] == '~';
    let tilde_slash = t.len() >= 2 && t[0] == '~' && t[1] == '/';
    proof {
        reveal_strlit("~");
        reveal_strlit("~/");
        if t@.len() == 1 && t@[0] == '~' {
            assert(t@ =~= "~"@);
        }
        if t@ == "~"@ {
            assert(t@.len() == 1);
        }
        if tilde_slash {
            assert(t@.subrange(0, 2) =~= "~/"@);
        }
        if crate::text::starts_with(t@, "~/"@) {
            assert(t@.subrange(0, 2)[0] == '~');
            assert(t@.subrange(0, 2)[1] == '/');
        }
    }
    if (is_tilde_only || tilde_slash) && home.is_some() {
        let h = match home {
            Some(h) => h,
            None => {
                return path.to_owned();
            },
        };
        let after = sub_chars(&t, 1, t.len());
        assert(after@ =~= t@.drop_first());
        let rest = crate::text::trim_start_char(&after, '/');
        return join_path(h.as_str(), chars_to_string(rest.as_slice()).as_str());
    }
    if crate::text::contains_text(path, "${USERNAME}") || crate::text::contains_text(path, "${HOME}") {
        let user = match username {
            Some(u) => u.clone(),
            None => String::new(),
        };
        let h = match home {
            Some(h) => h.clone(),
            None => String::new(),
        };
        let first = crate::text::replace_text(path, "${USERNAME}", user.as_str());
        return crate::text::replace_text(first.as_str(), "${HOME}", h.as_str());
    }
    path.to_owned()
}


/// Whether `list` holds exactly the text `p`.
pub fn holds_text(list: &Vec<String>, p: &str) -> (r: bool)
    ensures
        r == string_views(list@).contains(p@),
{
    let mut i: usize = 0;
    while i < list.len()
        invariant
            0 <= i <= list@.len(),
            forall|j: int| 0 <= j < i ==> list@[j]@ != p@,
        decreases list.len() - i,
    {
        if crate::text::chars_eq(&crate::text::str_to_chars(list[i].as_str()), &crate::text::str_to_chars(p)) {
            assert(string_views(list@)[i as int] == p@);
            return true;
        }
        i = i + 1;
    }
    assert forall|j: int| 0 <= j < string_views(list@).len() implies string_views(list@)[j] != p@ by {
        assert(list@[j]@ != p@);
    }
    false
}

} // verus!
