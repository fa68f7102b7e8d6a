//! Brace expansion (`{a,b}`) of path patterns.
use vstd::prelude::*;
use crate::text::{
    append_chars, count_char, find_char_from, find_from, lemma_count_char_append,
    lemma_count_char_zero, lemma_find_from_props, split_chars, split_on, sub_chars,
};

verus! {

/// Most patterns that capped brace expansion produces.
pub const MAX_BRACE_EXPANSIONS: usize = 1024;

/// Most intermediate patterns that brace expansion may visit.
pub const MAX_BRACE_EXPANSION_STEPS: usize = 10_000;

/// The first brace group of `s`: the first `{` and the first `}` after it.
pub open spec fn brace_group(s: Seq<char>) -> Option<(int, int)> {
    match find_from(s, '{', 0) {
        Some(o) => match find_from(s, '}', o) {
            Some(c) => Some((o, c)),
            None => None,
        },
        None => None,
    }
}

/// `s` with its group `[o..=c]` replaced by `alt`.
pub open spec fn substitute(s: Seq<char>, o: int, c: int, alt: Seq<char>) -> Seq<char> {
    s.subrange(0, o) + alt + s.subrange(c + 1, s.len() as int)
}

/// The alternatives of the first brace group of `s`.
pub open spec fn brace_alternatives(s: Seq<char>) -> Seq<Seq<char>> {
    match brace_group(s) {
        Some((o, c)) => split_on(s.subrange(o + 1, c), ','),
        None => seq![],
    }
}

/// The patterns obtained by expanding the first brace group of `s`, in order.
pub open spec fn brace_children(s: Seq<char>) -> Seq<Seq<char>> {
    match brace_group(s) {
        Some((o, c)) => split_on(s.subrange(o + 1, c), ',').map_values(
            |alt: Seq<char>| substitute(s, o, c, alt),
        ),
        None => seq![],
    }
}

pub open spec fn closers(s: Seq<char>) -> nat {
    count_char(s, '}')
}

/// Depth-first (pre-order) enumeration of every pattern visited while
/// expanding `s`: `s` itself, then the enumerations of its children.
pub open spec fn brace_preorder(s: Seq<char>) -> Seq<Seq<char>>
    decreases closers(s) + 1, 0nat,
{
    if brace_group(s) is Some {
        seq![s] + brace_preorder_list(brace_children(s), closers(s))
    } else {
        seq![s]
    }
}

/// Concatenated pre-orders of the patterns in `list` (each with fewer than `k` closers).
pub open spec fn brace_preorder_list(list: Seq<Seq<char>>, k: nat) -> Seq<Seq<char>>
    decreases k, list.len(),
{
    if list.len() == 0 {
        seq![]
    } else {
        (if closers(list[0]) < k {
            brace_preorder(list[0])
        } else {
            seq![]
        }) + brace_preorder_list(list.drop_first(), k)
    }
}

/// Pre-orders of a stack of pending patterns, top (last) first.
pub open spec fn stack_preorder(st: Seq<Seq<char>>) -> Seq<Seq<char>>
    decreases st.len(),
{
    if st.len() == 0 {
        seq![]
    } else {
        brace_preorder(st.last()) + stack_preorder(st.drop_last())
    }
}

/// The patterns of `s` that hold no brace group, in order.
pub open spec fn leaves(s: Seq<Seq<char>>) -> Seq<Seq<char>>
    decreases s.len(),
{
    if s.len() == 0 {
        seq![]
    } else if brace_group(s.last()) is None {
        leaves(s.drop_last()).push(s.last())
    } else {
        leaves(s.drop_last())
    }
}

/// Where the capped enumeration stops: at the end, after the step budget,
/// or once the result budget is full.
pub open spec fn brace_stop(p: Seq<Seq<char>>, n: int) -> int
    decreases p.len() - n,
{
    if n >= p.len() || n >= MAX_BRACE_EXPANSION_STEPS || leaves(p.take(n)).len()
        >= MAX_BRACE_EXPANSIONS {
        n
    } else {
        brace_stop(p, n + 1)
    }
}

/// The full brace expansion of `s`.
pub open spec fn full_expansion(s: Seq<char>) -> Seq<Seq<char>> {
    leaves(brace_preorder(s))
}

/// The capped brace expansion of `s`.
pub open spec fn capped_expansion(s: Seq<char>) -> Seq<Seq<char>> {
    let p = brace_preorder(s);
    leaves(p.take(brace_stop(p, 0)))
}

pub proof fn lemma_split_pieces_avoid(x: Seq<char>, sep: char, d: char)
    requires
        forall|k: int| 0 <= k < x.len() ==> x[k] != d,
    ensures
        forall|i: int, k: int|
            0 <= i < split_on(x, sep).len() && 0 <= k < split_on(x, sep)[i].len() ==> #[trigger] split_on(
                x,
                sep,
            )[i][k] != d,
    decreases x.len(),
{
    lemma_find_from_props(x, sep, 0);
    match find_from(x, sep, 0) {
        Some(j) => {
            let rest = x.subrange(j + 1, x.len() as int);
            lemma_split_pieces_avoid(rest, sep, d);
            assert forall|i: int, k: int|
                0 <= i < split_on(x, sep).len() && 0 <= k < split_on(x, sep)[i].len() implies #[trigger] split_on(
                x,
                sep,
            )[i][k] != d by {
                if i > 0 {
                    assert(split_on(x, sep)[i] == split_on(rest, sep)[i - 1]);
                }
            }
        },
        None => {},
    }
}

pub proof fn lemma_group_props(s: Seq<char>)
    ensures
        match brace_group(s) {
            Some((o, c)) => 0 <= o < c < s.len() && s[o] == '{' && s[c] == '}' && (forall|k: int|
                0 <= k < o ==> s[k] != '{') && (forall|k: int| o <= k < c ==> s[k] != '}'),
            None => true,
        },
{
    lemma_find_from_props(s, '{', 0);
    match find_from(s, '{', 0) {
        Some(o) => {
            lemma_find_from_props(s, '}', o);
        },
        None => {},
    }
}

pub proof fn lemma_children_fewer_closers(s: Seq<char>)
    ensures
        forall|i: int|
            0 <= i < brace_children(s).len() ==> closers(#[trigger] brace_children(s)[i]) < closers(
                s,
            ),
{
    lemma_group_props(s);
    match brace_group(s) {
        Some((o, c)) => {
            let inner = s.subrange(o + 1, c);
            lemma_split_pieces_avoid(inner, ',', '}');
            let pre = s.subrange(0, o);
            let mid = s.subrange(o, c + 1);
            let suf = s.subrange(c + 1, s.len() as int);
            assert(s =~= pre + mid + suf);
            lemma_count_char_append(pre + mid, suf, '}');
            lemma_count_char_append(pre, mid, '}');
            assert(mid.last() == '}');
            assert(count_char(mid, '}') >= 1);
            assert forall|i: int|
                0 <= i < brace_children(s).len() implies closers(
                #[trigger] brace_children(s)[i],
            ) < closers(s) by {
                let alt = split_on(inner, ',')[i];
                assert(forall|k: int| 0 <= k < alt.len() ==> alt[k] != '}');
                lemma_count_char_zero(alt, '}');
                lemma_count_char_append(pre + alt, suf, '}');
                lemma_count_char_append(pre, alt, '}');
                assert(brace_children(s)[i] == substitute(s, o, c, alt));
            }
        },
        None => {},
    }
}

pub proof fn lemma_preorder_first(s: Seq<char>)
    ensures
        brace_preorder(s).len() >= 1,
        brace_preorder(s)[0] == s,
        brace_preorder(s).drop_first() == brace_preorder_list(brace_children(s), closers(s)),
{
    if brace_group(s) is Some {
        assert((seq![s] + brace_preorder_list(brace_children(s), closers(s))).drop_first()
            =~= brace_preorder_list(brace_children(s), closers(s)));
    } else {
        assert(brace_children(s) =~= Seq::<Seq<char>>::empty());
        assert(seq![s].drop_first() =~= Seq::<Seq<char>>::empty());
    }
}

pub proof fn lemma_leaves_take_succ(p: Seq<Seq<char>>, n: int)
    requires
        0 <= n < p.len(),
    ensures
        leaves(p.take(n + 1)) == if brace_group(p[n]) is None {
            leaves(p.take(n)).push(p[n])
        } else {
            leaves(p.take(n))
        },
{
    assert(p.take(n + 1).drop_last() =~= p.take(n));
}

pub proof fn lemma_leaves_len(p: Seq<Seq<char>>)
    ensures
        leaves(p).len() <= p.len(),
    decreases p.len(),
{
    if p.len() > 0 {
        lemma_leaves_len(p.drop_last());
    }
}

/// Exec counterpart of [`brace_group`].
pub fn find_brace_group(s: &Vec<char>) -> (r: Option<(usize, usize)>)
    ensures
        match r {
            Some((o, c)) => brace_group(s@) == Some((o as int, c as int)),
            None => brace_group(s@) is None,
        },
{
    match find_char_from(s, '{', 0) {
        Some(o) => match find_char_from(s, '}', o) {
            Some(c) => Some((o, c)),
            None => None,
        },
        None => None,
    }
}

/// `s` with its group `[o..=c]` replaced by `alt`.
fn substitute_exec(s: &Vec<char>, o: usize, c: usize, alt: &Vec<char>) -> (r: Vec<char>)
    requires
        o < c < s.len(),
    ensures
        r@ == substitute(s@, o as int, c as int, alt@),
{
    let mut child = sub_chars(s, 0, o);
    append_chars(&mut child, alt);
    let suffix = sub_chars(s, c + 1, s.len());
    append_chars(&mut child, &suffix);
    child
}

/// The children of `s`, in order.
pub fn children_exec(s: &Vec<char>, o: usize, c: usize) -> (r: Vec<Vec<char>>)
    requires
        brace_group(s@) == Some((o as int, c as int)),
    ensures
        r@.map_values(|v: Vec<char>| v@) == brace_children(s@),
{
    proof {
        lemma_group_props(s@);
    }
    let inner = sub_chars(s, o + 1, c);
    let alts = split_chars(&inner, ',');
    let ghost spec_alts = split_on(s@.subrange(o + 1, c as int), ',');
    assert(alts@.map_values(|v: Vec<char>| v@) == spec_alts);
    let mut out: Vec<Vec<char>> = Vec::new();
    let mut i: usize = 0;
    while i < alts.len()
        invariant
            0 <= i <= alts.len(),
            o < c < s.len(),
            brace_group(s@) == Some((o as int, c as int)),
            alts@.map_values(|v: Vec<char>| v@) == spec_alts,
            out@.len() == i,
            forall|j: int|
                0 <= j < i ==> (#[trigger] out@[j])@ == substitute(
                    s@,
                    o as int,
                    c as int,
                    spec_alts[j],
                ),
        decreases alts.len() - i,
    {
        let child = substitute_exec(s, o, c, &alts[i]);
        assert(alts@.map_values(|v: Vec<char>| v@)[i as int] == alts@[i as int]@);
        out.push(child);
        i = i + 1;
    }
    assert(out@.map_values(|v: Vec<char>| v@) =~= brace_children(s@));
    out
}

/// Expands brace groups depth first, stopping after [`MAX_BRACE_EXPANSIONS`]
/// results or [`MAX_BRACE_EXPANSION_STEPS`] visited patterns.
pub fn expand_braces_inner(pattern: &Vec<char>) -> (results: Vec<Vec<char>>)
    ensures
        results@.map_values(|v: Vec<char>| v@) == capped_expansion(pattern@),
{
    let ghost p = brace_preorder(pattern@);
    let mut pending: Vec<Vec<char>> = Vec::new();
    pending.push(pattern.clone());
    let mut results: Vec<Vec<char>> = Vec::new();
    let mut steps: usize = 0;
    proof {
        assert(pending@.map_values(|v: Vec<char>| v@) =~= seq![pattern@]);
        assert(stack_preorder(seq![pattern@]) =~= brace_preorder(pattern@) + stack_preorder(
            seq![pattern@].drop_last(),
        ));
        assert(p.take(0) =~= Seq::<Seq<char>>::empty());
        assert(p =~= p.take(0) + stack_preorder(pending@.map_values(|v: Vec<char>| v@)));
        assert(results@.map_values(|v: Vec<char>| v@) =~= leaves(p.take(0)));
    }
    loop
        invariant
            0 <= steps <= p.len(),
            p == brace_preorder(pattern@),
            p == p.take(steps as int) + stack_preorder(pending@.map_values(|v: Vec<char>| v@)),
            results@.map_values(|v: Vec<char>| v@) == leaves(p.take(steps as int)),
            brace_stop(p, 0) == brace_stop(p, steps as int),
            results@.len() <= MAX_BRACE_EXPANSIONS,
            steps <= MAX_BRACE_EXPANSION_STEPS,
        ensures
            results@.map_values(|v: Vec<char>| v@) == capped_expansion(pattern@),
        decreases p.len() - steps,
    {
        let ghost pv = pending@.map_values(|v: Vec<char>| v@);
        if pending.len() == 0 {
            proof {
                assert(pv =~= Seq::<Seq<char>>::empty());
                assert(p.take(steps as int) =~= p);
            }
            break;
        }
        if results.len() == MAX_BRACE_EXPANSIONS || steps == MAX_BRACE_EXPANSION_STEPS {
            break;
        }
        let top = pending.pop().unwrap();
        let ghost rest = pending@.map_values(|v: Vec<char>| v@);
        proof {
            assert(pv.last() == top@);
            assert(pv.drop_last() =~= rest);
            lemma_preorder_first(top@);
            assert(stack_preorder(pv) == brace_preorder(top@) + stack_preorder(rest));
            assert(p[steps as int] == top@) by {
                assert(p[steps as int] == (p.take(steps as int) + stack_preorder(pv))[steps as int]);
            }
            assert(p.len() > steps);
            assert(results@.map_values(|v: Vec<char>| v@).len() == results@.len());
            assert(leaves(p.take(steps as int)).len() < MAX_BRACE_EXPANSIONS);
            assert(steps < MAX_BRACE_EXPANSION_STEPS);
            assert(brace_stop(p, steps as int) == brace_stop(p, steps as int + 1));
            lemma_leaves_take_succ(p, steps as int);
            lemma_leaves_len(p.take(steps as int));
        }
        steps = steps + 1;
        match find_brace_group(&top) {
            Some((o, c)) => {
                let children = children_exec(&top, o, c);
                let ghost ch = brace_children(top@);
                let ghost k = closers(top@);
                proof {
                    lemma_children_fewer_closers(top@);
                    assert(ch.subrange(ch.len() as int, ch.len() as int) =~= Seq::<
                        Seq<char>,
                    >::empty());
                }
                let mut i: usize = children.len();
                while i > 0
                    invariant
                        0 <= i <= children.len(),
                        children@.map_values(|v: Vec<char>| v@) == ch,
                        forall|j: int| 0 <= j < ch.len() ==> closers(#[trigger] ch[j]) < k,
                        stack_preorder(pending@.map_values(|v: Vec<char>| v@))
                            == brace_preorder_list(ch.subrange(i as int, ch.len() as int), k)
                            + stack_preorder(rest),
                    decreases i,
                {
                    i = i - 1;
                    let ghost before = pending@.map_values(|v: Vec<char>| v@);
                    let child = children[i].clone();
                    assert(child@ == ch[i as int]);
                    pending.push(child);
                    proof {
                        let after = pending@.map_values(|v: Vec<char>| v@);
                        assert(after.drop_last() =~= before);
                        assert(after.last() == ch[i as int]);
                        let sub = ch.subrange(i as int, ch.len() as int);
                        assert(sub[0] == ch[i as int]);
                        assert(sub.drop_first() =~= ch.subrange(i as int + 1, ch.len() as int));
                        assert(stack_preorder(after) == brace_preorder(ch[i as int])
                            + stack_preorder(before));
                        assert(brace_preorder_list(sub, k) == brace_preorder(ch[i as int])
                            + brace_preorder_list(ch.subrange(i as int + 1, ch.len() as int), k));
                        assert(stack_preorder(after) =~= brace_preorder_list(sub, k)
                            + stack_preorder(rest));
                    }
                }
                proof {
                    assert(ch.subrange(0, ch.len() as int) =~= ch);
                    assert(brace_preorder(top@) == seq![top@] + brace_preorder_list(ch, k));
                    assert(p.take(steps as int) =~= p.take(steps as int - 1).push(top@));
                    assert(p =~= p.take(steps as int) + stack_preorder(
                        pending@.map_values(|v: Vec<char>| v@),
                    ));
                }
            },
            None => {
                let ghost before = results@.map_values(|v: Vec<char>| v@);
                results.push(top);
                proof {
                    assert(results@.map_values(|v: Vec<char>| v@) =~= before.push(top@));
                    assert(brace_preorder(top@) == seq![top@]);
                    assert(p.take(steps as int) =~= p.take(steps as int - 1).push(top@));
                    assert(p =~= p.take(steps as int) + stack_preorder(rest));
                }
            },
        }
    }
    results
}

} // verus!
