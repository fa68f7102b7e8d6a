//! Items taken out of a sequence in the order they stand there.
use vstd::prelude::*;

verus! {

/// `idx` picks the items of `r` out of `s`, in increasing positions.
pub open spec fn picks(r: Seq<Seq<char>>, s: Seq<Seq<char>>, idx: Seq<int>) -> bool {
    &&& idx.len() == r.len()
    &&& forall|k: int| 0 <= k < idx.len() ==> 0 <= #[trigger] idx[k] < s.len() && s[idx[k]] == r[k]
    &&& forall|a: int, b: int| 0 <= a < b < idx.len() ==> #[trigger] idx[a] < #[trigger] idx[b]
}

/// Taking the item at position `j` of `s`, after all picked so far, keeps `r`
/// picked in order.
pub proof fn lemma_picks_push(r: Seq<Seq<char>>, s: Seq<Seq<char>>, idx: Seq<int>, j: int)
    requires
        picks(r, s, idx),
        forall|k: int| 0 <= k < idx.len() ==> #[trigger] idx[k] < j,
        0 <= j < s.len(),
    ensures
        picks(r.push(s[j]), s, idx.push(j)),
{
    let n = idx.push(j);
    assert forall|a: int, b: int| 0 <= a < b < n.len() implies #[trigger] n[a] < #[trigger] n[b] by {
        if b < idx.len() {
            assert(n[a] == idx[a] && n[b] == idx[b]);
        } else {
            assert(n[a] == idx[a]);
        }
    }
    assert forall|k: int| 0 <= k < n.len() implies 0 <= #[trigger] n[k] < s.len() && s[n[k]] == r.push(s[j])[k] by {
        if k < idx.len() {
            assert(n[k] == idx[k]);
        }
    }
}

/// `r` is made of items of `s`, in the order they have there.
pub open spec fn picked_in_order(r: Seq<Seq<char>>, s: Seq<Seq<char>>) -> bool {
    exists|idx: Seq<int>| #[trigger] picks(r, s, idx)
}

/// The items of `s` among its first `n` whose flag is set, in order.
pub open spec fn flagged_upto(s: Seq<Seq<char>>, flags: Seq<bool>, n: int) -> Seq<Seq<char>>
    decreases n,
{
    if n <= 0 {
        Seq::<Seq<char>>::empty()
    } else if flags[n - 1] {
        flagged_upto(s, flags, n - 1).push(s[n - 1])
    } else {
        flagged_upto(s, flags, n - 1)
    }
}

/// The items of `s` whose flag (at the same position of `flags`) is set, in order.
pub open spec fn flagged(s: Seq<Seq<char>>, flags: Seq<bool>) -> Seq<Seq<char>> {
    flagged_upto(s, flags, s.len() as int)
}

/// The flagged items are picked out of `s` in order.
pub proof fn lemma_flagged_picks(s: Seq<Seq<char>>, flags: Seq<bool>, n: int) -> (idx: Seq<int>)
    requires
        0 <= n <= s.len(),
        flags.len() == s.len(),
    ensures
        picks(flagged_upto(s, flags, n), s, idx),
        forall|k: int| 0 <= k < idx.len() ==> #[trigger] idx[k] < n,
        flagged_upto(s, flags, n).len() <= n,
    decreases n,
{
    if n == 0 {
        Seq::empty()
    } else {
        let prev = lemma_flagged_picks(s, flags, n - 1);
        if flags[n - 1] {
            lemma_picks_push(flagged_upto(s, flags, n - 1), s, prev, n - 1);
            prev.push(n - 1)
        } else {
            prev
        }
    }
}

/// The items of `paths` whose flag is set, in order.
pub fn keep_flagged(paths: &Vec<String>, flags: &Vec<bool>) -> (r: Vec<String>)
    requires
        flags@.len() == paths@.len(),
    ensures
        crate::paths::string_views(r@) == flagged(crate::paths::string_views(paths@), flags@),
{
    let ghost sv = crate::paths::string_views(paths@);
    let mut out: Vec<String> = Vec::new();
    let mut i: usize = 0;
    assert(crate::paths::string_views(out@) =~= flagged_upto(sv, flags@, 0));
    while i < paths.len()
        invariant
            0 <= i <= paths@.len(),
            flags@.len() == paths@.len(),
            sv == crate::paths::string_views(paths@),
            crate::paths::string_views(out@) == flagged_upto(sv, flags@, i as int),
        decreases paths.len() - i,
    {
        if flags[i] {
            let ghost before = crate::paths::string_views(out@);
            out.push(paths[i].clone());
            assert(crate::paths::string_views(out@) =~= before.push(sv[i as int]));
        }
        i = i + 1;
    }
    out
}

/// The first position at or after `i` whose flag is set.
pub open spec fn first_flag_from(flags: Seq<bool>, i: int) -> Option<int>
    decreases flags.len() - i,
{
    if i < 0 || i >= flags.len() {
        None
    } else if flags[i] {
        Some(i)
    } else {
        first_flag_from(flags, i + 1)
    }
}

/// The first set flag at or after `i` is a set flag within the sequence, with
/// none set before it.
pub proof fn lemma_first_flag_in_range(flags: Seq<bool>, i: int)
    ensures
        first_flag_from(flags, i) matches Some(k) ==> i <= k < flags.len() && flags[k] && forall|j: int|
            i <= j < k ==> !#[trigger] flags[j],
        first_flag_from(flags, i) is None && 0 <= i ==> forall|j: int| i <= j < flags.len() ==> !#[trigger] flags[j],
    decreases flags.len() - i,
{
    if 0 <= i < flags.len() && !flags[i] {
        lemma_first_flag_in_range(flags, i + 1);
    }
}

/// The first position whose flag is set.
pub fn first_flagged(flags: &Vec<bool>) -> (r: Option<usize>)
    ensures
        match r {
            Some(i) => first_flag_from(flags@, 0) == Some(i as int),
            None => first_flag_from(flags@, 0) is None,
        },
{
    let mut i: usize = 0;
    while i < flags.len()
        invariant
            0 <= i <= flags@.len(),
            first_flag_from(flags@, 0) == first_flag_from(flags@, i as int),
        decreases flags.len() - i,
    {
        if flags[i] {
            return Some(i);
        }
        i = i + 1;
    }
    None
}

} // verus!
