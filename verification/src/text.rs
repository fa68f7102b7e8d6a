//! Character-sequence helpers shared by the parsers of this crate.
use vstd::prelude::*;

verus! {

/// Index of the first occurrence of `c` in `s` at or after `i`.
pub open spec fn find_from(s: Seq<char>, c: char, i: int) -> Option<int>
    decreases s.len() - i,
{
    if i < 0 || i >= s.len() {
        None
    } else if s[i] == c {
        Some(i)
    } else {
        find_from(s, c, i + 1)
    }
}

/// Whether `c` occurs anywhere in `s`.
pub open spec fn has_char(s: Seq<char>, c: char) -> bool {
    exists|i: int| 0 <= i < s.len() && s[i] == c
}

/// Number of occurrences of `c` in `s`.
pub open spec fn count_char(s: Seq<char>, c: char) -> nat
    decreases s.len(),
{
    if s.len() == 0 {
        0
    } else {
        count_char(s.drop_last(), c) + if s.last() == c { 1nat } else { 0nat }
    }
}

/// Pieces of `s` between occurrences of `sep` (as `str::split` yields them).
pub open spec fn split_on(s: Seq<char>, sep: char) -> Seq<Seq<char>>
    decreases s.len(),
{
    match find_from(s, sep, 0) {
        Some(i) => {
            proof {
                lemma_find_from_props(s, sep, 0);
            }
            seq![s.subrange(0, i)] + split_on(s.subrange(i + 1, s.len() as int), sep)
        },
        None => seq![s],
    }
}

pub proof fn lemma_find_from_props(s: Seq<char>, c: char, i: int)
    requires
        0 <= i,
    ensures
        match find_from(s, c, i) {
            Some(j) => i <= j < s.len() && s[j] == c && forall|k: int| i <= k < j ==> s[k] != c,
            None => forall|k: int| i <= k < s.len() ==> s[k] != c,
        },
    decreases s.len() - i,
{
    if i < s.len() && s[i] != c {
        lemma_find_from_props(s, c, i + 1);
    }
}

pub proof fn lemma_find_from_char(s: Seq<char>, c: char, i: int, j: int)
    requires
        0 <= i <= j < s.len(),
        s[j] == c,
        forall|k: int| i <= k < j ==> s[k] != c,
    ensures
        find_from(s, c, i) == Some(j),
    decreases j - i,
{
    if i < j {
        lemma_find_from_char(s, c, i + 1, j);
    }
}

pub proof fn lemma_find_from_none(s: Seq<char>, c: char, i: int)
    requires
        0 <= i,
        forall|k: int| i <= k < s.len() ==> s[k] != c,
    ensures
        find_from(s, c, i) is None,
    decreases s.len() - i,
{
    if i < s.len() {
        lemma_find_from_none(s, c, i + 1);
    }
}

pub proof fn lemma_count_char_append(a: Seq<char>, b: Seq<char>, c: char)
    ensures
        count_char(a + b, c) == count_char(a, c) + count_char(b, c),
    decreases b.len(),
{
    if b.len() == 0 {
        assert(a + b =~= a);
    } else {
        lemma_count_char_append(a, b.drop_last(), c);
        assert((a + b).drop_last() =~= a + b.drop_last());
    }
}

pub proof fn lemma_count_char_zero(s: Seq<char>, c: char)
    requires
        forall|k: int| 0 <= k < s.len() ==> s[k] != c,
    ensures
        count_char(s, c) == 0,
    decreases s.len(),
{
    if s.len() > 0 {
        lemma_count_char_zero(s.drop_last(), c);
    }
}

/// The characters of `s`.
pub(crate) fn str_to_chars(s: &str) -> (r: Vec<char>)
    ensures
        r@ == s@,
{
    broadcast use vstd::string::axiom_spec_iter;
    let mut out: Vec<char> = Vec::new();
    for c in it: s.chars()
        invariant
            out@ == it.seq().take(it.index() as int),
    {
        out.push(c);
    }
    out
}

/// The string whose characters are `v`.
#[verifier::external_body]
pub(crate) fn chars_to_string(v: &[char]) -> (r: String)
    ensures
        r@ == v@,
{
    v.iter().collect()
}

/// Exec counterpart of [`find_from`].
pub fn find_char_from(s: &Vec<char>, c: char, start: usize) -> (r: Option<usize>)
    ensures
        match r {
            Some(j) => find_from(s@, c, start as int) == Some(j as int),
            None => find_from(s@, c, start as int) is None,
        },
{
    let mut i: usize = start;
    while i < s.len()
        invariant
            start <= i,
            forall|k: int| start <= k < i && k < s@.len() ==> s@[k] != c,
        decreases s.len() - i,
    {
        if s[i] == c {
            proof {
                lemma_find_from_char(s@, c, start as int, i as int);
            }
            return Some(i);
        }
        i = i + 1;
    }
    proof {
        lemma_find_from_none(s@, c, start as int);
    }
    None
}

/// Copies `s[from..to]`.
pub fn sub_chars(s: &Vec<char>, from: usize, to: usize) -> (r: Vec<char>)
    requires
        from <= to <= s.len(),
    ensures
        r@ == s@.subrange(from as int, to as int),
{
    let mut r: Vec<char> = Vec::new();
    let mut i: usize = from;
    while i < to
        invariant
            from <= i <= to <= s.len(),
            r@ == s@.subrange(from as int, i as int),
        decreases to - i,
    {
        r.push(s[i]);
        i = i + 1;
    }
    r
}

/// Appends `b` to `a`.
pub fn append_chars(a: &mut Vec<char>, b: &Vec<char>)
    ensures
        final(a)@ == old(a)@ + b@,
{
    let mut i: usize = 0;
    while i < b.len()
        invariant
            0 <= i <= b.len(),
            a@ == old(a)@ + b@.subrange(0, i as int),
        decreases b.len() - i,
    {
        a.push(b[i]);
        i = i + 1;
    }
}

/// Whether `c` occurs in `s`.
pub fn contains_char(s: &Vec<char>, c: char) -> (r: bool)
    ensures
        r == has_char(s@, c),
{
    let mut i: usize = 0;
    while i < s.len()
        invariant
            0 <= i <= s.len(),
            forall|k: int| 0 <= k < i ==> s@[k] != c,
        decreases s.len() - i,
    {
        if s[i] == c {
            return true;
        }
        i = i + 1;
    }
    false
}

/// Whether two character sequences are equal.
pub fn chars_eq(a: &Vec<char>, b: &Vec<char>) -> (r: bool)
    ensures
        r == (a@ == b@),
{
    if a.len() != b.len() {
        return false;
    }
    let mut i: usize = 0;
    while i < a.len()
        invariant
            a.len() == b.len(),
            0 <= i <= a.len(),
            forall|k: int| 0 <= k < i ==> a@[k] == b@[k],
        decreases a.len() - i,
    {
        if a[i] != b[i] {
            return false;
        }
        i = i + 1;
    }
    assert(a@ =~= b@);
    true
}

/// Splits `s` at every `sep`.
pub fn split_chars(s: &Vec<char>, sep: char) -> (r: Vec<Vec<char>>)
    ensures
        r@.map_values(|v: Vec<char>| v@) == split_on(s@, sep),
{
    let mut pieces: Vec<Vec<char>> = Vec::new();
    let mut start: usize = 0;
    let mut i: usize = 0;
    let ghost full = s@;
    assert(s@.subrange(0, s@.len() as int) =~= s@);
    while i < s.len()
        invariant
            0 <= start <= i <= s.len(),
            full == s@,
            forall|k: int| start <= k < i ==> s@[k] != sep,
            pieces@.map_values(|v: Vec<char>| v@) + split_on(
                s@.subrange(start as int, s@.len() as int),
                sep,
            ) == split_on(s@, sep),
        decreases s.len() - i,
    {
        if s[i] == sep {
            let piece = sub_chars(s, start, i);
            let ghost rest = s@.subrange(start as int, s@.len() as int);
            proof {
                lemma_find_from_char(rest, sep, 0, (i - start) as int);
                assert(rest.subrange(0, (i - start) as int) =~= piece@);
                assert(rest.subrange((i - start) as int + 1, rest.len() as int) =~= s@.subrange(
                    i as int + 1,
                    s@.len() as int,
                ));
                assert(split_on(rest, sep) == seq![piece@] + split_on(
                    s@.subrange(i as int + 1, s@.len() as int),
                    sep,
                ));
            }
            let ghost old_pieces = pieces@.map_values(|v: Vec<char>| v@);
            pieces.push(piece);
            proof {
                assert(pieces@.map_values(|v: Vec<char>| v@) =~= old_pieces.push(piece@));
                assert(old_pieces.push(piece@) + split_on(
                    s@.subrange(i as int + 1, s@.len() as int),
                    sep,
                ) =~= old_pieces + (seq![piece@] + split_on(
                    s@.subrange(i as int + 1, s@.len() as int),
                    sep,
                )));
            }
            start = i + 1;
        }
        i = i + 1;
    }
    let piece = sub_chars(s, start, s.len());
    let ghost rest = s@.subrange(start as int, s@.len() as int);
    proof {
        lemma_find_from_none(rest, sep, 0);
        assert(rest =~= piece@);
    }
    let ghost old_pieces = pieces@.map_values(|v: Vec<char>| v@);
    pieces.push(piece);
    proof {
        assert(pieces@.map_values(|v: Vec<char>| v@) =~= old_pieces + seq![piece@]);
    }
    pieces
}

/// The character sequences that the vectors of `s` hold.
pub open spec fn char_views(s: Seq<Vec<char>>) -> Seq<Seq<char>> {
    s.map_values(|v: Vec<char>| v@)
}

/// The characters of an optional string.
pub open spec fn opt_view(o: Option<String>) -> Option<Seq<char>> {
    match o {
        Some(s) => Some(s@),
        None => None,
    }
}

/// Unicode `White_Space` characters, the ones `char::is_whitespace` accepts.
pub open spec fn is_ws(c: char) -> bool {
    let v = c as u32;
    (9 <= v <= 13) || v == 32 || v == 0x85 || v == 0xa0 || v == 0x1680 || (0x2000 <= v <= 0x200a)
        || v == 0x2028 || v == 0x2029 || v == 0x202f || v == 0x205f || v == 0x3000
}

/// Whether `c` is Unicode white space.
pub fn is_whitespace_char(c: char) -> (r: bool)
    ensures
        r == is_ws(c),
{
    let v = c as u32;
    (9 <= v && v <= 13) || v == 32 || v == 0x85 || v == 0xa0 || v == 0x1680 || (0x2000 <= v && v
        <= 0x200a) || v == 0x2028 || v == 0x2029 || v == 0x202f || v == 0x205f || v == 0x3000
}

/// `s` without leading characters that satisfy `p`.
pub open spec fn drop_leading(s: Seq<char>, p: spec_fn(char) -> bool) -> Seq<char>
    decreases s.len(),
{
    if s.len() > 0 && p(s[0]) {
        drop_leading(s.drop_first(), p)
    } else {
        s
    }
}

/// `s` without trailing characters that satisfy `p`.
pub open spec fn drop_trailing(s: Seq<char>, p: spec_fn(char) -> bool) -> Seq<char>
    decreases s.len(),
{
    if s.len() > 0 && p(s.last()) {
        drop_trailing(s.drop_last(), p)
    } else {
        s
    }
}

/// `s` without leading and trailing white space, as `str::trim` gives it.
pub open spec fn trim_ws(s: Seq<char>) -> Seq<char> {
    drop_trailing(drop_leading(s, |c: char| is_ws(c)), |c: char| is_ws(c))
}

/// Whether `s` begins with `p`.
pub open spec fn starts_with(s: Seq<char>, p: Seq<char>) -> bool {
    p.len() <= s.len() && s.subrange(0, p.len() as int) == p
}

/// Whether `s` ends with `p`.
pub open spec fn ends_with(s: Seq<char>, p: Seq<char>) -> bool {
    p.len() <= s.len() && s.subrange(s.len() - p.len(), s.len() as int) == p
}

pub proof fn lemma_drop_leading(s: Seq<char>, p: spec_fn(char) -> bool, k: int)
    requires
        0 <= k <= s.len(),
        forall|i: int| 0 <= i < k ==> p(#[trigger] s[i]),
        k == s.len() || !p(s[k]),
    ensures
        drop_leading(s, p) == s.subrange(k, s.len() as int),
    decreases k,
{
    if k == 0 {
        assert(s.subrange(0, s.len() as int) =~= s);
    } else {
        let t = s.drop_first();
        assert forall|i: int| 0 <= i < k - 1 implies p(#[trigger] t[i]) by {
            assert(t[i] == s[i + 1]);
        }
        lemma_drop_leading(t, p, k - 1);
        assert(t.subrange(k - 1, t.len() as int) =~= s.subrange(k, s.len() as int));
    }
}

pub proof fn lemma_drop_trailing(s: Seq<char>, p: spec_fn(char) -> bool, e: int)
    requires
        0 <= e <= s.len(),
        forall|i: int| e <= i < s.len() ==> p(#[trigger] s[i]),
        e == 0 || !p(s[e - 1]),
    ensures
        drop_trailing(s, p) == s.subrange(0, e),
    decreases s.len() - e,
{
    if e == s.len() {
        assert(s.subrange(0, e) =~= s);
    } else {
        let t = s.drop_last();
        lemma_drop_trailing(t, p, e);
        assert(t.subrange(0, e) =~= s.subrange(0, e));
    }
}

/// `s` without leading and trailing white space.
pub fn trim_chars(s: &Vec<char>) -> (r: Vec<char>)
    ensures
        r@ == trim_ws(s@),
{
    let ghost ws = |c: char| is_ws(c);
    let mut start: usize = 0;
    while start < s.len() && is_whitespace_char(s[start])
        invariant
            0 <= start <= s@.len(),
            forall|i: int| 0 <= i < start ==> is_ws(#[trigger] s@[i]),
        decreases s.len() - start,
    {
        start = start + 1;
    }
    proof {
        lemma_drop_leading(s@, ws, start as int);
    }
    let ghost t = s@.subrange(start as int, s@.len() as int);
    let mut end: usize = s.len();
    while end > start && is_whitespace_char(s[end - 1])
        invariant
            start <= end <= s@.len(),
            forall|i: int| end <= i < s@.len() ==> is_ws(#[trigger] s@[i]),
        decreases end - start,
    {
        end = end - 1;
    }
    proof {
        assert forall|i: int| end - start <= i < t.len() implies is_ws(#[trigger] t[i]) by {
            assert(t[i] == s@[i + start]);
        }
        lemma_drop_trailing(t, ws, end - start);
        assert(t.subrange(0, end - start) =~= s@.subrange(start as int, end as int));
    }
    sub_chars(s, start, end)
}

/// `s` without the characters `c` at its start.
pub fn trim_start_char(s: &Vec<char>, c: char) -> (r: Vec<char>)
    ensures
        r@ == drop_leading(s@, |x: char| x == c),
{
    let ghost is_c = |x: char| x == c;
    let mut start: usize = 0;
    while start < s.len() && s[start] == c
        invariant
            0 <= start <= s@.len(),
            forall|i: int| 0 <= i < start ==> #[trigger] s@[i] == c,
        decreases s.len() - start,
    {
        start = start + 1;
    }
    proof {
        lemma_drop_leading(s@, is_c, start as int);
    }
    sub_chars(s, start, s.len())
}

/// `s` without the characters `c` at its end.
pub fn trim_end_char(s: &Vec<char>, c: char) -> (r: Vec<char>)
    ensures
        r@ == drop_trailing(s@, |x: char| x == c),
{
    let ghost is_c = |x: char| x == c;
    let mut end: usize = s.len();
    while end > 0 && s[end - 1] == c
        invariant
            0 <= end <= s@.len(),
            forall|i: int| end <= i < s@.len() ==> #[trigger] s@[i] == c,
        decreases end,
    {
        end = end - 1;
    }
    proof {
        lemma_drop_trailing(s@, is_c, end as int);
    }
    sub_chars(s, 0, end)
}

/// Whether `s` begins with `p`.
pub fn starts_with_chars(s: &Vec<char>, p: &Vec<char>) -> (r: bool)
    ensures
        r == starts_with(s@, p@),
{
    if p.len() > s.len() {
        return false;
    }
    let mut i: usize = 0;
    while i < p.len()
        invariant
            p@.len() <= s@.len(),
            0 <= i <= p@.len(),
            forall|k: int| 0 <= k < i ==> s@[k] == p@[k],
        decreases p.len() - i,
    {
        if s[i] != p[i] {
            assert(s@.subrange(0, p@.len() as int)[i as int] != p@[i as int]);
            return false;
        }
        i = i + 1;
    }
    assert(s@.subrange(0, p@.len() as int) =~= p@);
    true
}

/// Whether `s` ends with `p`.
#[verifier::loop_isolation(false)]
pub fn ends_with_chars(s: &Vec<char>, p: &Vec<char>) -> (r: bool)
    ensures
        r == ends_with(s@, p@),
{
    if p.len() > s.len() {
        return false;
    }
    let off = s.len() - p.len();
    let mut i: usize = 0;
    while i < p.len()
        invariant
            p@.len() <= s@.len(),
            off == s@.len() - p@.len(),
            0 <= i <= p@.len(),
            forall|k: int| 0 <= k < i ==> s@[off + k] == p@[k],
        decreases p.len() - i,
    {
        if s[off + i] != p[i] {
            assert(s@.subrange(off as int, s@.len() as int)[i as int] != p@[i as int]);
            return false;
        }
        i = i + 1;
    }
    assert(s@.subrange(off as int, s@.len() as int) =~= p@);
    true
}

/// A line without the CR that ended it before its LF.
pub open spec fn strip_cr(l: Seq<char>) -> Seq<char> {
    if l.len() > 0 && l.last() == '\r' {
        l.drop_last()
    } else {
        l
    }
}

/// The lines of `s`, as `str::lines` yields them: split at LF, a CR before the LF
/// removed, and no empty line after a final LF.
pub open spec fn lines_of(s: Seq<char>) -> Seq<Seq<char>>
    decreases s.len(),
{
    if s.len() == 0 {
        seq![]
    } else {
        match find_from(s, '\n', 0) {
            Some(i) => {
                proof {
                    lemma_find_from_props(s, '\n', 0);
                }
                seq![strip_cr(s.subrange(0, i))] + lines_of(s.subrange(i + 1, s.len() as int))
            },
            None => seq![s],
        }
    }
}

/// The lines of `s`.
pub fn lines_exec(s: &Vec<char>) -> (r: Vec<Vec<char>>)
    ensures
        char_views(r@) == lines_of(s@),
{
    let mut out: Vec<Vec<char>> = Vec::new();
    let mut start: usize = 0;
    assert(s@.subrange(0, s@.len() as int) =~= s@);
    loop
        invariant
            0 <= start <= s@.len(),
            char_views(out@) + lines_of(s@.subrange(start as int, s@.len() as int)) == lines_of(
                s@,
            ),
        decreases s@.len() - start,
    {
        let ghost rest = s@.subrange(start as int, s@.len() as int);
        if start == s.len() {
            assert(char_views(out@) + lines_of(rest) =~= char_views(out@));
            return out;
        }
        match find_char_from(s, '\n', start) {
            Some(i) => {
                proof {
                    lemma_find_from_props(s@, '\n', start as int);
                    lemma_find_from_char(rest, '\n', 0, i - start);
                    assert(rest.subrange(0, i - start) =~= s@.subrange(start as int, i as int));
                    assert(rest.subrange(i - start + 1, rest.len() as int) =~= s@.subrange(
                        i + 1,
                        s@.len() as int,
                    ));
                }
                let mut end = i;
                if end > start && s[end - 1] == '\r' {
                    end = end - 1;
                    assert(s@.subrange(start as int, i as int).drop_last() =~= s@.subrange(
                        start as int,
                        end as int,
                    ));
                }
                let line = sub_chars(s, start, end);
                let ghost before = char_views(out@);
                out.push(line);
                proof {
                    assert(char_views(out@) =~= before.push(line@));
                    assert(before.push(line@) + lines_of(
                        s@.subrange(i + 1, s@.len() as int),
                    ) =~= before + (seq![line@] + lines_of(s@.subrange(i + 1, s@.len() as int))));
                }
                start = i + 1;
            },
            None => {
                proof {
                    lemma_find_from_props(s@, '\n', start as int);
                    lemma_find_from_none(rest, '\n', 0);
                }
                let line = sub_chars(s, start, s.len());
                let ghost before = char_views(out@);
                out.push(line);
                proof {
                    assert(char_views(out@) =~= before.push(line@));
                    assert(before + lines_of(rest) =~= before.push(line@));
                }
                return out;
            },
        }
    }
}

/// Parses a decimal number the way `str::parse::<u64>` does: an optional `+`,
/// then one or more ASCII digits, the value fitting in `u64`.
pub open spec fn u64_text(s: Seq<char>) -> Option<u64> {
    let d = unsigned_part(s);
    if d.len() == 0 || !all_ascii_digits(d) {
        None
    } else if decimal_value(d) > u64::MAX {
        None
    } else {
        Some(decimal_value(d) as u64)
    }
}

/// `s` without a leading `+`.
pub open spec fn unsigned_part(s: Seq<char>) -> Seq<char> {
    if s.len() > 0 && s[0] == '+' {
        s.drop_first()
    } else {
        s
    }
}

pub open spec fn all_ascii_digits(d: Seq<char>) -> bool {
    forall|i: int| 0 <= i < d.len() ==> is_ascii_digit(#[trigger] d[i])
}

pub open spec fn is_ascii_digit(c: char) -> bool {
    '0' <= c && c <= '9'
}

/// The value of the decimal digits `s`.
pub open spec fn decimal_value(s: Seq<char>) -> nat
    decreases s.len(),
{
    if s.len() == 0 {
        0
    } else {
        decimal_value(s.drop_last()) * 10 + ((s.last() as u32) - 48) as nat
    }
}

pub proof fn lemma_decimal_prefix(v: Seq<char>, j: int)
    requires
        0 <= j <= v.len(),
        forall|i: int| 0 <= i < v.len() ==> is_ascii_digit(#[trigger] v[i]),
    ensures
        decimal_value(v.subrange(0, j)) <= decimal_value(v),
    decreases v.len() - j,
{
    if j < v.len() {
        let w = v.drop_last();
        assert forall|i: int| 0 <= i < w.len() implies is_ascii_digit(#[trigger] w[i]) by {
            assert(w[i] == v[i]);
        }
        lemma_decimal_prefix(w, j);
        assert(w.subrange(0, j) =~= v.subrange(0, j));
    } else {
        assert(v.subrange(0, j) =~= v);
    }
}

/// Exec counterpart of [`u64_text`].
#[verifier::loop_isolation(false)]
pub fn parse_u64(s: &Vec<char>) -> (r: Option<u64>)
    ensures
        r == u64_text(s@),
{
    let start: usize = if s.len() > 0 && s[0] == '+' { 1 } else { 0 };
    let d = sub_chars(s, start, s.len());
    assert(start == 1 ==> d@ =~= s@.drop_first());
    assert(start == 0 ==> d@ =~= s@);
    if d.len() == 0 {
        return None;
    }
    let mut i: usize = 0;
    while i < d.len()
        invariant
            0 <= i <= d@.len(),
            forall|k: int| 0 <= k < i ==> is_ascii_digit(#[trigger] d@[k]),
        decreases d.len() - i,
    {
        if !('0' <= d[i] && d[i] <= '9') {
            assert(!is_ascii_digit(d@[i as int]));
            return None;
        }
        i = i + 1;
    }
    let mut value: u64 = 0;
    let mut j: usize = 0;
    while j < d.len()
        invariant
            0 <= j <= d@.len(),
            forall|k: int| 0 <= k < d@.len() ==> is_ascii_digit(#[trigger] d@[k]),
            value == decimal_value(d@.subrange(0, j as int)),
        decreases d.len() - j,
    {
        assert(d@.subrange(0, j + 1).drop_last() =~= d@.subrange(0, j as int));
        let digit = ((d[j] as u32) - 48) as u64;
        match value.checked_mul(10) {
            None => {
                proof {
                    lemma_decimal_prefix(d@, j + 1);
                }
                return None;
            },
            Some(scaled) => match scaled.checked_add(digit) {
                None => {
                    proof {
                        lemma_decimal_prefix(d@, j + 1);
                    }
                    return None;
                },
                Some(next) => {
                    value = next;
                },
            },
        }
        j = j + 1;
    }
    assert(d@.subrange(0, d@.len() as int) =~= d@);
    Some(value)
}


/// Whether `sub` occurs in `s` at position `i`.
pub open spec fn occurs_at(s: Seq<char>, sub: Seq<char>, i: int) -> bool {
    0 <= i && i + sub.len() <= s.len() && s.subrange(i, i + sub.len()) == sub
}

/// The first position at or after `i` where `sub` occurs in `s`.
pub open spec fn find_sub_from(s: Seq<char>, sub: Seq<char>, i: int) -> Option<int>
    decreases s.len() + 1 - i,
{
    if i < 0 || i + sub.len() > s.len() {
        None
    } else if occurs_at(s, sub, i) {
        Some(i)
    } else {
        find_sub_from(s, sub, i + 1)
    }
}

/// Whether `sub` occurs in `s`.
pub open spec fn contains_sub(s: Seq<char>, sub: Seq<char>) -> bool {
    find_sub_from(s, sub, 0) is Some
}

pub proof fn lemma_find_sub_props(s: Seq<char>, sub: Seq<char>, i: int)
    requires
        0 <= i,
    ensures
        match find_sub_from(s, sub, i) {
            Some(j) => i <= j && occurs_at(s, sub, j) && forall|k: int|
                i <= k < j ==> !#[trigger] occurs_at(s, sub, k),
            None => forall|k: int| i <= k ==> !#[trigger] occurs_at(s, sub, k),
        },
    decreases s.len() + 1 - i,
{
    if i + sub.len() <= s.len() && !occurs_at(s, sub, i) {
        lemma_find_sub_props(s, sub, i + 1);
    }
}

fn occurs_at_exec(s: &Vec<char>, sub: &Vec<char>, i: usize) -> (r: bool)
    requires
        i + sub@.len() <= s@.len(),
    ensures
        r == occurs_at(s@, sub@, i as int),
{
    let mut k: usize = 0;
    while k < sub.len()
        invariant
            i + sub@.len() <= s@.len(),
            0 <= k <= sub@.len(),
            forall|j: int| 0 <= j < k ==> s@[i + j] == sub@[j],
        decreases sub.len() - k,
    {
        assert(i + k < s.len());
        if s[i + k] != sub[k] {
            assert(s@.subrange(i as int, i + sub@.len())[k as int] != sub@[k as int]);
            return false;
        }
        k = k + 1;
    }
    assert(s@.subrange(i as int, i + sub@.len()) =~= sub@);
    true
}

/// Exec counterpart of [`find_sub_from`] from position 0.
pub fn find_sub(s: &Vec<char>, sub: &Vec<char>) -> (r: Option<usize>)
    ensures
        match r {
            Some(j) => find_sub_from(s@, sub@, 0) == Some(j as int),
            None => find_sub_from(s@, sub@, 0) is None,
        },
{
    if sub.len() > s.len() {
        return None;
    }
    let last = s.len() - sub.len();
    let mut i: usize = 0;
    loop
        invariant
            last + sub@.len() == s@.len(),
            0 <= i <= last,
            find_sub_from(s@, sub@, 0) == find_sub_from(s@, sub@, i as int),
        decreases last - i,
    {
        if occurs_at_exec(s, sub, i) {
            return Some(i);
        }
        if i == last {
            assert(find_sub_from(s@, sub@, i + 1) is None);
            return None;
        }
        i = i + 1;
    }
}

/// Whether `sub` occurs in `s`.
pub fn contains_text(s: &str, sub: &str) -> (r: bool)
    ensures
        r == contains_sub(s@, sub@),
{
    find_sub(&str_to_chars(s), &str_to_chars(sub)).is_some()
}

/// ASCII lower case of a character.
pub open spec fn lower_char(c: char) -> char {
    if 'A' <= c && c <= 'Z' {
        ((c as u32) + 32) as char
    } else {
        c
    }
}

/// ASCII lower case of a text, as `to_ascii_lowercase` gives it.
pub open spec fn lower_seq(s: Seq<char>) -> Seq<char> {
    s.map_values(|c: char| lower_char(c))
}

/// ASCII lower case of `s`.
pub fn lower_chars(s: &Vec<char>) -> (r: Vec<char>)
    ensures
        r@ == lower_seq(s@),
{
    let mut out: Vec<char> = Vec::new();
    let mut i: usize = 0;
    while i < s.len()
        invariant
            0 <= i <= s@.len(),
            out@ == lower_seq(s@).subrange(0, i as int),
        decreases s.len() - i,
    {
        let c = s[i];
        let l = if 'A' <= c && c <= 'Z' {
            let v = (c as u32) + 32;
            proof {
                vstd::utf8::char_u32_cast(c, c as u32);
            }
            char_from_ascii(v)
        } else {
            c
        };
        out.push(l);
        assert(out@ =~= lower_seq(s@).subrange(0, i + 1));
        i = i + 1;
    }
    out
}

/// The character with ASCII code `v`.
fn char_from_ascii(v: u32) -> (r: char)
    requires
        v < 128,
    ensures
        r == v as char,
{
    v as u8 as char
}


/// `s` with every occurrence of `pat` (searched left to right) replaced by `rep`.
pub open spec fn replace_seq(s: Seq<char>, pat: Seq<char>, rep: Seq<char>) -> Seq<char>
    decreases s.len(),
{
    if pat.len() == 0 {
        s
    } else {
        match find_sub_from(s, pat, 0) {
            None => s,
            Some(i) => {
                proof {
                    lemma_find_sub_props(s, pat, 0);
                }
                s.subrange(0, i) + rep + replace_seq(s.subrange(i + pat.len(), s.len() as int), pat, rep)
            },
        }
    }
}

/// Exec counterpart of [`replace_seq`].
pub fn replace_text(s: &str, pat: &str, rep: &str) -> (r: String)
    ensures
        r@ == replace_seq(s@, pat@, rep@),
{
    let p = str_to_chars(pat);
    let rp = str_to_chars(rep);
    let mut rest = str_to_chars(s);
    if p.len() == 0 {
        return s.to_owned();
    }
    let mut out: Vec<char> = Vec::new();
    loop
        invariant
            p@ == pat@,
            rp@ == rep@,
            p@.len() > 0,
            out@ + replace_seq(rest@, pat@, rep@) == replace_seq(s@, pat@, rep@),
        decreases rest@.len(),
    {
        match find_sub(&rest, &p) {
            None => {
                append_chars(&mut out, &rest);
                return chars_to_string(out.as_slice());
            },
            Some(i) => {
                proof {
                    lemma_find_sub_props(rest@, pat@, 0);
                }
                assert(i + p.len() <= rest.len());
                let head = sub_chars(&rest, 0, i);
                let tail = sub_chars(&rest, i + p.len(), rest.len());
                let ghost old_out = out@;
                append_chars(&mut out, &head);
                append_chars(&mut out, &rp);
                assert(out@ + replace_seq(tail@, pat@, rep@) =~= old_out + replace_seq(
                    rest@,
                    pat@,
                    rep@,
                ));
                rest = tail;
            },
        }
    }
}


} // verus!
