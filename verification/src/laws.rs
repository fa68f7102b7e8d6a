//! Properties that relate several operations of the library.
use vstd::prelude::*;
use crate::braces::{
    brace_preorder, brace_stop, capped_expansion, leaves, lemma_leaves_take_succ,
    MAX_BRACE_EXPANSIONS,
};
use crate::cache::{CacheKey, LocatorCache};
use crate::framing::{
    find_byte, frame_outcome, header_scan, header_step, lemma_find_byte, lemma_find_byte_at,
    strip_line_ending, FrameOutcome, HeaderOutcome, HeaderStep, MAX_HEADER_BYTES,
};
use crate::glob::{
    add_unique, bounded_expansion, bounded_rounds, round_expands, run_round, run_variants,
    visit_pattern,
};
use crate::braces::{brace_children, brace_group, MAX_BRACE_EXPANSION_STEPS};
use crate::output::{encoded_frame, global_step, law_built_frame_reads_back, output_step, GlobalState, OutputState};
use crate::framing::{frame_of, MAX_PAYLOAD_BYTES};
use crate::server::{
    envelope_from_fields, has_method, route_message, Envelope, EnvelopeFields, MemberValue,
    ParamsField, RequestId, Route,
};
use crate::walk::{expand_glob_pattern, flatten_chunks, searched, GlobSearch};
use crate::glob::{has_glob_meta, is_glob};
use crate::poetry::environment_locations::{listed_environments, parse_environments, strip_activated, strip_activated_exec};
use crate::pipenv::get_pipenv_project_from_prefix;
use crate::env_var_path::{global_venv_search, list_global_virtual_envs_paths, listed_in};
use crate::os_environment::{answered_exists, answered_is_dir, answered_listing, answered_text, FileSystem, Platform};
use crate::paths::{join, string_views};
use crate::text::{ends_with, trim_ws};

verus! {

proof fn lemma_stop_bound(p: Seq<Seq<char>>, n: int)
    requires
        0 <= n <= p.len(),
        leaves(p.take(n)).len() <= MAX_BRACE_EXPANSIONS,
    ensures
        leaves(p.take(brace_stop(p, n))).len() <= MAX_BRACE_EXPANSIONS,
    decreases p.len() - n,
{
    if !(n >= p.len() || n >= crate::braces::MAX_BRACE_EXPANSION_STEPS || leaves(p.take(n)).len()
        >= MAX_BRACE_EXPANSIONS) {
        lemma_leaves_take_succ(p, n);
        lemma_stop_bound(p, n + 1);
    }
}

/// Brace expansion never gives more than 1024 patterns, however many brace
/// groups the pattern has.
pub proof fn law_brace_expansion_is_capped(pattern: Seq<char>)
    ensures
        capped_expansion(pattern).len() <= MAX_BRACE_EXPANSIONS,
{
    let p = brace_preorder(pattern);
    assert(p.take(0) =~= Seq::<Seq<char>>::empty());
    lemma_stop_bound(p, 0);
}

/// What a read of the cache gives back after a write: the value just written
/// under its key, and for every other key what the cache held before.
pub proof fn law_cache_read_after_write<K: CacheKey, V: Clone>(
    before: LocatorCache<K, V>,
    after: LocatorCache<K, V>,
    key: K,
    value: V,
)
    requires
        after.view() == before.view().insert(key@, value),
    ensures
        after.view().contains_key(key@),
        after.view()[key@] == value,
        forall|other: K::V|
            other != key@ ==> (#[trigger] after.view().contains_key(other) == before.view().contains_key(
                other,
            )) && (before.view().contains_key(other) ==> after.view()[other] == before.view()[other]),
{
}

proof fn lemma_scan_extends(s: Seq<u8>, rest: Seq<u8>, hb: nat, cl: Option<usize>)
    requires
        header_scan(s, hb, cl) is Done,
    ensures
        header_scan(s + rest, hb, cl) == header_scan(s, hb, cl),
        header_scan(s, hb, cl) matches HeaderOutcome::Done(_, h) && h <= hb + s.len(),
    decreases s.len(),
{
    lemma_find_byte(s, 10, 0);
    let t = s + rest;
    match find_byte(s, 10, 0) {
        None => {},
        Some(i) => {
            assert(t[i] == 10u8);
            assert forall|k: int| 0 <= k < i implies t[k] != 10u8 by {
                assert(t[k] == s[k]);
            }
            lemma_find_byte_at(t, 10, 0, i);
            assert(t.subrange(0, i + 1) =~= s.subrange(0, i + 1));
            let limit = MAX_HEADER_BYTES - hb;
            if i + 1 <= limit {
                match header_step(strip_line_ending(s.subrange(0, i + 1)), cl) {
                    HeaderStep::Continue(c2) => {
                        let s2 = s.subrange(i + 1, s.len() as int);
                        assert(t.subrange(i + 1, t.len() as int) =~= s2 + rest);
                        lemma_scan_extends(s2, rest, (hb + i + 1) as nat, c2);
                    },
                    _ => {},
                }
            }
        },
    }
}

/// Reading a frame looks at no byte after the frame: whatever follows a frame in
/// the stream, the same frame is read, taking up the same bytes, so one read
/// never consumes part of the next frame.
pub proof fn law_frame_ignores_what_follows(s: Seq<u8>, rest: Seq<u8>)
    requires
        frame_outcome(s) is Frame,
    ensures
        frame_outcome(s + rest) == frame_outcome(s),
        frame_outcome(s) matches FrameOutcome::Frame(_, n) && n <= s.len(),
{
    lemma_scan_extends(s, rest, 0, None);
    match header_scan(s, 0, None) {
        HeaderOutcome::Done(cl, n) => {
            match cl {
                Some(len) => {
                    assert((s + rest).subrange(n as int, n + len) =~= s.subrange(n as int, n + len));
                },
                None => {},
            }
        },
        _ => {},
    }
}

proof fn lemma_add_unique_ok(next: Seq<Seq<char>>, v: Seq<char>, limit: usize)
    requires
        next.no_duplicates(),
        next.len() <= limit,
    ensures
        add_unique(next, v, limit) matches Ok(n2) ==> n2.no_duplicates() && n2.len() <= limit,
{
    if !next.contains(v) && next.len() < limit {
        let n2 = next.push(v);
        assert forall|a: int, b: int| 0 <= a < n2.len() && 0 <= b < n2.len() && a != b implies n2[a] != n2[b] by {
            if a < next.len() && b < next.len() {
            } else if a == next.len() {
                assert(n2[b] == next[b]);
            } else {
                assert(n2[a] == next[a]);
            }
        }
    }
}

proof fn lemma_run_variants_ok(vs: Seq<Seq<char>>, next: Seq<Seq<char>>, steps: nat, limit: usize)
    requires
        next.no_duplicates(),
        next.len() <= limit,
    ensures
        run_variants(vs, next, steps, limit) matches Ok((n2, _)) ==> n2.no_duplicates() && n2.len() <= limit,
    decreases vs.len(),
{
    if vs.len() > 0 && steps < MAX_BRACE_EXPANSION_STEPS {
        lemma_add_unique_ok(next, vs[0], limit);
        match add_unique(next, vs[0], limit) {
            Ok(n2) => {
                lemma_run_variants_ok(vs.drop_first(), n2, steps + 1, limit);
            },
            Err(_) => {},
        }
    }
}

proof fn lemma_run_round_ok(pending: Seq<Seq<char>>, next: Seq<Seq<char>>, steps: nat, limit: usize)
    requires
        next.no_duplicates(),
        next.len() <= limit,
    ensures
        run_round(pending, next, steps, limit) matches Ok((n2, _)) ==> n2.no_duplicates() && n2.len()
            <= limit,
    decreases pending.len(),
{
    if pending.len() > 0 {
        let p = pending[0];
        if steps < MAX_BRACE_EXPANSION_STEPS {
            if brace_group(p) is Some {
                lemma_run_variants_ok(brace_children(p), next, steps + 1, limit);
            } else {
                lemma_add_unique_ok(next, p, limit);
            }
        }
        match visit_pattern(p, next, steps, limit) {
            Ok((n2, s2)) => {
                lemma_run_round_ok(pending.drop_first(), n2, s2, limit);
            },
            Err(_) => {},
        }
    }
}

proof fn lemma_rounds_ok(pending: Seq<Seq<char>>, steps: nat, limit: usize)
    ensures
        bounded_rounds(pending, steps, limit) matches Ok(s) ==> s.no_duplicates() && s.len() <= limit,
    decreases MAX_BRACE_EXPANSION_STEPS - steps,
{
    lemma_run_round_ok(pending, seq![], steps, limit);
    match run_round(pending, seq![], steps, limit) {
        Ok((next, s2)) => {
            if round_expands(pending) && !(s2 <= steps || s2 > MAX_BRACE_EXPANSION_STEPS) {
                lemma_rounds_ok(next, s2, limit);
            }
        },
        Err(_) => {},
    }
}

/// Bounded brace expansion gives distinct patterns, never more than the limit.
pub proof fn law_bounded_expansion_distinct_within_limit(pattern: Seq<char>, limit: usize)
    ensures
        bounded_expansion(pattern, limit) matches Ok(s) ==> s.no_duplicates() && s.len() <= limit,
{
    lemma_rounds_ok(seq![pattern], 0, limit);
}

/// Over any run of operations on the output (each keeping [`output_step`]), the
/// first fatal error, once recorded, is the one reported at every later state,
/// with its kind: later failures never replace it. Output that stopped taking
/// frames, by a failure or by shutdown, never takes one again and has nothing
/// waiting.
pub proof fn law_output_first_error_and_closing_stick(run: Seq<OutputState>)
    requires
        run.len() > 0,
        forall|i: int| 0 <= i < run.len() - 1 ==> output_step(#[trigger] run[i], run[i + 1]),
    ensures
        run[0].first_error() is Some ==> forall|j: int|
            0 <= j < run.len() ==> (#[trigger] run[j]).first_error() == run[0].first_error()
                && run[j].first_error_kind() == run[0].first_error_kind(),
        !run[0].is_open() ==> forall|j: int|
            0 < j < run.len() ==> !(#[trigger] run[j]).is_open() && run[j].pending()
                == Seq::<Seq<u8>>::empty(),
    decreases run.len(),
{
    if run.len() > 1 {
        let shorter = run.drop_last();
        assert forall|i: int| 0 <= i < shorter.len() - 1 implies output_step(
            #[trigger] shorter[i],
            shorter[i + 1],
        ) by {
            assert(output_step(run[i], run[i + 1]));
        }
        law_output_first_error_and_closing_stick(shorter);
        let last = run.len() - 1;
        assert(output_step(run[last - 1], run[last]));
        assert(shorter[0] == run[0]);
        assert forall|j: int| 0 <= j < run.len() - 1 implies #[trigger] run[j] == shorter[j] by {}
    }
}

/// Over any run of operations on the process-wide output (each keeping
/// [`global_step`]): after shutdown every later state is shut down, so every
/// later initialization is refused and makes nothing; a failure to make output is
/// the one kept at every later state, so it is repeated without a new attempt;
/// and output once made is the same at every later state, so it is made once.
pub proof fn law_global_output_sticks<O>(run: Seq<GlobalState<O>>)
    requires
        run.len() > 0,
        forall|i: int| 0 <= i < run.len() - 1 ==> global_step(#[trigger] run[i], run[i + 1]),
    ensures
        run[0].shutdown ==> forall|j: int| 0 <= j < run.len() ==> (#[trigger] run[j]).shutdown,
        run[0].initialization_error is Some ==> forall|j: int|
            0 <= j < run.len() ==> (#[trigger] run[j]).initialization_error
                == run[0].initialization_error,
        run[0].output is Some ==> forall|j: int|
            0 <= j < run.len() ==> (#[trigger] run[j]).output == run[0].output,
    decreases run.len(),
{
    if run.len() > 1 {
        let shorter = run.drop_last();
        assert forall|i: int| 0 <= i < shorter.len() - 1 implies global_step(
            #[trigger] shorter[i],
            shorter[i + 1],
        ) by {
            assert(global_step(run[i], run[i + 1]));
        }
        law_global_output_sticks(shorter);
        let last = run.len() - 1;
        assert(global_step(run[last - 1], run[last]));
        assert(shorter[0] == run[0]);
        assert forall|j: int| 0 <= j < run.len() - 1 implies #[trigger] run[j] == shorter[j] by {}
    }
}

/// What the output side writes for a payload is, in the terms of the reader's
/// contract, a frame of exactly that payload whatever follows it in the stream.
pub proof fn law_written_frame_is_read_as_its_payload(payload: Seq<u8>)
    requires
        payload.len() <= MAX_PAYLOAD_BYTES,
    ensures
        frame_of(encoded_frame(payload), payload),
{
    reveal(frame_of);
    assert forall|rest: Seq<u8>| #[trigger] crate::framing::frame_outcome(encoded_frame(payload) + rest)
        == crate::framing::FrameOutcome::Frame(payload, encoded_frame(payload).len()) by {
        law_built_frame_reads_back(payload, rest);
    }
}

/// A `params` member that is a JSON object or array is a container: a message
/// read with one hands its params on; a scalar is refused as params.
pub proof fn law_object_and_array_params_are_containers(f: EnvelopeFields, e: Envelope)
    requires
        call_ensures(envelope_from_fields, (f,), e),
    ensures
        f.params is Object ==> e.params == ParamsField::Container,
        f.params is Array ==> e.params == ParamsField::Container,
        f.params is Text || f.params is Number || f.params is Boolean ==> e.params
            == ParamsField::Other,
{
}

/// A well-formed request (version `2.0`, a numeric id) for a registered method
/// with object params reaches its handler, with the params given.
pub proof fn law_request_with_object_params_reaches_its_handler(
    f: EnvelopeFields,
    e: Envelope,
    requests: Vec<String>,
    notifications: Vec<String>,
    route: Route,
)
    requires
        call_ensures(envelope_from_fields, (f,), e),
        call_ensures(route_message, (Some(e), &requests, &notifications), route),
        f.jsonrpc matches MemberValue::Text(v) && v@ == "2.0"@,
        f.id is Number,
        f.method matches MemberValue::Text(m) && has_method(requests@, m@),
        f.params is Object,
    ensures
        route matches Route::Request { method, id, params_given } && params_given && method@
            == f.method->Text_0@ && id == RequestId::Number(f.id->Number_0),
{
}

/// For a pattern with glob metacharacters, the part of the expansion that comes
/// from each brace variant with metacharacters is exactly a list that the search
/// gave for that variant, all of it and in its order; a variant without them
/// gives itself.
pub proof fn law_glob_matches_are_kept_whole<G: GlobSearch>(search: &G, pattern: &str, r: Vec<String>)
    requires
        call_ensures(expand_glob_pattern::<G>, (search, pattern), r),
        is_glob(pattern@),
    ensures
        exists|chunks: Seq<Seq<Seq<char>>>|
            #![trigger flatten_chunks(chunks)]
            chunks.len() == capped_expansion(pattern@).len() && flatten_chunks(chunks) == string_views(r@)
                && forall|j: int|
                0 <= j < chunks.len() ==> if has_glob_meta(capped_expansion(pattern@)[j]) {
                    searched(search, capped_expansion(pattern@)[j], #[trigger] chunks[j])
                } else {
                    chunks[j] == seq![capped_expansion(pattern@)[j]]
                },
{
    let chunks = choose|chunks: Seq<Seq<Seq<char>>>|
        #[trigger] crate::walk::variant_chunks(capped_expansion(pattern@), chunks, string_views(r@))
            && forall|j: int|
            0 <= j < chunks.len() && has_glob_meta(capped_expansion(pattern@)[j]) ==> searched(
                search,
                capped_expansion(pattern@)[j],
                #[trigger] chunks[j],
            );
    assert(flatten_chunks(chunks) == string_views(r@));
}

/// A line of `poetry env list` that ends in the ` (Activated)` marker, exactly
/// as Poetry prints it, is read as the path before the marker.
pub proof fn law_activated_marker_is_dropped(l: Vec<char>, r: Vec<char>, path: Seq<char>)
    requires
        call_ensures(strip_activated_exec, (&l,), r),
        l@ == path + " (Activated)"@,
        !ends_with(path, " (Activated)"@),
    ensures
        r@ == path,
{
}

/// A Pipenv environment's project is read from `<prefix>/.project`: a folder
/// comes back only when the file system said that file exists, gave its text,
/// and said the trimmed text exists as a folder; nothing comes back only when it
/// said the file is missing or unreadable, or the folder is missing.
pub proof fn law_pipenv_project_comes_from_dot_project<F: FileSystem>(fs: &F, prefix: &str, r: Option<String>)
    requires
        call_ensures(get_pipenv_project_from_prefix::<F>, (fs, prefix), r),
    ensures
        r matches Some(f) ==> {
            &&& answered_exists(fs, join(prefix@, ".project"@), true)
            &&& exists|t: Seq<char>|
                #[trigger] answered_text(fs, join(prefix@, ".project"@), Some(t)) && f@ == trim_ws(t)
            &&& answered_exists(fs, f@, true)
        },
        r is None ==> {
            ||| answered_exists(fs, join(prefix@, ".project"@), false)
            ||| answered_text(fs, join(prefix@, ".project"@), None)
            ||| exists|t: Seq<char>|
                #[trigger] answered_text(fs, join(prefix@, ".project"@), Some(t)) && answered_exists(
                    fs,
                    trim_ws(t),
                    false,
                )
        },
{
}

/// Every global virtual environment found is an entry of the listing of an
/// existing global virtualenv folder, and was answered as not being a conda
/// environment (no `conda-meta` folder); and every entry of those listings is
/// found unless it was answered as a conda environment.
pub proof fn law_global_venvs_are_the_non_conda_entries<F: FileSystem>(
    fs: &F,
    work_on_home: Option<String>,
    user_home: Option<String>,
    platform: Platform,
    r: Vec<String>,
)
    requires
        call_ensures(
            list_global_virtual_envs_paths::<F>,
            (fs, work_on_home, user_home, platform),
            r,
        ),
    ensures
        forall|k: int|
            0 <= k < r@.len() ==> answered_is_dir(fs, join((#[trigger] r@[k])@, "conda-meta"@), false),
        exists|roots: Seq<Seq<char>>, listings: Seq<Seq<Seq<char>>>|
            #![trigger crate::env_var_path::non_conda_entries(fs, roots, listings, string_views(r@))]
            {
                &&& crate::env_var_path::non_conda_entries(fs, roots, listings, string_views(r@))
                &&& listings.len() == roots.len()
                &&& forall|i: int|
                    0 <= i < roots.len() ==> answered_exists(fs, #[trigger] roots[i], true)
                        && global_venv_search(work_on_home, user_home, platform).contains(roots[i])
                        && answered_listing(fs, roots[i], listings[i])
                &&& forall|j: int|
                    0 <= j < global_venv_search(work_on_home, user_home, platform).len() ==> roots.contains(
                        #[trigger] global_venv_search(work_on_home, user_home, platform)[j],
                    ) || answered_exists(fs, global_venv_search(work_on_home, user_home, platform)[j], false)
                &&& forall|k: int| 0 <= k < r@.len() ==> listed_in(listings, (#[trigger] r@[k])@)
            },
{
    let (roots, listings) = choose|roots: Seq<Seq<char>>, listings: Seq<Seq<Seq<char>>>|
        crate::env_var_path::venv_roots_found(fs, global_venv_search(work_on_home, user_home, platform), roots)
            && #[trigger] crate::env_var_path::non_conda_entries(fs, roots, listings, string_views(r@));
    assert forall|k: int| 0 <= k < r@.len() implies answered_is_dir(
        fs,
        join((#[trigger] r@[k])@, "conda-meta"@),
        false,
    ) by {
        assert(string_views(r@)[k] == r@[k]@);
    }
    assert forall|k: int| 0 <= k < r@.len() implies listed_in(listings, (#[trigger] r@[k])@) by {
        assert(string_views(r@)[k] == r@[k]@);
    }
}

/// `s`, with no white space at either end, is kept whole by trimming.
proof fn lemma_trim_keeps(s: Seq<char>)
    requires
        s.len() > 0,
        !crate::text::is_ws(s[0]),
        !crate::text::is_ws(s.last()),
    ensures
        trim_ws(s) == s,
{
    crate::text::lemma_drop_leading(s, |c: char| crate::text::is_ws(c), 0);
    assert(s.subrange(0, s.len() as int) =~= s);
    crate::text::lemma_drop_trailing(s, |c: char| crate::text::is_ws(c), s.len() as int);
}

/// The output of `poetry env list --full-path` made of one line `<path>
/// (Activated)` (the marker exactly as Poetry prints it, the path neither
/// empty nor padded) is read as that path alone, the marker removed.
pub proof fn law_activated_line_is_read_as_its_path(output: &str, r: Vec<String>, path: Seq<char>)
    requires
        call_ensures(parse_environments, (output,), r),
        output@ == path + " (Activated)"@,
        path.len() > 0,
        !crate::text::is_ws(path[0]),
        !crate::text::is_ws(path.last()),
        forall|k: int| 0 <= k < path.len() ==> path[k] != '\n',
        !ends_with(path, " (Activated)"@),
    ensures
        string_views(r@) == seq![path],
{
    reveal_strlit(" (Activated)");
    let s = output@;
    assert forall|k: int| 0 <= k < s.len() implies s[k] != '\n' by {
        if k < path.len() {
            assert(s[k] == path[k]);
        } else {
            assert(s[k] == " (Activated)"@[k - path.len()]);
        }
    }
    crate::text::lemma_find_from_none(s, '\n', 0);
    assert(crate::text::lines_of(s) == seq![s]);
    assert(s[0] == path[0]);
    assert(s.last() == ')');
    lemma_trim_keeps(s);
    assert(crate::text::ends_with(s, " (Activated)"@)) by {
        assert(s.subrange(s.len() - 12, s.len() as int) =~= " (Activated)"@);
    }
    assert(s.subrange(0, s.len() - 12) =~= path);
    assert(strip_activated(path) == path);
    assert(strip_activated(s) == path);
    lemma_trim_keeps(path);
    let mapped = seq![s].map_values(|l: Seq<char>| trim_ws(strip_activated(trim_ws(l))));
    assert(mapped =~= seq![path]);
    reveal(Seq::filter);
    assert(seq![path].filter(|l: Seq<char>| l.len() > 0) =~= seq![path]) by {
        assert(seq![path].drop_last() =~= Seq::<Seq<char>>::empty());
        assert(Seq::<Seq<char>>::empty().filter(|l: Seq<char>| l.len() > 0) =~= Seq::<Seq<char>>::empty());
    }
    assert(listed_environments(s) == seq![path]);
}

} // verus!
