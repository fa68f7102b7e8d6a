//! Content-Length framing of JSON-RPC messages.
//!
//! A frame is a block of header lines (each ended by LF or CRLF), a blank line,
//! and exactly `Content-Length` payload bytes.
use vstd::prelude::*;
use std::io::{BufRead, Read};
use crate::io_errors::{io_kind, new_io_error, IoKind};
use crate::text::{chars_to_string, str_to_chars};

verus! {

/// Most raw bytes in a frame's headers, line endings and the blank line included.
pub const MAX_HEADER_BYTES: usize = 8192;

/// Most payload bytes a frame may announce.
pub const MAX_PAYLOAD_BYTES: usize = 16777216;

/// Why a byte stream is not a well-formed frame.
#[derive(Debug, Clone, Copy, PartialEq, Eq, Structural)]
pub enum FrameError {
    /// The headers do not fit in [`MAX_HEADER_BYTES`].
    HeadersTooLong,
    /// The stream ended inside the headers.
    EofInHeaders,
    /// A header line has no colon.
    MalformedHeader,
    /// A header name is empty or holds a byte that is not a token byte.
    MalformedHeaderName,
    /// A header value holds a control byte.
    MalformedHeaderValue,
    /// `Content-Length` occurs twice.
    DuplicateContentLength,
    /// No `Content-Length` header.
    MissingContentLength,
    /// `Content-Length` is not a non-negative decimal integer.
    InvalidContentLength,
    /// `Content-Length` does not fit in `usize`.
    ContentLengthOverflow,
    /// `Content-Length` exceeds [`MAX_PAYLOAD_BYTES`].
    PayloadTooLarge,
    /// The stream ended inside the payload.
    EofInPayload,
}

/// The text of each framing error.
pub open spec fn frame_error_text(e: FrameError) -> Seq<char> {
    match e {
        FrameError::HeadersTooLong => "frame headers exceed the byte limit"@,
        FrameError::EofInHeaders => "EOF while reading frame headers"@,
        FrameError::MalformedHeader => "malformed header"@,
        FrameError::MalformedHeaderName => "malformed header name"@,
        FrameError::MalformedHeaderValue => "malformed header value"@,
        FrameError::DuplicateContentLength => "duplicate Content-Length header"@,
        FrameError::MissingContentLength => "missing Content-Length header"@,
        FrameError::InvalidContentLength => "Content-Length must be a non-negative decimal integer"@,
        FrameError::ContentLengthOverflow => "Content-Length overflows usize"@,
        FrameError::PayloadTooLarge => "frame payload exceeds the byte limit"@,
        FrameError::EofInPayload => "EOF while reading frame payload"@,
    }
}

impl FrameError {
    /// The message that describes the error.
    pub fn message(&self) -> (r: &'static str)
        ensures
            r@ == frame_error_text(*self),
    {
        match self {
            FrameError::HeadersTooLong => "frame headers exceed the byte limit",
            FrameError::EofInHeaders => "EOF while reading frame headers",
            FrameError::MalformedHeader => "malformed header",
            FrameError::MalformedHeaderName => "malformed header name",
            FrameError::MalformedHeaderValue => "malformed header value",
            FrameError::DuplicateContentLength => "duplicate Content-Length header",
            FrameError::MissingContentLength => "missing Content-Length header",
            FrameError::InvalidContentLength => "Content-Length must be a non-negative decimal integer",
            FrameError::ContentLengthOverflow => "Content-Length overflows usize",
            FrameError::PayloadTooLarge => "frame payload exceeds the byte limit",
            FrameError::EofInPayload => "EOF while reading frame payload",
        }
    }
}

/// First position at or after `i` where `s` holds `b`.
pub open spec fn find_byte(s: Seq<u8>, b: u8, i: int) -> Option<int>
    decreases s.len() - i,
{
    if i < 0 || i >= s.len() {
        None
    } else if s[i] == b {
        Some(i)
    } else {
        find_byte(s, b, i + 1)
    }
}

pub proof fn lemma_find_byte(s: Seq<u8>, b: u8, i: int)
    requires
        0 <= i,
    ensures
        match find_byte(s, b, i) {
            Some(j) => i <= j < s.len() && s[j] == b && forall|k: int| i <= k < j ==> s[k] != b,
            None => forall|k: int| i <= k < s.len() ==> s[k] != b,
        },
    decreases s.len() - i,
{
    if i < s.len() && s[i] != b {
        lemma_find_byte(s, b, i + 1);
    }
}

pub proof fn lemma_find_byte_at(s: Seq<u8>, b: u8, i: int, j: int)
    requires
        0 <= i <= j < s.len(),
        s[j] == b,
        forall|k: int| i <= k < j ==> s[k] != b,
    ensures
        find_byte(s, b, i) == Some(j),
    decreases j - i,
{
    if i < j {
        lemma_find_byte_at(s, b, i + 1, j);
    }
}

pub proof fn lemma_find_byte_none(s: Seq<u8>, b: u8, i: int)
    requires
        0 <= i,
        forall|k: int| i <= k < s.len() ==> s[k] != b,
    ensures
        find_byte(s, b, i) is None,
    decreases s.len() - i,
{
    if i < s.len() {
        lemma_find_byte_none(s, b, i + 1);
    }
}

/// Bytes allowed in a header name (RFC 7230 token characters).
pub open spec fn is_name_byte(b: u8) -> bool {
    (48 <= b <= 57) || (65 <= b <= 90) || (97 <= b <= 122) || b == 33 || b == 35 || b == 36
        || b == 37 || b == 38 || b == 39 || b == 42 || b == 43 || b == 45 || b == 46 || b == 94
        || b == 95 || b == 96 || b == 124 || b == 126
}

/// Bytes allowed in a header value: tab and visible ASCII.
pub open spec fn is_value_byte(b: u8) -> bool {
    b == 9 || (32 <= b <= 126)
}

pub open spec fn is_blank(b: u8) -> bool {
    b == 32 || b == 9
}

pub open spec fn is_digit(b: u8) -> bool {
    48 <= b <= 57
}

pub open spec fn ascii_lower(b: u8) -> int {
    if 65 <= b <= 90 {
        b + 32
    } else {
        b as int
    }
}

/// ASCII case-insensitive equality.
pub open spec fn eq_ignore_case(a: Seq<u8>, b: Seq<u8>) -> bool {
    a.len() == b.len() && forall|i: int| 0 <= i < a.len() ==> ascii_lower(a[i]) == ascii_lower(b[i])
}

/// `content-length`.
pub open spec fn content_length_name() -> Seq<u8> {
    seq![99u8, 111, 110, 116, 101, 110, 116, 45, 108, 101, 110, 103, 116, 104]
}

/// `s` without its leading spaces and tabs.
pub open spec fn trim_start(s: Seq<u8>) -> Seq<u8>
    decreases s.len(),
{
    if s.len() > 0 && is_blank(s[0]) {
        trim_start(s.drop_first())
    } else {
        s
    }
}

/// `s` without its trailing spaces and tabs.
pub open spec fn trim_end(s: Seq<u8>) -> Seq<u8>
    decreases s.len(),
{
    if s.len() > 0 && is_blank(s.last()) {
        trim_end(s.drop_last())
    } else {
        s
    }
}

pub open spec fn trim(s: Seq<u8>) -> Seq<u8> {
    trim_end(trim_start(s))
}

/// The number that the decimal digits `s` write.
pub open spec fn digits_value(s: Seq<u8>) -> nat
    decreases s.len(),
{
    if s.len() == 0 {
        0
    } else {
        digits_value(s.drop_last()) * 10 + (s.last() - 48) as nat
    }
}

/// The value of a (trimmed) `Content-Length` header.
pub open spec fn content_length_value(v: Seq<u8>) -> Result<usize, FrameError> {
    if v.len() == 0 || !(forall|i: int| 0 <= i < v.len() ==> is_digit(#[trigger] v[i])) {
        Err(FrameError::InvalidContentLength)
    } else if digits_value(v) > usize::MAX {
        Err(FrameError::ContentLengthOverflow)
    } else {
        Ok(digits_value(v) as usize)
    }
}

/// What one header line (its line ending removed) does to the scan.
#[derive(Debug, Clone, Copy, PartialEq, Eq, Structural)]
pub enum HeaderStep {
    /// The blank line that ends the headers.
    End,
    /// A header; the content length known after it.
    Continue(Option<usize>),
    /// The line is rejected.
    Fail(FrameError),
}

/// The header line `h`, read while the content length known so far is `cl`.
pub open spec fn header_step(h: Seq<u8>, cl: Option<usize>) -> HeaderStep {
    if h.len() == 0 {
        HeaderStep::End
    } else {
        match find_byte(h, 58, 0) {
            None => HeaderStep::Fail(FrameError::MalformedHeader),
            Some(c) => {
                let name = h.subrange(0, c);
                let value = h.subrange(c + 1, h.len() as int);
                if name.len() == 0 || !(forall|i: int|
                    0 <= i < name.len() ==> is_name_byte(#[trigger] name[i])) {
                    HeaderStep::Fail(FrameError::MalformedHeaderName)
                } else if !(forall|i: int| 0 <= i < value.len() ==> is_value_byte(#[trigger] value[i])) {
                    HeaderStep::Fail(FrameError::MalformedHeaderValue)
                } else if eq_ignore_case(name, content_length_name()) {
                    if cl is Some {
                        HeaderStep::Fail(FrameError::DuplicateContentLength)
                    } else {
                        match content_length_value(trim(value)) {
                            Ok(n) => HeaderStep::Continue(Some(n)),
                            Err(e) => HeaderStep::Fail(e),
                        }
                    }
                } else {
                    HeaderStep::Continue(cl)
                }
            },
        }
    }
}

/// A line that ends in LF, without its LF or CRLF.
pub open spec fn strip_line_ending(line: Seq<u8>) -> Seq<u8> {
    let s = line.drop_last();
    if s.len() > 0 && s.last() == 13 {
        s.drop_last()
    } else {
        s
    }
}


pub proof fn lemma_trim_start_skip(s: Seq<u8>, k: int)
    requires
        0 <= k <= s.len(),
        forall|i: int| 0 <= i < k ==> is_blank(#[trigger] s[i]),
        k == s.len() || !is_blank(s[k]),
    ensures
        trim_start(s) == s.subrange(k, s.len() as int),
    decreases k,
{
    if k == 0 {
        assert(s.subrange(0, s.len() as int) =~= s);
    } else {
        let t = s.drop_first();
        assert forall|i: int| 0 <= i < k - 1 implies is_blank(#[trigger] t[i]) by {
            assert(t[i] == s[i + 1]);
        }
        lemma_trim_start_skip(t, k - 1);
        assert(t.subrange(k - 1, t.len() as int) =~= s.subrange(k, s.len() as int));
    }
}

pub proof fn lemma_trim_end_skip(s: Seq<u8>, e: int)
    requires
        0 <= e <= s.len(),
        forall|i: int| e <= i < s.len() ==> is_blank(#[trigger] s[i]),
        e == 0 || !is_blank(s[e - 1]),
    ensures
        trim_end(s) == s.subrange(0, e),
    decreases s.len() - e,
{
    if e == s.len() {
        assert(s.subrange(0, e) =~= s);
    } else {
        let t = s.drop_last();
        lemma_trim_end_skip(t, e);
        assert(t.subrange(0, e) =~= s.subrange(0, e));
    }
}

pub proof fn lemma_digits_prefix(v: Seq<u8>, j: int)
    requires
        0 <= j <= v.len(),
        forall|i: int| 0 <= i < v.len() ==> is_digit(#[trigger] v[i]),
    ensures
        digits_value(v.subrange(0, j)) <= digits_value(v),
    decreases v.len() - j,
{
    if j < v.len() {
        let w = v.drop_last();
        assert forall|i: int| 0 <= i < w.len() implies is_digit(#[trigger] w[i]) by {
            assert(w[i] == v[i]);
        }
        lemma_digits_prefix(w, j);
        assert(w.subrange(0, j) =~= v.subrange(0, j));
    } else {
        assert(v.subrange(0, j) =~= v);
    }
}

/// Exec counterpart of [`find_byte`].
fn find_byte_from(s: &[u8], b: u8, start: usize) -> (r: Option<usize>)
    ensures
        match r {
            Some(j) => find_byte(s@, b, start as int) == Some(j as int),
            None => find_byte(s@, b, start as int) is None,
        },
{
    let mut i: usize = start;
    while i < s.len()
        invariant
            start <= i,
            forall|k: int| start <= k < i && k < s@.len() ==> s@[k] != b,
        decreases s.len() - i,
    {
        if s[i] == b {
            proof {
                lemma_find_byte_at(s@, b, start as int, i as int);
            }
            return Some(i);
        }
        i = i + 1;
    }
    proof {
        lemma_find_byte_none(s@, b, start as int);
    }
    None
}

/// Copies `s[from..to]`.
fn copy_bytes(s: &[u8], from: usize, to: usize) -> (r: Vec<u8>)
    requires
        from <= to <= s@.len(),
    ensures
        r@ == s@.subrange(from as int, to as int),
{
    let mut r: Vec<u8> = Vec::new();
    let mut i: usize = from;
    while i < to
        invariant
            from <= i <= to <= s@.len(),
            r@ == s@.subrange(from as int, i as int),
        decreases to - i,
    {
        r.push(s[i]);
        i = i + 1;
    }
    r
}

/// Whether `byte` may stand in a header name.
pub fn is_header_name_byte(byte: u8) -> (r: bool)
    ensures
        r == is_name_byte(byte),
{
    (48u8 <= byte && byte <= 57u8) || (65u8 <= byte && byte <= 90u8) || (97u8 <= byte && byte
        <= 122u8) || byte == 33u8 || byte == 35u8 || byte == 36u8 || byte == 37u8 || byte == 38u8
        || byte == 39u8 || byte == 42u8 || byte == 43u8 || byte == 45u8 || byte == 46u8 || byte
        == 94u8 || byte == 95u8 || byte == 96u8 || byte == 124u8 || byte == 126u8
}

/// `value` without leading and trailing spaces and tabs.
pub fn trim_ascii_whitespace(value: &[u8]) -> (r: Vec<u8>)
    ensures
        r@ == trim(value@),
{
    let mut start: usize = 0;
    while start < value.len() && (value[start] == 32u8 || value[start] == 9u8)
        invariant
            0 <= start <= value@.len(),
            forall|i: int| 0 <= i < start ==> is_blank(#[trigger] value@[i]),
        decreases value.len() - start,
    {
        start = start + 1;
    }
    proof {
        lemma_trim_start_skip(value@, start as int);
    }
    let ghost t = value@.subrange(start as int, value@.len() as int);
    let mut end: usize = value.len();
    while end > start && (value[end - 1] == 32u8 || value[end - 1] == 9u8)
        invariant
            start <= end <= value@.len(),
            t == value@.subrange(start as int, value@.len() as int),
            forall|i: int| end <= i < value@.len() ==> is_blank(#[trigger] value@[i]),
        decreases end - start,
    {
        end = end - 1;
    }
    proof {
        assert forall|i: int| end - start <= i < t.len() implies is_blank(#[trigger] t[i]) by {
            assert(t[i] == value@[i + start]);
        }
        lemma_trim_end_skip(t, end - start);
        assert(t.subrange(0, end - start) =~= value@.subrange(start as int, end as int));
    }
    copy_bytes(value, start, end)
}

/// Parses a `Content-Length` value: decimal digits only, fitting in `usize`.
pub fn parse_content_length(value: &[u8]) -> (r: Result<usize, FrameError>)
    ensures
        r == content_length_value(value@),
{
    let mut i: usize = 0;
    while i < value.len()
        invariant
            0 <= i <= value@.len(),
            forall|k: int| 0 <= k < i ==> is_digit(#[trigger] value@[k]),
        decreases value.len() - i,
    {
        if !(48u8 <= value[i] && value[i] <= 57u8) {
            return Err(FrameError::InvalidContentLength);
        }
        i = i + 1;
    }
    if value.len() == 0 {
        return Err(FrameError::InvalidContentLength);
    }
    let mut length: usize = 0;
    let mut j: usize = 0;
    while j < value.len()
        invariant
            0 <= j <= value@.len(),
            forall|k: int| 0 <= k < value@.len() ==> is_digit(#[trigger] value@[k]),
            length == digits_value(value@.subrange(0, j as int)),
        decreases value.len() - j,
    {
        let ghost next = value@.subrange(0, j + 1);
        proof {
            assert(next.drop_last() =~= value@.subrange(0, j as int));
        }
        let digit = (value[j] - 48u8) as usize;
        match length.checked_mul(10) {
            None => {
                proof {
                    lemma_digits_prefix(value@, j + 1);
                }
                return Err(FrameError::ContentLengthOverflow);
            },
            Some(scaled) => match scaled.checked_add(digit) {
                None => {
                    proof {
                        lemma_digits_prefix(value@, j + 1);
                    }
                    return Err(FrameError::ContentLengthOverflow);
                },
                Some(next_length) => {
                    length = next_length;
                },
            },
        }
        j = j + 1;
    }
    assert(value@.subrange(0, value@.len() as int) =~= value@);
    Ok(length)
}

/// Whether `name` is `Content-Length`, ignoring ASCII case.
fn is_content_length_name(name: &[u8]) -> (r: bool)
    ensures
        r == eq_ignore_case(name@, content_length_name()),
{
    let expected: Vec<u8> = vec![
        99u8, 111u8, 110u8, 116u8, 101u8, 110u8, 116u8, 45u8, 108u8, 101u8, 110u8, 103u8, 116u8, 104u8
    ];
    assert(expected@ =~= content_length_name());
    if name.len() != expected.len() {
        return false;
    }
    let mut i: usize = 0;
    while i < name.len()
        invariant
            name@.len() == expected@.len(),
            expected@ == content_length_name(),
            0 <= i <= name@.len(),
            forall|k: int| 0 <= k < i ==> ascii_lower(name@[k]) == ascii_lower(expected@[k]),
        decreases name.len() - i,
    {
        let a = name[i];
        let b = expected[i];
        let la = if 65u8 <= a && a <= 90u8 { a + 32 } else { a };
        let lb = if 65u8 <= b && b <= 90u8 { b + 32 } else { b };
        if la != lb {
            return false;
        }
        i = i + 1;
    }
    true
}

/// Interprets one header line, its line ending removed, given the content length
/// read so far.
#[verifier::loop_isolation(false)]
pub fn parse_header_line(header: &[u8], content_length: Option<usize>) -> (r: HeaderStep)
    ensures
        r == header_step(header@, content_length),
{
    if header.len() == 0 {
        return HeaderStep::End;
    }
    let colon = match find_byte_from(header, 58u8, 0) {
        None => {
            return HeaderStep::Fail(FrameError::MalformedHeader);
        },
        Some(c) => c,
    };
    proof {
        lemma_find_byte(header@, 58, 0);
    }
    let name = copy_bytes(header, 0, colon);
    let value = copy_bytes(header, colon + 1, header.len());
    if name.len() == 0 {
        return HeaderStep::Fail(FrameError::MalformedHeaderName);
    }
    let mut i: usize = 0;
    while i < name.len()
        invariant
            0 <= i <= name@.len(),
            forall|k: int| 0 <= k < i ==> is_name_byte(#[trigger] name@[k]),
        decreases name.len() - i,
    {
        if !is_header_name_byte(name[i]) {
            assert(!is_name_byte(name@[i as int]));
            return HeaderStep::Fail(FrameError::MalformedHeaderName);
        }
        i = i + 1;
    }
    let mut j: usize = 0;
    while j < value.len()
        invariant
            0 <= j <= value@.len(),
            forall|k: int| 0 <= k < j ==> is_value_byte(#[trigger] value@[k]),
        decreases value.len() - j,
    {
        let b = value[j];
        if !(b == 9u8 || (32u8 <= b && b <= 126u8)) {
            assert(!is_value_byte(value@[j as int]));
            return HeaderStep::Fail(FrameError::MalformedHeaderValue);
        }
        j = j + 1;
    }
    if is_content_length_name(name.as_slice()) {
        if content_length.is_some() {
            return HeaderStep::Fail(FrameError::DuplicateContentLength);
        }
        let trimmed = trim_ascii_whitespace(value.as_slice());
        match parse_content_length(trimmed.as_slice()) {
            Ok(n) => HeaderStep::Continue(Some(n)),
            Err(e) => HeaderStep::Fail(e),
        }
    } else {
        HeaderStep::Continue(content_length)
    }
}

/// How the headers at the start of a stream end.
pub enum HeaderOutcome {
    /// The stream is empty.
    CleanEof,
    /// The blank line was read; the content length, and the header bytes in all.
    Done(Option<usize>, nat),
    Failed(FrameError),
}

/// Scans header lines from `s` after `hb` header bytes, the content length so far
/// being `cl`; the stream ends where `s` does.
pub open spec fn header_scan(s: Seq<u8>, hb: nat, cl: Option<usize>) -> HeaderOutcome
    decreases s.len(),
{
    let limit = MAX_HEADER_BYTES - hb;
    match find_byte(s, 10, 0) {
        None => if s.len() > limit {
            HeaderOutcome::Failed(FrameError::HeadersTooLong)
        } else if s.len() == 0 && hb == 0 {
            HeaderOutcome::CleanEof
        } else {
            HeaderOutcome::Failed(FrameError::EofInHeaders)
        },
        Some(i) => if i + 1 > limit {
            HeaderOutcome::Failed(FrameError::HeadersTooLong)
        } else {
            proof {
                lemma_find_byte(s, 10, 0);
            }
            match header_step(strip_line_ending(s.subrange(0, i + 1)), cl) {
                HeaderStep::End => HeaderOutcome::Done(cl, (hb + i + 1) as nat),
                HeaderStep::Fail(e) => HeaderOutcome::Failed(e),
                HeaderStep::Continue(c2) => header_scan(
                    s.subrange(i + 1, s.len() as int),
                    (hb + i + 1) as nat,
                    c2,
                ),
            }
        },
    }
}

/// What reading one frame from the stream `s` gives.
pub enum FrameOutcome {
    /// The stream is empty.
    CleanEof,
    /// A frame with this payload, and the bytes it takes up.
    Frame(Seq<u8>, nat),
    Failed(FrameError),
}

/// Reads one frame from the start of `s`, the stream ending where `s` does.
pub open spec fn frame_outcome(s: Seq<u8>) -> FrameOutcome {
    match header_scan(s, 0, None) {
        HeaderOutcome::CleanEof => FrameOutcome::CleanEof,
        HeaderOutcome::Failed(e) => FrameOutcome::Failed(e),
        HeaderOutcome::Done(cl, n) => match cl {
            None => FrameOutcome::Failed(FrameError::MissingContentLength),
            Some(len) => if len > MAX_PAYLOAD_BYTES {
                FrameOutcome::Failed(FrameError::PayloadTooLarge)
            } else if s.len() < n + len {
                FrameOutcome::Failed(FrameError::EofInPayload)
            } else {
                FrameOutcome::Frame(s.subrange(n as int, n + len), (n + len) as nat)
            },
        },
    }
}

pub proof fn lemma_find_byte_shift(s: Seq<u8>, b: u8, p: int)
    requires
        0 <= p <= s.len(),
    ensures
        find_byte(s.subrange(p, s.len() as int), b, 0) == match find_byte(s, b, p) {
            Some(j) => Some(j - p),
            None => None::<int>,
        },
{
    let t = s.subrange(p, s.len() as int);
    lemma_find_byte(s, b, p);
    match find_byte(s, b, p) {
        Some(j) => {
            lemma_find_byte_at(t, b, 0, j - p);
        },
        None => {
            lemma_find_byte_none(t, b, 0);
        },
    }
}

/// The line `s[from..to]`, which ends in LF, without its LF or CRLF.
fn strip_line(s: &[u8], from: usize, to: usize) -> (r: Vec<u8>)
    requires
        from < to <= s@.len(),
    ensures
        r@ == strip_line_ending(s@.subrange(from as int, to as int)),
{
    let ghost line = s@.subrange(from as int, to as int);
    let mut end = to - 1;
    assert(line.drop_last() =~= s@.subrange(from as int, end as int));
    if end > from && s[end - 1] == 13u8 {
        end = end - 1;
        assert(line.drop_last().drop_last() =~= s@.subrange(from as int, end as int));
    }
    copy_bytes(s, from, end)
}

/// Reads one frame from the start of `input`, the stream ending where `input` does.
///
/// Gives `Ok(None)` for an empty input, and otherwise the payload of the frame and
/// the number of bytes the frame takes up.
pub fn decode_frame(input: &[u8]) -> (r: Result<Option<(Vec<u8>, usize)>, FrameError>)
    ensures
        match frame_outcome(input@) {
            FrameOutcome::CleanEof => r matches Ok(None),
            FrameOutcome::Frame(p, n) => r matches Ok(Some((v, m))) && v@ == p && m == n,
            FrameOutcome::Failed(e) => r == Err::<Option<(Vec<u8>, usize)>, FrameError>(e),
        },
{
    let mut pos: usize = 0;
    let mut content_length: Option<usize> = None;
    assert(input@.subrange(0, input@.len() as int) =~= input@);
    loop
        invariant_except_break
            pos <= input@.len(),
            pos <= MAX_HEADER_BYTES,
            header_scan(input@.subrange(pos as int, input@.len() as int), pos as nat, content_length)
                == header_scan(input@, 0, None),
        ensures
            pos <= input@.len(),
            header_scan(input@, 0, None) == HeaderOutcome::Done(content_length, pos as nat),
        decreases input@.len() - pos,
    {
        let ghost rest = input@.subrange(pos as int, input@.len() as int);
        proof {
            lemma_find_byte_shift(input@, 10, pos as int);
        }
        let limit = MAX_HEADER_BYTES - pos;
        match find_byte_from(input, 10u8, pos) {
            None => {
                let remaining = input.len() - pos;
                if remaining > limit {
                    return Err(FrameError::HeadersTooLong);
                } else if remaining == 0 && pos == 0 {
                    return Ok(None);
                } else {
                    return Err(FrameError::EofInHeaders);
                }
            },
            Some(i) => {
                proof {
                    lemma_find_byte(input@, 10u8, pos as int);
                    assert(find_byte(input@, 10u8, pos as int) == Some(i as int));
                }
                assert(pos <= i && i < input.len());
                if i - pos + 1 > limit {
                    return Err(FrameError::HeadersTooLong);
                }
                let line = strip_line(input, pos, i + 1);
                proof {
                    assert(rest.subrange(0, i - pos + 1) =~= input@.subrange(pos as int, i + 1));
                    assert(rest.subrange(i - pos + 1, rest.len() as int) =~= input@.subrange(
                        i + 1,
                        input@.len() as int,
                    ));
                }
                match parse_header_line(line.as_slice(), content_length) {
                    HeaderStep::End => {
                        pos = i + 1;
                        break;
                    },
                    HeaderStep::Fail(e) => {
                        return Err(e);
                    },
                    HeaderStep::Continue(next) => {
                        content_length = next;
                        pos = i + 1;
                    },
                }
            },
        }
    }
    let length = match content_length {
        None => {
            return Err(FrameError::MissingContentLength);
        },
        Some(n) => n,
    };
    if length > MAX_PAYLOAD_BYTES {
        return Err(FrameError::PayloadTooLarge);
    }
    if input.len() - pos < length {
        return Err(FrameError::EofInPayload);
    }
    let payload = copy_bytes(input, pos, pos + length);
    Ok(Some((payload, pos + length)))
}


/// What reading a frame from a stream can fail with.
pub enum ReadFrameError {
    /// The bytes read are not a well-formed frame.
    Framing(FrameError),
    /// The stream itself failed.
    Io(std::io::Error),
}

/// The I/O error kind that a framing failure is reported with.
pub fn frame_error_kind(e: FrameError) -> (r: IoKind)
    ensures
        r == (if e is EofInHeaders || e is EofInPayload {
            IoKind::UnexpectedEof
        } else {
            IoKind::InvalidData
        }),
{
    match e {
        FrameError::EofInHeaders | FrameError::EofInPayload => IoKind::UnexpectedEof,
        _ => IoKind::InvalidData,
    }
}

/// Whether `std::io::Error::kind` of `error` is `UnexpectedEof`.
#[verifier::external_body]
fn is_unexpected_eof(error: &std::io::Error) -> bool {
    error.kind() == std::io::ErrorKind::UnexpectedEof
}

/// `BufRead::read_until` with LF on the reader limited by `Read::take` to `cap`
/// bytes: the bytes up to and including the next LF, or up to the end of the
/// stream, but never more than `cap` bytes. Interrupted reads are retried by
/// `read_until` itself. The contract states that no LF stands before the last
/// byte and the length bound; that a line without LF shorter than `cap` means
/// the stream ended is left unsaid.
#[verifier::external_body]
fn read_line_within<R: BufRead>(reader: &mut R, cap: u64) -> (r: Result<Vec<u8>, std::io::Error>)
    ensures
        r matches Ok(line) ==> line@.len() <= cap && forall|k: int|
            0 <= k < line@.len() - 1 ==> line@[k] != 10u8,
{
    let mut line = Vec::new();
    reader.take(cap).read_until(b'\n', &mut line).map(|_| line)
}

/// `Read::read_exact` into a buffer of `len` bytes.
#[verifier::external_body]
fn read_exact_bytes<R: BufRead>(reader: &mut R, len: usize) -> (r: Result<Vec<u8>, std::io::Error>)
    ensures
        r matches Ok(v) ==> v@.len() == len,
{
    let mut payload = vec![0u8; len];
    reader.read_exact(&mut payload).map(|_| payload)
}

pub proof fn lemma_scan_line(line: Seq<u8>, rest: Seq<u8>, hb: nat, cl: Option<usize>)
    requires
        line.len() > 0,
        line.last() == 10u8,
        forall|k: int| 0 <= k < line.len() - 1 ==> line[k] != 10u8,
        hb + line.len() <= MAX_HEADER_BYTES,
    ensures
        header_scan(line + rest, hb, cl) == match header_step(strip_line_ending(line), cl) {
            HeaderStep::End => HeaderOutcome::Done(cl, hb + line.len()),
            HeaderStep::Fail(e) => HeaderOutcome::Failed(e),
            HeaderStep::Continue(c2) => header_scan(rest, hb + line.len(), c2),
        },
{
    let s = line + rest;
    lemma_find_byte_at(s, 10u8, 0, line.len() - 1);
    assert(s.subrange(0, line.len() as int) =~= line);
    assert(s.subrange(line.len() as int, s.len() as int) =~= rest);
}

pub proof fn lemma_scan_tail(line: Seq<u8>, hb: nat, cl: Option<usize>)
    requires
        hb <= MAX_HEADER_BYTES,
        forall|k: int| 0 <= k < line.len() ==> line[k] != 10u8,
    ensures
        header_scan(line, hb, cl) == if line.len() > MAX_HEADER_BYTES - hb {
            HeaderOutcome::Failed(FrameError::HeadersTooLong)
        } else if line.len() == 0 && hb == 0 {
            HeaderOutcome::CleanEof
        } else {
            HeaderOutcome::Failed(FrameError::EofInHeaders)
        },
{
    lemma_find_byte_none(line, 10u8, 0);
}

pub proof fn lemma_scan_long_line(line: Seq<u8>, hb: nat, cl: Option<usize>)
    requires
        hb <= MAX_HEADER_BYTES,
        line.len() > MAX_HEADER_BYTES - hb,
        forall|k: int| 0 <= k < line.len() - 1 ==> line[k] != 10u8,
    ensures
        header_scan(line, hb, cl) == HeaderOutcome::Failed(FrameError::HeadersTooLong),
{
    if line.last() == 10u8 {
        lemma_find_byte_at(line, 10u8, 0, line.len() - 1);
    } else {
        lemma_find_byte_none(line, 10u8, 0);
    }
}

/// Where reading a frame stands after one header line that the reader handed over.
#[derive(Debug, Clone, Copy, PartialEq, Eq, Structural)]
pub enum LineStep {
    /// More header lines follow: the header bytes read so far, and the content
    /// length known so far.
    More(usize, Option<usize>),
    /// The headers ended: this many payload bytes are to be read.
    Payload(usize),
    /// The stream ended before any byte of a frame.
    CleanEof,
    /// The frame is refused.
    Failed(FrameError),
}

/// What the line `line` (at most one byte more than the header bytes left, with
/// no LF before its last byte; shorter and without a final LF only where the stream ended) does,
/// after `hb` header bytes with content length `cl`: too long a line is refused;
/// a line cut off by the end of the stream is a clean end before any byte and a
/// truncated frame after; else the header line is read, and at the blank line
/// the content length must be present and within [`MAX_PAYLOAD_BYTES`].
pub open spec fn line_step(hb: nat, cl: Option<usize>, line: Seq<u8>) -> LineStep {
    if line.len() > MAX_HEADER_BYTES - hb {
        LineStep::Failed(FrameError::HeadersTooLong)
    } else if line.len() == 0 || line.last() != 10u8 {
        if line.len() == 0 && hb == 0 {
            LineStep::CleanEof
        } else {
            LineStep::Failed(FrameError::EofInHeaders)
        }
    } else {
        match header_step(strip_line_ending(line), cl) {
            HeaderStep::End => match cl {
                None => LineStep::Failed(FrameError::MissingContentLength),
                Some(n) => if n > MAX_PAYLOAD_BYTES {
                    LineStep::Failed(FrameError::PayloadTooLarge)
                } else {
                    LineStep::Payload(n)
                },
            },
            HeaderStep::Fail(e) => LineStep::Failed(e),
            HeaderStep::Continue(c2) => LineStep::More((hb + line.len()) as usize, c2),
        }
    }
}

/// Decides what the header line `line` does (see [`line_step`]).
pub fn read_line_step(hb: usize, cl: Option<usize>, line: &[u8]) -> (r: LineStep)
    requires
        hb <= MAX_HEADER_BYTES,
    ensures
        r == line_step(hb as nat, cl, line@),
{
    let limit = MAX_HEADER_BYTES - hb;
    if line.len() > limit {
        return LineStep::Failed(FrameError::HeadersTooLong);
    }
    if line.len() == 0 || line[line.len() - 1] != 10u8 {
        if line.len() == 0 && hb == 0 {
            return LineStep::CleanEof;
        }
        return LineStep::Failed(FrameError::EofInHeaders);
    }
    let header = strip_line(line, 0, line.len());
    assert(line@.subrange(0, line@.len() as int) =~= line@);
    match parse_header_line(header.as_slice(), cl) {
        HeaderStep::End => match cl {
            None => LineStep::Failed(FrameError::MissingContentLength),
            Some(n) => if n > MAX_PAYLOAD_BYTES {
                LineStep::Failed(FrameError::PayloadTooLarge)
            } else {
                LineStep::Payload(n)
            },
        },
        HeaderStep::Fail(e) => LineStep::Failed(e),
        HeaderStep::Continue(c2) => LineStep::More(hb + line.len(), c2),
    }
}

/// `s` is read as one frame with payload `p`, whatever follows it in the stream.
#[verifier::opaque]
pub open spec fn frame_of(s: Seq<u8>, p: Seq<u8>) -> bool {
    forall|rest: Seq<u8>| #[trigger] frame_outcome(s + rest) == FrameOutcome::Frame(p, s.len())
}

/// Reads one frame from `reader`, reporting framing failures apart from stream failures.
///
/// Each header line is asked for with at most one byte more than the header
/// bytes left, and decided by [`read_line_step`]; the payload is then asked for with exactly the
/// announced length. The stream itself is not modelled: what holds of every
/// outcome is that a frame that comes back, and a framing failure, are exactly
/// what [`frame_outcome`] gives on the bytes read (followed by anything, for a
/// frame).
pub fn read_frame_checked<R: BufRead>(reader: &mut R) -> (r: Result<Option<Vec<u8>>, ReadFrameError>)
    ensures
        match r {
            Ok(Some(p)) => exists|s: Seq<u8>| #[trigger] frame_of(s, p@),
            Err(ReadFrameError::Framing(e)) => exists|s: Seq<u8>|
                #[trigger] frame_outcome(s) == FrameOutcome::Failed(e),
            _ => true,
        },
{
    let mut header_bytes: usize = 0;
    let mut content_length: Option<usize> = None;
    let ghost mut consumed: Seq<u8> = Seq::empty();
    assert forall|rest: Seq<u8>| #[trigger] header_scan(consumed + rest, 0, None) == header_scan(
        rest,
        header_bytes as nat,
        content_length,
    ) by {
        assert(consumed + rest =~= rest);
    }
    let mut length: usize = 0;
    loop
        invariant_except_break
            header_bytes <= MAX_HEADER_BYTES,
            consumed.len() == header_bytes,
            forall|rest: Seq<u8>| #[trigger] header_scan(consumed + rest, 0, None) == header_scan(
                rest,
                header_bytes as nat,
                content_length,
            ),
        ensures
            length <= MAX_PAYLOAD_BYTES,
            forall|rest: Seq<u8>| #[trigger] header_scan(consumed + rest, 0, None) == HeaderOutcome::Done(
                Some(length),
                consumed.len(),
            ),
        decreases MAX_HEADER_BYTES - header_bytes,
    {
        let cap: u64 = (MAX_HEADER_BYTES - header_bytes) as u64 + 1;
        let line = match read_line_within(reader, cap) {
            Ok(line) => line,
            Err(e) => {
                return Err(ReadFrameError::Io(e));
            },
        };
        let step = read_line_step(header_bytes, content_length, line.as_slice());
        assert(header_scan(consumed + line@, 0, None) == header_scan(
            line@,
            header_bytes as nat,
            content_length,
        ));
        proof {
            if line@.len() > MAX_HEADER_BYTES - header_bytes {
                lemma_scan_long_line(line@, header_bytes as nat, content_length);
            } else if line@.len() == 0 || line@.last() != 10u8 {
                lemma_scan_tail(line@, header_bytes as nat, content_length);
            } else {
                assert forall|rest: Seq<u8>| #[trigger] header_scan(line@ + rest, header_bytes as nat, content_length)
                    == match header_step(strip_line_ending(line@), content_length) {
                    HeaderStep::End => HeaderOutcome::Done(content_length, (header_bytes + line@.len()) as nat),
                    HeaderStep::Fail(e) => HeaderOutcome::Failed(e),
                    HeaderStep::Continue(c2) => header_scan(rest, (header_bytes + line@.len()) as nat, c2),
                } by {
                    lemma_scan_line(line@, rest, header_bytes as nat, content_length);
                }
                assert forall|rest: Seq<u8>| #[trigger] header_scan((consumed + line@) + rest, 0, None)
                    == header_scan(line@ + rest, header_bytes as nat, content_length) by {
                    assert((consumed + line@) + rest =~= consumed + (line@ + rest));
                }
                assert(header_scan((consumed + line@) + Seq::<u8>::empty(), 0, None)
                    == header_scan(line@ + Seq::<u8>::empty(), header_bytes as nat, content_length));
                assert((consumed + line@) + Seq::<u8>::empty() =~= consumed + line@);
                assert(line@ + Seq::<u8>::empty() =~= line@);
            }
        }
        match step {
            LineStep::CleanEof => {
                return Ok(None);
            },
            LineStep::Failed(e) => {
                assert(frame_outcome(consumed + line@) == FrameOutcome::Failed(e));
                return Err(ReadFrameError::Framing(e));
            },
            LineStep::Payload(n) => {
                proof {
                    consumed = consumed + line@;
                }
                length = n;
                break ;
            },
            LineStep::More(hb, next) => {
                proof {
                    consumed = consumed + line@;
                }
                header_bytes = hb;
                content_length = next;
            },
        }
    }
    let payload = if length == 0 {
        Vec::new()
    } else {
        match read_exact_bytes(reader, length) {
            Ok(p) => p,
            Err(e) => {
                if is_unexpected_eof(&e) {
                    assert(header_scan(consumed + Seq::<u8>::empty(), 0, None) == HeaderOutcome::Done(
                        Some(length),
                        consumed.len(),
                    ));
                    assert(consumed + Seq::<u8>::empty() =~= consumed);
                    assert(frame_outcome(consumed) == FrameOutcome::Failed(FrameError::EofInPayload));
                    return Err(ReadFrameError::Framing(FrameError::EofInPayload));
                }
                return Err(ReadFrameError::Io(e));
            },
        }
    };
    proof {
        reveal(frame_of);
        let s = consumed + payload@;
        assert forall|rest: Seq<u8>| #[trigger] frame_outcome(s + rest) == FrameOutcome::Frame(payload@, s.len()) by {
            assert(s + rest =~= consumed + (payload@ + rest));
            assert(header_scan(consumed + (payload@ + rest), 0, None) == HeaderOutcome::Done(
                Some(length),
                consumed.len(),
            ));
            assert((s + rest).subrange(consumed.len() as int, consumed.len() + length) =~= payload@);
        }
        assert(frame_of(s, payload@));
    }
    let ghost w = consumed + payload@;
    assert(frame_of(w, payload@));
    let out: Result<Option<Vec<u8>>, ReadFrameError> = Ok(Some(payload));
    assert(out matches Ok(Some(p)) && frame_of(w, p@));
    out
}

/// Reads one Content-Length-framed message without decoding its payload.
///
/// Both CRLF and LF line endings are accepted. `Ok(None)` means the stream ended
/// cleanly before any byte of a frame; a stream that ends inside a frame gives an
/// `UnexpectedEof` error, malformed headers an `InvalidData` error.
pub fn read_frame<R: BufRead>(reader: &mut R) -> (r: Result<Option<Vec<u8>>, std::io::Error>)
    ensures
        r matches Ok(Some(p)) ==> exists|s: Seq<u8>| #[trigger] frame_of(s, p@),
{
    match read_frame_checked(reader) {
        Ok(frame) => Ok(frame),
        Err(ReadFrameError::Io(e)) => Err(e),
        Err(ReadFrameError::Framing(e)) => Err(
            new_io_error(io_kind(frame_error_kind(e)), chars_to_string(str_to_chars(e.message()).as_slice())),
        ),
    }
}


} // verus!
