//! The JSON-RPC output side: payload buffers with a size limit, frame encoding,
//! the bounded queue of frames waiting for the writer, and the process-wide
//! output state. Threads, locks and the writer itself live in the application.
use vstd::prelude::*;
use std::collections::TryReserveError;
use crate::framing::{
    content_length_name, digits_value, eq_ignore_case, frame_outcome, header_scan, header_step,
    is_digit, is_name_byte, is_value_byte, lemma_find_byte_at, lemma_scan_line, lemma_trim_end_skip,
    lemma_trim_start_skip, strip_line_ending, trim, FrameOutcome, HeaderOutcome, HeaderStep,
    MAX_HEADER_BYTES, MAX_PAYLOAD_BYTES,
};
use crate::io_errors::{io_error_kind, io_error_text, io_kind, new_io_error, std_error_kind, IoKind};
use crate::text::{chars_to_string, str_to_chars};

verus! {

/// Most bytes of frames waiting for the writer.
pub const MAX_QUEUED_BYTES: usize = 33554432;

/// Most frames waiting for the writer.
pub const MAX_QUEUED_FRAMES: usize = 1024;

/// The decimal digits of `n`, as ASCII bytes.
pub open spec fn decimal(n: nat) -> Seq<u8>
    decreases n,
{
    if n < 10 {
        seq![(48 + n) as u8]
    } else {
        decimal(n / 10).push((48 + n % 10) as u8)
    }
}

/// The decimal digits of `n`, as characters.
pub open spec fn decimal_chars(n: nat) -> Seq<char>
    decreases n,
{
    if n < 10 {
        seq![(48 + n) as char]
    } else {
        decimal_chars(n / 10).push((48 + n % 10) as char)
    }
}

/// Exec counterpart of [`decimal`].
pub fn decimal_bytes(n: usize) -> (r: Vec<u8>)
    ensures
        r@ == decimal(n as nat),
    decreases n,
{
    if n < 10 {
        let mut v: Vec<u8> = Vec::new();
        v.push(48u8 + n as u8);
        assert(v@ =~= decimal(n as nat));
        v
    } else {
        let mut v = decimal_bytes(n / 10);
        v.push(48u8 + (n % 10) as u8);
        v
    }
}

/// Exec counterpart of [`decimal_chars`].
pub fn decimal_string(n: usize) -> (r: Vec<char>)
    ensures
        r@ == decimal_chars(n as nat),
    decreases n,
{
    if n < 10 {
        let mut v: Vec<char> = Vec::new();
        let d: u8 = 48u8 + n as u8;
        v.push(d as char);
        assert(v@ =~= decimal_chars(n as nat));
        v
    } else {
        let mut v = decimal_string(n / 10);
        let d: u8 = 48u8 + (n % 10) as u8;
        v.push(d as char);
        v
    }
}

/// `a` followed by `b`.
fn concat_chars(a: &Vec<char>, b: &Vec<char>) -> (r: Vec<char>)
    ensures
        r@ == a@ + b@,
{
    let mut out = a.clone();
    let mut i: usize = 0;
    while i < b.len()
        invariant
            0 <= i <= b@.len(),
            out@ == a@ + b@.subrange(0, i as int),
        decreases b.len() - i,
    {
        out.push(b[i]);
        assert(out@ =~= a@ + b@.subrange(0, i + 1));
        i = i + 1;
    }
    assert(b@.subrange(0, b@.len() as int) =~= b@);
    out
}

/// `text` followed by the decimal digits of `n`.
fn text_with_number(text: &str, n: usize) -> (r: Vec<char>)
    ensures
        r@ == text@ + decimal_chars(n as nat),
{
    concat_chars(&str_to_chars(text), &decimal_string(n))
}

/// `Vec::capacity`: never below the length.
#[verifier::external_body]
fn vec_capacity(v: &Vec<u8>) -> (r: usize)
    ensures
        r >= v@.len(),
{
    v.capacity()
}

/// `Vec::try_reserve_exact`: the contents stay as they are.
#[verifier::external_body]
fn try_reserve_exact(v: &mut Vec<u8>, additional: usize) -> (r: Result<(), TryReserveError>)
    ensures
        final(v)@ == old(v)@,
{
    v.try_reserve_exact(additional)
}

/// The `Display` text of a failed reservation (`ToString::to_string`).
#[verifier::external_body]
fn reserve_error_text(e: &TryReserveError) -> String {
    e.to_string()
}

/// Why a [`LimitedBuffer`] refused bytes.
#[derive(Debug)]
pub enum BufferError {
    /// The new length does not fit in `usize`.
    LengthOverflow,
    /// The new length would pass the limit.
    TooLarge { limit: usize },
    /// The capacity to reserve came out below the length.
    CapacityUnderflow,
    /// The allocator refused; its message.
    AllocationFailed { message: String },
    /// The allocator gave more than the limit; the buffer was emptied.
    CapacityExceeded,
}

/// A byte buffer that never holds more than `limit` bytes, and never reserves
/// more than `limit` bytes of capacity itself.
pub struct LimitedBuffer {
    pub bytes: Vec<u8>,
    pub limit: usize,
}

impl LimitedBuffer {
    pub fn new(limit: usize) -> (r: Self)
        ensures
            r.bytes@ == Seq::<u8>::empty(),
            r.limit == limit,
    {
        LimitedBuffer { bytes: Vec::new(), limit }
    }

    /// Makes room for `new_len` bytes: the capacity doubles, at least to
    /// `new_len` and at most to the limit.
    fn reserve_for(&mut self, new_len: usize) -> (r: Result<(), BufferError>)
        ensures
            final(self).limit == old(self).limit,
            r is Ok ==> final(self).bytes@ == old(self).bytes@,
            r matches Err(e) ==> match e {
                BufferError::CapacityExceeded => final(self).bytes@ == Seq::<u8>::empty(),
                BufferError::AllocationFailed { .. } => final(self).bytes@ == old(self).bytes@,
                BufferError::CapacityUnderflow => final(self).bytes@ == old(self).bytes@,
                _ => false,
            },
    {
        let capacity = vec_capacity(&self.bytes);
        if new_len <= capacity {
            return Ok(());
        }
        let doubled = match capacity.checked_mul(2) {
            Some(d) => d,
            None => self.limit,
        };
        let wanted = if doubled > new_len {
            doubled
        } else {
            new_len
        };
        let new_capacity = if wanted < self.limit {
            wanted
        } else {
            self.limit
        };
        if new_capacity < self.bytes.len() {
            return Err(BufferError::CapacityUnderflow);
        }
        let additional = new_capacity - self.bytes.len();
        match try_reserve_exact(&mut self.bytes, additional) {
            Ok(()) => {},
            Err(e) => {
                return Err(BufferError::AllocationFailed { message: reserve_error_text(&e) });
            },
        }
        if vec_capacity(&self.bytes) > self.limit {
            self.bytes = Vec::new();
            return Err(BufferError::CapacityExceeded);
        }
        Ok(())
    }

    /// Appends all of `bytes`, or nothing when the limit would be passed.
    #[verifier::loop_isolation(false)]
    pub fn write(&mut self, bytes: &[u8]) -> (r: Result<usize, BufferError>)
        ensures
            final(self).limit == old(self).limit,
            old(self).bytes@.len() + bytes@.len() > old(self).limit ==> final(self).bytes@
                == old(self).bytes@ && (r matches Err(e) && (e is TooLarge || e is LengthOverflow)),
            old(self).bytes@.len() + bytes@.len() > old(self).limit && old(self).bytes@.len()
                + bytes@.len() <= usize::MAX ==> r == Err::<usize, BufferError>(
                BufferError::TooLarge { limit: old(self).limit },
            ),
            r matches Ok(n) ==> n == bytes@.len() && final(self).bytes@ == old(self).bytes@ + bytes@,
            r matches Err(e) ==> match e {
                BufferError::CapacityExceeded => final(self).bytes@ == Seq::<u8>::empty(),
                _ => final(self).bytes@ == old(self).bytes@,
            },
    {
        let new_len = match self.bytes.len().checked_add(bytes.len()) {
            Some(n) => n,
            None => {
                return Err(BufferError::LengthOverflow);
            },
        };
        if new_len > self.limit {
            return Err(BufferError::TooLarge { limit: self.limit });
        }
        match self.reserve_for(new_len) {
            Err(e) => {
                return Err(e);
            },
            Ok(()) => {},
        }
        let mut i: usize = 0;
        let ghost before = self.bytes@;
        while i < bytes.len()
            invariant
                0 <= i <= bytes@.len(),
                self.bytes@ == before + bytes@.subrange(0, i as int),
                self.limit == old(self).limit,
            decreases bytes.len() - i,
        {
            self.bytes.push(bytes[i]);
            assert(self.bytes@ =~= before + bytes@.subrange(0, i + 1));
            i = i + 1;
        }
        assert(bytes@.subrange(0, bytes@.len() as int) =~= bytes@);
        Ok(bytes.len())
    }

    /// Appends all of `bytes` (nothing to do for none), reporting a refusal as an
    /// I/O error: `InvalidData` past the limit, `OutOfMemory` when allocation fails.
    pub fn write_all(&mut self, bytes: &[u8]) -> (r: Result<(), std::io::Error>)
        ensures
            final(self).limit == old(self).limit,
            bytes@.len() == 0 ==> r is Ok && final(self).bytes@ == old(self).bytes@,
            bytes@.len() > 0 && old(self).bytes@.len() + bytes@.len() > old(self).limit
                ==> final(self).bytes@ == old(self).bytes@ && r is Err,
            r is Ok ==> final(self).bytes@ == old(self).bytes@ + bytes@,
    {
        if bytes.len() == 0 {
            assert(old(self).bytes@ + bytes@ =~= old(self).bytes@);
            return Ok(());
        }
        match self.write(bytes) {
            Ok(_) => Ok(()),
            Err(e) => Err(buffer_io_error(&e)),
        }
    }

    pub fn flush(&mut self) -> (r: Result<(), std::io::Error>)
        ensures
            r is Ok,
            *final(self) == *old(self),
    {
        Ok(())
    }
}

/// The text of a refusal for a payload over `limit` bytes.
pub open spec fn payload_too_large_text(limit: usize) -> Seq<char> {
    "JSONRPC payload exceeds the maximum size of "@ + decimal_chars(limit as nat) + " bytes"@
}

/// The kind and text a refusal of a [`LimitedBuffer`] is reported with: a length
/// that does not fit, a payload over the limit and a capacity below the length
/// are `InvalidData`; an allocation that failed or gave too much is `OutOfMemory`.
pub fn buffer_error_snapshot(e: &BufferError) -> (r: ErrorSnapshot)
    ensures
        e matches BufferError::TooLarge { limit } ==> r.kind == std_error_kind(IoKind::InvalidData)
            && r.message@ == payload_too_large_text(*limit),
        e is LengthOverflow ==> r.kind == std_error_kind(IoKind::InvalidData) && r.message@
            == "JSON payload too large"@,
        e is CapacityUnderflow ==> r.kind == std_error_kind(IoKind::InvalidData) && r.message@
            == "JSONRPC payload capacity calculation underflowed"@,
        e matches BufferError::AllocationFailed { message } ==> r.kind == std_error_kind(
            IoKind::OutOfMemory,
        ) && r.message@ == "failed to allocate JSONRPC payload: "@ + message@,
        e is CapacityExceeded ==> r.kind == std_error_kind(IoKind::OutOfMemory) && r.message@
            == "JSONRPC payload allocation exceeded its maximum capacity"@,
{
    match e {
        BufferError::LengthOverflow => ErrorSnapshot {
            kind: io_kind(IoKind::InvalidData),
            message: chars_to_string(str_to_chars("JSON payload too large").as_slice()),
        },
        BufferError::TooLarge { limit } => {
            let mut text = text_with_number("JSONRPC payload exceeds the maximum size of ", *limit);
            let tail = str_to_chars(" bytes");
            text = concat_chars(&text, &tail);
            ErrorSnapshot { kind: io_kind(IoKind::InvalidData), message: chars_to_string(text.as_slice()) }
        },
        BufferError::CapacityUnderflow => ErrorSnapshot {
            kind: io_kind(IoKind::InvalidData),
            message: chars_to_string(
                str_to_chars("JSONRPC payload capacity calculation underflowed").as_slice(),
            ),
        },
        BufferError::AllocationFailed { message } => {
            let text = concat_chars(
                &str_to_chars("failed to allocate JSONRPC payload: "),
                &str_to_chars(message.as_str()),
            );
            ErrorSnapshot { kind: io_kind(IoKind::OutOfMemory), message: chars_to_string(text.as_slice()) }
        },
        BufferError::CapacityExceeded => ErrorSnapshot {
            kind: io_kind(IoKind::OutOfMemory),
            message: chars_to_string(
                str_to_chars("JSONRPC payload allocation exceeded its maximum capacity").as_slice(),
            ),
        },
    }
}

/// The I/O error a refusal of a [`LimitedBuffer`] is reported as (see
/// [`buffer_error_snapshot`]).
pub fn buffer_io_error(e: &BufferError) -> std::io::Error {
    buffer_error_snapshot(e).to_error()
}

/// `Content-Length: `
pub open spec fn header_prefix() -> Seq<u8> {
    seq![67u8, 111, 110, 116, 101, 110, 116, 45, 76, 101, 110, 103, 116, 104, 58, 32]
}

/// The line ending, the `Content-Type` header and the blank line that end a header.
pub open spec fn header_suffix() -> Seq<u8> {
    seq![
        13u8, 10, 67, 111, 110, 116, 101, 110, 116, 45, 84, 121, 112, 101, 58, 32, 97, 112, 112,
        108, 105, 99, 97, 116, 105, 111, 110, 47, 118, 115, 99, 111, 100, 101, 45, 106, 115, 111,
        110, 114, 112, 99, 59, 32, 99, 104, 97, 114, 115, 101, 116, 61, 117, 116, 102, 45, 56, 13,
        10, 13, 10,
    ]
}

/// The frame that carries `payload`: its length in a `Content-Length` header,
/// the `Content-Type` header, a blank line, then the payload.
pub open spec fn encoded_frame(payload: Seq<u8>) -> Seq<u8> {
    header_prefix() + decimal(payload.len()) + header_suffix() + payload
}

/// Why a frame could not be built.
#[derive(Debug)]
pub enum FrameBuildError {
    /// The frame's length does not fit in `usize`.
    TooLarge,
    /// The allocator refused; its message.
    AllocationFailed { message: String },
}

/// `dst` followed by `src`.
fn append_bytes(dst: &mut Vec<u8>, src: &[u8])
    ensures
        final(dst)@ == old(dst)@ + src@,
{
    let mut i: usize = 0;
    while i < src.len()
        invariant
            0 <= i <= src@.len(),
            dst@ == old(dst)@ + src@.subrange(0, i as int),
        decreases src.len() - i,
    {
        dst.push(src[i]);
        assert(dst@ =~= old(dst)@ + src@.subrange(0, i + 1));
        i = i + 1;
    }
    assert(src@.subrange(0, src@.len() as int) =~= src@);
}

/// Builds the frame for `payload`, reserving exactly its length first.
pub fn build_frame(payload: &[u8]) -> (r: Result<Vec<u8>, FrameBuildError>)
    ensures
        r matches Ok(f) ==> f@ == encoded_frame(payload@),
        encoded_frame(payload@).len() > usize::MAX <==> r matches Err(FrameBuildError::TooLarge),
{
    let length = decimal_bytes(payload.len());
    let prefix: Vec<u8> = vec![67u8, 111u8, 110u8, 116u8, 101u8, 110u8, 116u8, 45u8, 76u8, 101u8, 110u8, 103u8, 116u8, 104u8, 58u8, 32u8];
    let suffix: Vec<u8> = vec![
        13u8, 10u8, 67u8, 111u8, 110u8, 116u8, 101u8, 110u8, 116u8, 45u8, 84u8, 121u8, 112u8,
        101u8, 58u8, 32u8, 97u8, 112u8, 112u8, 108u8, 105u8, 99u8, 97u8, 116u8, 105u8, 111u8,
        110u8, 47u8, 118u8, 115u8, 99u8, 111u8, 100u8, 101u8, 45u8, 106u8, 115u8, 111u8, 110u8,
        114u8, 112u8, 99u8, 59u8, 32u8, 99u8, 104u8, 97u8, 114u8, 115u8, 101u8, 116u8, 61u8,
        117u8, 116u8, 102u8, 45u8, 56u8, 13u8, 10u8, 13u8, 10u8,
    ];
    assert(prefix@ =~= header_prefix());
    assert(suffix@ =~= header_suffix());
    let with_length = match prefix.len().checked_add(length.len()) {
        Some(n) => n,
        None => {
            return Err(FrameBuildError::TooLarge);
        },
    };
    let with_suffix = match with_length.checked_add(suffix.len()) {
        Some(n) => n,
        None => {
            return Err(FrameBuildError::TooLarge);
        },
    };
    let frame_len = match with_suffix.checked_add(payload.len()) {
        Some(n) => n,
        None => {
            return Err(FrameBuildError::TooLarge);
        },
    };
    let mut frame: Vec<u8> = Vec::new();
    match try_reserve_exact(&mut frame, frame_len) {
        Ok(()) => {},
        Err(e) => {
            return Err(FrameBuildError::AllocationFailed { message: reserve_error_text(&e) });
        },
    }
    append_bytes(&mut frame, prefix.as_slice());
    append_bytes(&mut frame, length.as_slice());
    append_bytes(&mut frame, suffix.as_slice());
    append_bytes(&mut frame, payload);
    Ok(frame)
}

/// The text a failure to serialize a payload is reported with.
pub open spec fn serialize_failure_text(t: Seq<char>) -> Seq<char> {
    "failed to serialize JSONRPC output: "@ + t
}

/// The frame for a serialized payload of at most `payload_limit` bytes, a refusal
/// kept as its kind and text: the payload goes through a [`LimitedBuffer`] of
/// that limit (a longer one is an `InvalidData` error saying that it exceeds the
/// maximum size), then [`build_frame`] (a frame whose length overflows is
/// `InvalidData`, a refused allocation `OutOfMemory`).
pub fn encode_frame_checked(payload: &[u8], payload_limit: usize) -> (r: Result<Vec<u8>, ErrorSnapshot>)
    ensures
        r matches Ok(f) ==> f@ == encoded_frame(payload@) && payload@.len() <= payload_limit,
        payload@.len() > payload_limit ==> (r matches Err(s) && s.kind == std_error_kind(IoKind::InvalidData)
            && s.message@ == serialize_failure_text(payload_too_large_text(payload_limit))),
{
    let plen = payload.len();
    let mut buffer = LimitedBuffer::new(payload_limit);
    assert(buffer.bytes@.len() + payload@.len() == plen);
    match buffer.write(payload) {
        Ok(_) => {},
        Err(e) => {
            proof {
                if payload@.len() > payload_limit {
                    assert(e == BufferError::TooLarge { limit: payload_limit });
                }
            }
            let inner = buffer_error_snapshot(&e);
            let text = concat_chars(
                &str_to_chars("failed to serialize JSONRPC output: "),
                &str_to_chars(inner.message.as_str()),
            );
            assert(text@ == serialize_failure_text(inner.message@));
            return Err(ErrorSnapshot { kind: inner.kind, message: chars_to_string(text.as_slice()) });
        },
    }
    assert(buffer.bytes@ =~= payload@);
    match build_frame(buffer.bytes.as_slice()) {
        Ok(frame) => Ok(frame),
        Err(FrameBuildError::TooLarge) => Err(
            ErrorSnapshot {
                kind: io_kind(IoKind::InvalidData),
                message: chars_to_string(str_to_chars("JSONRPC frame too large").as_slice()),
            },
        ),
        Err(FrameBuildError::AllocationFailed { message }) => {
            let text = concat_chars(
                &str_to_chars("failed to allocate JSONRPC frame: "),
                &str_to_chars(message.as_str()),
            );
            Err(ErrorSnapshot { kind: io_kind(IoKind::OutOfMemory), message: chars_to_string(text.as_slice()) })
        },
    }
}

/// [`encode_frame_checked`], a refusal reported as an I/O error of its kind and text.
pub fn encode_frame(payload: &[u8], payload_limit: usize) -> (r: Result<Vec<u8>, std::io::Error>)
    ensures
        r matches Ok(f) ==> f@ == encoded_frame(payload@) && payload@.len() <= payload_limit,
        payload@.len() > payload_limit ==> r is Err,
{
    match encode_frame_checked(payload, payload_limit) {
        Ok(frame) => Ok(frame),
        Err(s) => Err(s.to_error()),
    }
}

/// The first fatal output error, kept as its kind and text.
#[derive(Debug)]
pub struct ErrorSnapshot {
    pub kind: std::io::ErrorKind,
    pub message: String,
}

impl ErrorSnapshot {
    pub fn new(error: std::io::Error) -> (r: Self) {
        ErrorSnapshot { kind: io_error_kind(&error), message: io_error_text(&error) }
    }

    /// The snapshot of `error` with `prefix` before its text.
    pub fn with_prefix(prefix: &str, error: &std::io::Error) -> (r: Self)
        ensures
            exists|t: Seq<char>| r.message@ == prefix@ + t,
    {
        let text = io_error_text(error);
        let message = concat_chars(&str_to_chars(prefix), &str_to_chars(text.as_str()));
        ErrorSnapshot { kind: io_error_kind(error), message: chars_to_string(message.as_slice()) }
    }

    /// A copy of the snapshot.
    pub fn duplicate(&self) -> (r: Self)
        ensures
            r.message@ == self.message@,
            r.kind == self.kind,
    {
        ErrorSnapshot { kind: self.kind, message: self.message.clone() }
    }

    /// An error of the snapshot's kind and text.
    pub fn to_error(&self) -> std::io::Error {
        new_io_error(self.kind, self.message.clone())
    }
}

/// Limits of the queue of frames waiting for the writer, and of one payload.
#[derive(Debug, Clone, Copy)]
pub struct Limits {
    pub queued_bytes: usize,
    pub queued_frames: usize,
    pub payload_bytes: usize,
}

impl Default for Limits {
    fn default() -> (r: Self)
        ensures
            r.queued_bytes == MAX_QUEUED_BYTES,
            r.queued_frames == MAX_QUEUED_FRAMES,
            r.payload_bytes == MAX_PAYLOAD_BYTES,
    {
        Limits {
            queued_bytes: MAX_QUEUED_BYTES,
            queued_frames: MAX_QUEUED_FRAMES,
            payload_bytes: MAX_PAYLOAD_BYTES,
        }
    }
}

/// The sum of `s`.
pub open spec fn total(s: Seq<usize>) -> nat
    decreases s.len(),
{
    if s.len() == 0 {
        0
    } else {
        total(s.drop_last()) + s.last() as nat
    }
}

proof fn lemma_total_drop_first(s: Seq<usize>)
    requires
        s.len() > 0,
    ensures
        total(s) == s[0] + total(s.drop_first()),
    decreases s.len(),
{
    if s.len() > 1 {
        lemma_total_drop_first(s.drop_last());
        assert(s.drop_last().drop_first() =~= s.drop_first().drop_last());
        assert(s.drop_first().last() == s.last());
        assert(s.drop_last()[0] == s[0]);
        assert(total(s.drop_first()) == total(s.drop_first().drop_last()) + s.drop_first().last() as nat);
    } else {
        assert(s.drop_first() =~= Seq::<usize>::empty());
        assert(s.drop_last() =~= Seq::<usize>::empty());
        assert(total(s.drop_last()) == 0);
    }
}

/// What happened to a frame handed to the queue.
#[derive(Debug, Clone, Copy, PartialEq, Eq, Structural)]
pub enum Admission {
    /// Output is closed or failed; the frame was dropped.
    Dropped,
    /// The frame waits for the writer.
    Queued,
    /// The queue was full (or its byte count overflowed): output failed.
    Rejected,
}

/// The text output fails with when the queue has no room for a frame.
pub open spec fn queue_full_text(l: Limits) -> Seq<char> {
    "JSONRPC output queue is full (limit: "@ + decimal_chars(l.queued_frames as nat) + " frames and "@
        + decimal_chars(l.queued_bytes as nat) + " bytes)"@
}

/// The text output fails with when the queued byte count would overflow.
pub open spec fn queue_overflow_text() -> Seq<char> {
    "JSONRPC output queue byte count overflowed"@
}

/// What offering `frame` to the open output `before` did, leaving `after`: the
/// frame is charged some count of bytes not below its length (its capacity); it
/// is queued exactly when fewer frames than the frame limit wait and the charged
/// bytes, with it, fit the byte limit; otherwise output fails with a
/// `WouldBlock` error saying that the queue is full (or that the count overflowed).
pub open spec fn admitted(before: OutputState, after: OutputState, frame: Seq<u8>, r: Admission) -> bool {
    let l = before.queue_limits();
    &&& r != Admission::Dropped
    &&& exists|charge: int|
        #![trigger before.queued_total() + charge]
        charge >= frame.len() && (r == Admission::Queued <==> (before.pending().len() < l.queued_frames
            && before.queued_total() + charge <= l.queued_bytes)) && (r == Admission::Queued
            ==> after.queued_total() == before.queued_total() + charge)
    &&& before.pending().len() < l.queued_frames && before.queued_total() + frame.len() > l.queued_bytes
        ==> r == Admission::Rejected
    &&& r == Admission::Rejected ==> after.first_error_kind() == Some(std_error_kind(IoKind::WouldBlock))
        && (after.first_error() == Some(queue_full_text(l)) || after.first_error() == Some(
        queue_overflow_text(),
    ))
}

/// What every operation on the output keeps: the first fatal error, once
/// recorded, with its kind; and output that no longer takes frames stays so,
/// with nothing waiting.
pub open spec fn output_step(before: OutputState, after: OutputState) -> bool {
    &&& before.first_error() is Some ==> after.first_error() == before.first_error()
        && after.first_error_kind() == before.first_error_kind()
    &&& !before.is_open() ==> !after.is_open() && after.pending() == Seq::<Seq<u8>>::empty()
    &&& after.queue_limits() == before.queue_limits()
}

/// The state shared by senders and the writer: whether frames are still taken,
/// the frames waiting in order, the bytes they take up, and the first fatal error.
pub struct OutputState {
    accepting: bool,
    queue: Vec<Vec<u8>>,
    charges: Vec<usize>,
    queued_bytes: usize,
    error: Option<ErrorSnapshot>,
    limits: Limits,
}

impl OutputState {
    /// Frames are taken.
    pub closed spec fn is_open(&self) -> bool {
        self.accepting
    }

    /// The frames waiting for the writer, oldest first.
    pub closed spec fn pending(&self) -> Seq<Seq<u8>> {
        self.queue@.map_values(|f: Vec<u8>| f@)
    }

    /// The bytes charged for the waiting frames.
    pub closed spec fn queued_total(&self) -> int {
        self.queued_bytes as int
    }

    /// The kind of the first fatal error, if any.
    pub closed spec fn first_error_kind(&self) -> Option<std::io::ErrorKind> {
        match self.error {
            Some(e) => Some(e.kind),
            None => None,
        }
    }

    /// The first fatal error, if any.
    pub closed spec fn first_error(&self) -> Option<Seq<char>> {
        match self.error {
            Some(e) => Some(e.message@),
            None => None,
        }
    }

    pub closed spec fn queue_limits(&self) -> Limits {
        self.limits
    }

    /// The queue holds at most the limits, is empty once frames are no longer
    /// taken, and an error means frames are no longer taken.
    pub closed spec fn wf(&self) -> bool {
        &&& self.queue@.len() == self.charges@.len()
        &&& self.queued_bytes == total(self.charges@)
        &&& !self.accepting ==> self.queue@.len() == 0
        &&& self.error is Some ==> !self.accepting
        &&& self.queue@.len() <= self.limits.queued_frames
        &&& self.queued_bytes <= self.limits.queued_bytes
    }

    /// Output that takes frames, with nothing queued.
    pub fn open(limits: Limits) -> (r: Self)
        ensures
            r.wf(),
            r.is_open(),
            r.pending() == Seq::<Seq<u8>>::empty(),
            r.first_error() is None,
            r.queue_limits() == limits,
    {
        let r = OutputState {
            accepting: true,
            queue: Vec::new(),
            charges: Vec::new(),
            queued_bytes: 0,
            error: None,
            limits,
        };
        assert(r.pending() =~= Seq::<Seq<u8>>::empty());
        r
    }

    pub fn is_accepting(&self) -> (r: bool)
        ensures
            r == self.is_open(),
    {
        self.accepting
    }

    /// Records the first fatal error: while frames are taken, this stops taking
    /// them and drops the queue; afterwards it changes nothing.
    pub fn fail(&mut self, error: ErrorSnapshot)
        requires
            old(self).wf(),
        ensures
            final(self).wf(),
            output_step(*old(self), *final(self)),
            final(self).queue_limits() == old(self).queue_limits(),
            old(self).is_open() ==> !final(self).is_open() && final(self).pending()
                == Seq::<Seq<u8>>::empty() && final(self).first_error() == Some(error.message@)
                && final(self).first_error_kind() == Some(error.kind) && final(self).queued_total() == 0,
            !old(self).is_open() ==> final(self).is_open() == old(self).is_open() && final(self).pending() == old(self).pending() && final(self).first_error() == old(self).first_error()
                && final(self).first_error_kind() == old(self).first_error_kind(),
    {
        if !self.accepting {
            assert(self.pending() =~= Seq::<Seq<u8>>::empty());
            return;
        }
        self.error = Some(error);
        self.accepting = false;
        self.queue = Vec::new();
        self.charges = Vec::new();
        self.queued_bytes = 0;
        assert(self.pending() =~= Seq::<Seq<u8>>::empty());
    }

    /// Stops taking frames and drops the queue; the first error stays.
    pub fn close(&mut self)
        requires
            old(self).wf(),
        ensures
            final(self).wf(),
            output_step(*old(self), *final(self)),
            !final(self).is_open(),
            final(self).pending() == Seq::<Seq<u8>>::empty(),
            final(self).first_error() == old(self).first_error(),
            final(self).queue_limits() == old(self).queue_limits(),
    {
        self.accepting = false;
        self.queue = Vec::new();
        self.charges = Vec::new();
        self.queued_bytes = 0;
        assert(self.pending() =~= Seq::<Seq<u8>>::empty());
    }

    /// The first fatal error, as an I/O error.
    pub fn error(&self) -> (r: Option<std::io::Error>)
        ensures
            r is Some <==> self.first_error() is Some,
    {
        match &self.error {
            Some(e) => Some(e.to_error()),
            None => None,
        }
    }

    /// Queues `frame`, charged at its capacity, when frames are taken and the
    /// queue has room for one more frame and its bytes; otherwise output fails
    /// with a `WouldBlock` error.
    pub fn enqueue(&mut self, frame: Vec<u8>) -> (r: Admission)
        requires
            old(self).wf(),
        ensures
            final(self).wf(),
            output_step(*old(self), *final(self)),
            final(self).queue_limits() == old(self).queue_limits(),
            !old(self).is_open() ==> r == Admission::Dropped && final(self).is_open() == old(self).is_open() && final(self).pending() == old(self).pending() && final(self).first_error()
                == old(self).first_error(),
            old(self).is_open() && old(self).pending().len() >= old(self).queue_limits().queued_frames
                ==> r == Admission::Rejected,
            r == Admission::Queued ==> old(self).is_open() && final(self).is_open() && final(self).pending() == old(self).pending().push(frame@) && final(self).first_error() == old(self).first_error(),
            r == Admission::Rejected ==> old(self).is_open() && !final(self).is_open() && final(self).pending() == Seq::<Seq<u8>>::empty() && final(self).first_error() is Some,
            old(self).is_open() ==> admitted(*old(self), *final(self), frame@, r),
    {
        if !self.accepting {
            assert(self.pending() =~= Seq::<Seq<u8>>::empty());
            return Admission::Dropped;
        }
        let charge = vec_capacity(&frame);
        let queued = match self.queued_bytes.checked_add(charge) {
            Some(q) => q,
            None => {
                let message = chars_to_string(
                    str_to_chars("JSONRPC output queue byte count overflowed").as_slice(),
                );
                self.fail(ErrorSnapshot { kind: io_kind(IoKind::WouldBlock), message });
                return Admission::Rejected;
            },
        };
        if self.queue.len() >= self.limits.queued_frames || queued > self.limits.queued_bytes {
            let mut text = text_with_number(
                "JSONRPC output queue is full (limit: ",
                self.limits.queued_frames,
            );
            text = concat_chars(&text, &text_with_number(" frames and ", self.limits.queued_bytes));
            text = concat_chars(&text, &str_to_chars(" bytes)"));
            let ghost lim = self.limits;
            assert(text@ =~= queue_full_text(lim));
            let message = chars_to_string(text.as_slice());
            self.fail(ErrorSnapshot { kind: io_kind(IoKind::WouldBlock), message });
            assert(self.first_error() == Some(queue_full_text(old(self).queue_limits())));
            assert(old(self).queued_total() + charge > lim.queued_bytes || old(self).pending().len() >= lim.queued_frames);
            return Admission::Rejected;
        }
        let ghost before = self.pending();
        proof {
            assert(self.charges@.push(charge).drop_last() =~= self.charges@);
        }
        self.queued_bytes = queued;
        self.charges.push(charge);
        self.queue.push(frame);
        assert(self.pending() =~= before.push(frame@));
        Admission::Queued
    }

    /// Takes the oldest waiting frame, if any.
    pub fn next_frame(&mut self) -> (r: Option<Vec<u8>>)
        requires
            old(self).wf(),
        ensures
            final(self).wf(),
            output_step(*old(self), *final(self)),
            final(self).queue_limits() == old(self).queue_limits(),
            final(self).is_open() == old(self).is_open(),
            final(self).first_error() == old(self).first_error(),
            old(self).pending().len() == 0 ==> r is None && final(self).pending() == old(self).pending(),
            old(self).pending().len() > 0 ==> (r matches Some(f) && f@ == old(self).pending()[0]
                && final(self).pending() == old(self).pending().drop_first()),
    {
        if self.queue.len() == 0 {
            assert(self.pending() =~= Seq::<Seq<u8>>::empty());
            return None;
        }
        let ghost before = self.pending();
        proof {
            lemma_total_drop_first(self.charges@);
        }
        let charge = self.charges.remove(0);
        let frame = self.queue.remove(0);
        self.queued_bytes = self.queued_bytes - charge;
        assert(self.charges@ =~= old(self).charges@.drop_first());
        assert(self.pending() =~= before.drop_first());
        Some(frame)
    }

    /// Hands the outcome of serializing one message to the queue: a failure of
    /// serialization fails output, a frame is queued as [`OutputState::enqueue`] does.
    pub fn send_encoded(&mut self, encoded: Result<Vec<u8>, std::io::Error>) -> (r: Admission)
        requires
            old(self).wf(),
        ensures
            final(self).wf(),
            output_step(*old(self), *final(self)),
            final(self).queue_limits() == old(self).queue_limits(),
            !old(self).is_open() ==> r == Admission::Dropped && final(self).pending() == old(self).pending() && final(self).first_error() == old(self).first_error(),
            encoded is Err && old(self).is_open() ==> r == Admission::Rejected && !final(self).is_open() && final(self).first_error() is Some,
            r == Admission::Queued ==> (encoded matches Ok(f) && final(self).pending() == old(self).pending().push(f@)),
            old(self).is_open() ==> (encoded matches Ok(f) ==> admitted(*old(self), *final(self), f@, r)),
    {
        if !self.accepting {
            assert(self.pending() =~= Seq::<Seq<u8>>::empty());
            return Admission::Dropped;
        }
        match encoded {
            Ok(frame) => self.enqueue(frame),
            Err(e) => {
                self.fail(ErrorSnapshot::new(e));
                Admission::Rejected
            },
        }
    }

    /// Hands the outcome of encoding one message to the queue: a refusal fails
    /// output with its kind and text, a frame is queued as [`OutputState::enqueue`] does.
    pub fn send_checked(&mut self, encoded: Result<Vec<u8>, ErrorSnapshot>) -> (r: Admission)
        requires
            old(self).wf(),
        ensures
            final(self).wf(),
            output_step(*old(self), *final(self)),
            final(self).queue_limits() == old(self).queue_limits(),
            !old(self).is_open() ==> r == Admission::Dropped && final(self).pending() == old(self).pending()
                && final(self).first_error() == old(self).first_error(),
            old(self).is_open() ==> match encoded {
                Ok(f) => admitted(*old(self), *final(self), f@, r) && (r == Admission::Queued
                    ==> final(self).pending() == old(self).pending().push(f@)),
                Err(s) => r == Admission::Rejected && !final(self).is_open() && final(self).pending()
                    == Seq::<Seq<u8>>::empty() && final(self).first_error() == Some(s.message@)
                    && final(self).first_error_kind() == Some(s.kind),
            },
    {
        if !self.accepting {
            assert(self.pending() =~= Seq::<Seq<u8>>::empty());
            return Admission::Dropped;
        }
        match encoded {
            Ok(frame) => self.enqueue(frame),
            Err(s) => {
                self.fail(s);
                Admission::Rejected
            },
        }
    }

    /// Records that writing (or flushing, when `flushing`) a frame failed.
    pub fn write_failed(&mut self, error: &std::io::Error, flushing: bool)
        requires
            old(self).wf(),
        ensures
            final(self).wf(),
            output_step(*old(self), *final(self)),
            !final(self).is_open(),
            final(self).pending() == Seq::<Seq<u8>>::empty() || !old(self).is_open(),
            old(self).is_open() ==> final(self).first_error() is Some,
            !old(self).is_open() ==> final(self).first_error() == old(self).first_error(),
    {
        let prefix = if flushing {
            "failed to flush JSONRPC output: "
        } else {
            "failed to write JSONRPC output: "
        };
        self.fail(ErrorSnapshot::with_prefix(prefix, error));
    }
}

/// The process-wide output: the output once made, whether it was shut down, and
/// the error that making it failed with.
pub struct GlobalState<O> {
    pub output: Option<O>,
    pub shutdown: bool,
    pub initialization_error: Option<ErrorSnapshot>,
}

impl<O> GlobalState<O> {
    pub fn new() -> (r: Self)
        ensures
            r.output is None,
            !r.shutdown,
            r.initialization_error is None,
    {
        GlobalState { output: None, shutdown: false, initialization_error: None }
    }
}

/// What every operation on the process-wide output keeps: shutdown is for good,
/// the failure to make output is kept, and output once made is the one kept.
pub open spec fn global_step<O>(before: GlobalState<O>, after: GlobalState<O>) -> bool {
    &&& before.shutdown ==> after.shutdown
    &&& before.initialization_error is Some ==> after.initialization_error
        == before.initialization_error
    &&& before.output is Some ==> after.output == before.output
}

/// Why output could not be made.
pub enum InitError {
    /// Output was shut down; it is never made again.
    ShutDown,
    /// Making it failed, now or before.
    Failed(ErrorSnapshot),
}

/// Makes the output unless it exists already: fails after shutdown, and repeats
/// the first failure without trying again.
pub fn initialize_output_checked<O, F: FnOnce() -> Result<O, std::io::Error>>(
    global: &mut GlobalState<O>,
    create_output: F,
) -> (r: Result<(), InitError>)
    requires
        create_output.requires(()),
    ensures
        old(global).shutdown ==> (r matches Err(InitError::ShutDown) && *final(global) == *old(global)),
        !old(global).shutdown && old(global).initialization_error is Some ==> (r matches Err(
            InitError::Failed(s),
        ) && *final(global) == *old(global) && s.message@ == old(global).initialization_error->0.message@
            && s.kind == old(global).initialization_error->0.kind),
        !old(global).shutdown && old(global).initialization_error is None && old(global).output is Some
            ==> r is Ok && *final(global) == *old(global),
        !old(global).shutdown && old(global).initialization_error is None && old(global).output is None
            ==> exists|made: Result<O, std::io::Error>|
            create_output.ensures((), made) && match made {
                Ok(o) => r is Ok && final(global).output == Some(o),
                Err(_) => r matches Err(InitError::Failed(s)) && final(global).initialization_error
                    matches Some(stored) && final(global).output is None && s.message@ == stored.message@
                    && s.kind == stored.kind && exists|t: Seq<char>|
                    stored.message@ == "failed to initialize JSONRPC output: "@ + t,
            },
        final(global).shutdown == old(global).shutdown,
        global_step(*old(global), *final(global)),
{
    if global.shutdown {
        return Err(InitError::ShutDown);
    }
    match &global.initialization_error {
        Some(e) => {
            return Err(InitError::Failed(e.duplicate()));
        },
        None => {},
    }
    if global.output.is_some() {
        return Ok(());
    }
    let made = create_output();
    match made {
        Ok(output) => {
            global.output = Some(output);
            Ok(())
        },
        Err(error) => {
            let snapshot = ErrorSnapshot::with_prefix("failed to initialize JSONRPC output: ", &error);
            let reported = snapshot.duplicate();
            global.initialization_error = Some(snapshot);
            Err(InitError::Failed(reported))
        },
    }
}

/// [`initialize_output_checked`], a refusal after shutdown reported as a
/// `BrokenPipe` error.
pub fn initialize_output_state<O, F: FnOnce() -> Result<O, std::io::Error>>(
    global: &mut GlobalState<O>,
    create_output: F,
) -> (r: Result<(), std::io::Error>)
    requires
        create_output.requires(()),
    ensures
        old(global).shutdown ==> r is Err && *final(global) == *old(global),
        !old(global).shutdown && old(global).initialization_error is Some ==> r is Err && *final(global) == *old(global),
        !old(global).shutdown && old(global).initialization_error is None && old(global).output is Some
            ==> r is Ok && *final(global) == *old(global),
        final(global).shutdown == old(global).shutdown,
        global_step(*old(global), *final(global)),
{
    match initialize_output_checked(global, create_output) {
        Ok(()) => Ok(()),
        Err(InitError::ShutDown) => Err(
            new_io_error(
                io_kind(IoKind::BrokenPipe),
                chars_to_string(str_to_chars("JSONRPC output has been shut down").as_slice()),
            ),
        ),
        Err(InitError::Failed(snapshot)) => Err(snapshot.to_error()),
    }
}

/// Marks output as shut down for good, and gives the output to close, if any.
pub fn shutdown_output_state<O: Clone>(global: &mut GlobalState<O>) -> (r: Option<O>)
    ensures
        final(global).shutdown,
        final(global).output == old(global).output,
        final(global).initialization_error == old(global).initialization_error,
        r is Some <==> old(global).output is Some,
        global_step(*old(global), *final(global)),
{
    global.shutdown = true;
    match &global.output {
        Some(o) => Some(o.clone()),
        None => None,
    }
}

/// The first fatal output error: the failure to make output, else the error of
/// the output made (as `output_error` reports it).
pub fn output_error_state<O, G: FnOnce(&O) -> Option<std::io::Error>>(
    global: &GlobalState<O>,
    output_error: G,
) -> (r: Option<std::io::Error>)
    requires
        forall|o: &O| output_error.requires((o,)),
    ensures
        global.initialization_error is Some ==> r is Some,
        global.initialization_error is None && global.output is None ==> r is None,
        global.initialization_error is None ==> (global.output matches Some(o) ==> output_error.ensures(
            (&o,),
            r,
        )),
{
    match &global.initialization_error {
        Some(e) => Some(e.to_error()),
        None => match &global.output {
            Some(o) => output_error(o),
            None => None,
        },
    }
}

/// `Content-Type: application/vscode-jsonrpc; charset=utf-8`
pub open spec fn content_type_line() -> Seq<u8> {
    seq![
        67u8, 111, 110, 116, 101, 110, 116, 45, 84, 121, 112, 101, 58, 32, 97, 112, 112, 108, 105,
        99, 97, 116, 105, 111, 110, 47, 118, 115, 99, 111, 100, 101, 45, 106, 115, 111, 110, 114,
        112, 99, 59, 32, 99, 104, 97, 114, 115, 101, 116, 61, 117, 116, 102, 45, 56,
    ]
}

pub open spec fn crlf() -> Seq<u8> {
    seq![13u8, 10]
}

pub open spec fn pow10(k: nat) -> nat
    decreases k,
{
    if k == 0 {
        1
    } else {
        10 * pow10((k - 1) as nat)
    }
}

proof fn lemma_decimal_facts(n: nat)
    ensures
        decimal(n).len() >= 1,
        forall|i: int| 0 <= i < decimal(n).len() ==> is_digit(#[trigger] decimal(n)[i]),
        digits_value(decimal(n)) == n,
    decreases n,
{
    if n >= 10 {
        lemma_decimal_facts(n / 10);
        let d = decimal(n);
        assert(d.drop_last() =~= decimal(n / 10));
        assert(d.last() == (48 + n % 10) as u8);
        assert((48 + n % 10) as u8 == 48 + n % 10);
        assert((n / 10) * 10 + n % 10 == n) by (nonlinear_arith);
        assert(digits_value(d) == digits_value(d.drop_last()) * 10 + (d.last() - 48) as nat);
        assert forall|i: int| 0 <= i < d.len() implies is_digit(#[trigger] d[i]) by {
            if i < d.len() - 1 {
                assert(d[i] == decimal(n / 10)[i]);
            }
        }
    } else {
        let d = decimal(n);
        assert(d.drop_last() =~= Seq::<u8>::empty());
        assert((48 + n) as u8 == 48 + n);
        assert(digits_value(d) == digits_value(d.drop_last()) * 10 + (d.last() - 48) as nat);
    }
}

proof fn lemma_decimal_len(n: nat, k: nat)
    requires
        n < pow10(k),
        k >= 1,
    ensures
        decimal(n).len() <= k,
    decreases k,
{
    if n >= 10 {
        assert(k > 0) by {
            if k == 0 {
                assert(pow10(0) == 1);
            }
        }
        assert(n / 10 < pow10((k - 1) as nat));
        if k == 1 {
            assert(pow10(1) == 10 * pow10(0));
            assert(false);
        }
        lemma_decimal_len(n / 10, (k - 1) as nat);
        assert(decimal(n).len() == decimal(n / 10).len() + 1);
    }
}

proof fn lemma_decimal_short(n: nat)
    requires
        n <= MAX_PAYLOAD_BYTES,
    ensures
        decimal(n).len() <= 8,
{
    reveal_with_fuel(pow10, 9);
    assert(pow10(8) == 100000000);
    lemma_decimal_len(n, 8);
}

proof fn lemma_length_line(d: Seq<u8>, n: nat)
    requires
        d.len() >= 1,
        forall|i: int| 0 <= i < d.len() ==> is_digit(#[trigger] d[i]),
        digits_value(d) == n,
        n <= usize::MAX,
    ensures
        header_step(header_prefix() + d, None) == HeaderStep::Continue(Some(n as usize)),
{
    let p = header_prefix();
    let h = p + d;
    assert forall|k: int| 0 <= k < 14 implies h[k] != 58 by {
        assert(h[k] == p[k]);
    }
    assert(h[14] == 58);
    lemma_find_byte_at(h, 58, 0, 14);
    let name = h.subrange(0, 14);
    assert(name =~= seq![67u8, 111, 110, 116, 101, 110, 116, 45, 76, 101, 110, 103, 116, 104]);
    assert forall|i: int| 0 <= i < name.len() implies is_name_byte(#[trigger] name[i]) by {}
    let value = h.subrange(15, h.len() as int);
    assert(value =~= seq![32u8] + d);
    assert forall|i: int| 0 <= i < value.len() implies is_value_byte(#[trigger] value[i]) by {
        if i > 0 {
            assert(value[i] == d[i - 1]);
        }
    }
    assert(eq_ignore_case(name, content_length_name()));
    lemma_trim_start_skip(value, 1);
    assert(value.subrange(1, value.len() as int) =~= d);
    lemma_trim_end_skip(d, d.len() as int);
    assert(d.subrange(0, d.len() as int) =~= d);
    assert(trim(value) == d);
}

proof fn lemma_type_line(cl: Option<usize>)
    ensures
        header_step(content_type_line(), cl) == HeaderStep::Continue(cl),
{
    let h = content_type_line();
    assert forall|k: int| 0 <= k < 12 implies h[k] != 58 by {}
    lemma_find_byte_at(h, 58, 0, 12);
    let name = h.subrange(0, 12);
    assert(name =~= seq![67u8, 111, 110, 116, 101, 110, 116, 45, 84, 121, 112, 101]);
    assert forall|i: int| 0 <= i < name.len() implies is_name_byte(#[trigger] name[i]) by {}
    let value = h.subrange(13, h.len() as int);
    assert forall|i: int| 0 <= i < value.len() implies is_value_byte(#[trigger] value[i]) by {
        assert(value[i] == h[i + 13]);
    }
    assert(!eq_ignore_case(name, content_length_name()));
}

/// A frame built for a payload reads back as exactly that payload, taking up
/// exactly the frame's bytes, whatever follows it in the stream: what the output
/// side writes is what the input side reads.
pub proof fn law_built_frame_reads_back(payload: Seq<u8>, rest: Seq<u8>)
    requires
        payload.len() <= MAX_PAYLOAD_BYTES,
    ensures
        frame_outcome(encoded_frame(payload) + rest) == FrameOutcome::Frame(
            payload,
            encoded_frame(payload).len(),
        ),
{
    let n = payload.len();
    let d = decimal(n);
    lemma_decimal_facts(n);
    lemma_decimal_short(n);
    let line1 = header_prefix() + d + crlf();
    let line2 = content_type_line() + crlf();
    let line3 = crlf();
    let tail = payload + rest;
    let s = encoded_frame(payload) + rest;
    assert(header_suffix() =~= crlf() + content_type_line() + crlf() + crlf());
    assert(s =~= line1 + (line2 + (line3 + tail)));
    assert forall|k: int| 0 <= k < line1.len() - 1 implies line1[k] != 10u8 by {
        if k < 16 {
            assert(line1[k] == header_prefix()[k]);
        } else if k < 16 + d.len() {
            assert(line1[k] == d[k - 16]);
        } else {
            assert(line1[k] == 13u8);
        }
    }
    lemma_scan_line(line1, line2 + (line3 + tail), 0, None);
    assert(strip_line_ending(line1) =~= header_prefix() + d);
    lemma_length_line(d, n);
    let hb1 = line1.len();
    assert forall|k: int| 0 <= k < line2.len() - 1 implies line2[k] != 10u8 by {
        if k < 55 {
            assert(line2[k] == content_type_line()[k]);
        }
    }
    lemma_scan_line(line2, line3 + tail, hb1, Some(n as usize));
    assert(strip_line_ending(line2) =~= content_type_line());
    lemma_type_line(Some(n as usize));
    lemma_scan_line(line3, tail, hb1 + line2.len(), Some(n as usize));
    assert(strip_line_ending(line3) =~= Seq::<u8>::empty());
    let hb = hb1 + line2.len() + line3.len();
    assert(header_scan(s, 0, None) == HeaderOutcome::Done(Some(n as usize), hb as nat));
    assert(s.subrange(hb as int, (hb + n) as int) =~= payload);
}

} // verus!
