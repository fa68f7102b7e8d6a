//! The I/O errors that the transport reports, and the kinds it creates them with.
use vstd::prelude::*;

verus! {

#[verifier::external_type_specification]
#[verifier::external_body]
pub struct ExIoError(std::io::Error);

#[verifier::external_type_specification]
#[verifier::external_body]
pub struct ExIoErrorKind(std::io::ErrorKind);

/// The kinds of I/O error that the library itself creates.
#[derive(Debug, Clone, Copy, PartialEq, Eq, Structural)]
pub enum IoKind {
    InvalidData,
    UnexpectedEof,
    OutOfMemory,
    BrokenPipe,
    WouldBlock,
}

/// The `std::io::ErrorKind` variant of the same name as `kind`.
pub uninterp spec fn std_error_kind(kind: IoKind) -> std::io::ErrorKind;

/// The `std::io::ErrorKind` variant of the same name as `kind`: the same kind
/// always gives the same variant.
#[verifier::external_body]
pub(crate) fn io_kind(kind: IoKind) -> (r: std::io::ErrorKind)
    ensures
        r == std_error_kind(kind),
{
    match kind {
        IoKind::InvalidData => std::io::ErrorKind::InvalidData,
        IoKind::UnexpectedEof => std::io::ErrorKind::UnexpectedEof,
        IoKind::OutOfMemory => std::io::ErrorKind::OutOfMemory,
        IoKind::BrokenPipe => std::io::ErrorKind::BrokenPipe,
        IoKind::WouldBlock => std::io::ErrorKind::WouldBlock,
    }
}

/// `std::io::Error::new(kind, message)`.
#[verifier::external_body]
pub(crate) fn new_io_error(kind: std::io::ErrorKind, message: String) -> std::io::Error {
    std::io::Error::new(kind, message)
}

/// `std::io::Error::kind`.
#[verifier::external_body]
pub(crate) fn io_error_kind(error: &std::io::Error) -> std::io::ErrorKind {
    error.kind()
}

/// The `Display` text of `error` (`ToString::to_string`).
#[verifier::external_body]
pub(crate) fn io_error_text(error: &std::io::Error) -> String {
    error.to_string()
}

} // verus!
