//! Errors produced by the debugger facade.
use vstd::prelude::*;

verus! {

/// A failure reported by a call into the debugging engine: the `HRESULT` it returned.
#[derive(Debug, Clone, Copy, PartialEq, Eq, Structural)]
pub struct ApiError {
    pub code: i32,
}

/// The errors of every facade operation.
#[derive(Debug, Clone, PartialEq, Eq)]
pub enum DbgError {
    /// A condition not covered by the other kinds, with a fixed message.
    DbgGeneralError(&'static str),
    /// The engine reported a size that cannot be used (zero for a missing name or string).
    InvalidSize(usize),
    /// A call into the debugging engine failed.
    WindowsError(ApiError),
    /// A text handed to the engine holds a NUL byte at the given byte offset.
    InvalidString(usize),
    /// A local I/O failure, such as canonicalizing a path, with its description.
    IoError(String),
}

} // verus!
