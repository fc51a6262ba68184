//! The engine's error taxonomy.

use vstd::prelude::*;

verus! {

/// Failures surfaced by the engine's operations.
#[derive(Debug, PartialEq, Eq)]
pub enum AppError {
    /// Persistence or schema failure in the backing store.
    Storage,
    /// OS clipboard read or write failure.
    ClipboardAccess,
    /// Filesystem or data-directory failure.
    Io,
    /// The requested entry id is not in the store.
    NotFound,
    /// Decoding, encoding or key-synthesis failure, with a human-readable
    /// message (UTF-8 bytes).
    Other(Vec<u8>),
}

} // verus!
