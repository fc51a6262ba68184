//! Clipboard history engine: a bounded, queryable log of clipboard captures.
//!
//! The library holds the decision logic of a clipboard manager: which
//! clipboard snapshots become history entries (deduplication, blacklist,
//! suppression of the engine's own writes), how the bounded store evicts
//! old entries while protecting pinned ones, and how stored entries are
//! queried and replayed. The operating-system edges (the clipboard itself,
//! the on-disk store, foreground-window resolution, key synthesis) live
//! outside the library and hand it plain values.

pub mod api;
pub mod bytes;
pub mod clock;
pub mod entry;
pub mod error;
pub mod codec;
pub mod dedup;
pub mod dto;
pub mod gate;
pub mod laws;
pub mod monitor;
pub mod query;
pub mod replay;
pub mod settings;
pub mod source;
pub mod store;
