//! Handle-based boundary layer over the nostrdb embedded event database.
//!
//! The library holds what the boundary decides: the error taxonomy and the
//! category of each error, the null-handle checks, the little-endian result
//! layouts, the text payloads of notes and profiles, batch ingestion, and the
//! consuming filter builder. Calls into the database engine stand behind small
//! wrappers in `engine`.

pub mod engine;
pub mod error;
pub mod filter;
pub mod handles;
pub mod ingest;
pub mod marshal;
pub mod payload;
pub mod wire;

