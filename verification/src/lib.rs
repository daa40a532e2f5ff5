//! The detect-new-items pipeline of a personal change-detection daemon:
//! extracting comment records from a fetched HTML document, fingerprinting
//! them, deduplicating against an append-only store, and formatting the
//! notification that summarizes the delta. Fetching, persistence I/O and
//! delivery are external collaborators; they hand plain values in and take
//! plain values out.

pub mod comments_checker;
pub mod hnscraper;
pub mod init;
pub mod notify;
pub mod store;
pub mod text;
pub mod utils;

pub use hnscraper::Comment;
