//! Verified core of a chunked-upload overlay store.
//!
//! Files are split into size-bounded parts, each packed as a single-entry
//! archive and handed to one of two chat backends; this crate holds the
//! verified logic: part cutting and routing, session bookkeeping, the
//! archive codec contracts, configuration clamping, and the pure decision
//! functions behind the HTTP handlers.

pub mod channels;
pub mod codec;
pub mod config;
pub mod download;
pub mod envfile;
pub mod files;
pub mod limits;
pub mod names;
pub mod records;
pub mod retry;
pub mod sender;
pub mod sequtil;
pub mod session;
pub mod store;
pub mod strutil;
