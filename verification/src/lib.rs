//! Mining a package registry for macro-like packages with unusual
//! dependencies.
//!
//! The pipeline has five stages: walking the mirrored index tree,
//! resolving each package's record history to one concrete version,
//! a content-addressed manifest cache filled from the remote archive,
//! classifying the cached manifests, and stripping/tallying the
//! dependencies that remain after a standard allow-list is removed.
//! Each stage's pure logic lives here with its contract; the thin I/O
//! shell around it lives outside the library.

pub mod cache;
pub mod deps;
pub mod manifest;
pub mod records;
pub mod report;
pub mod resolve;
pub mod seq_facts;
pub mod shard;
