//! A verified engine for computing, comparing, and verifying file digests.
//!
//! The library holds the logic of a hashing tool: the digest engine over
//! five algorithms, hex formatting, constant-time comparison, glob-based
//! exclusion filtering, deterministic ordering of results, and the
//! line-by-line manifest verification rules.  Callers do the I/O (reading
//! files, walking directories, canonicalizing paths) and hand the engine
//! plain values; every decision the engine makes is specified and proved.

pub mod algo;
pub mod compare;
pub mod config;
pub mod digest;
pub mod exclude;
pub mod hexfmt;
pub mod manifest;
pub mod pathpol;
pub mod records;
