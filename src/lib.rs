//! Incremental generation of RPM repository metadata: package records,
//! index documents, the repository manifest and the caching protocol that
//! decides, per package file, whether published metadata can be reused.

pub mod compress;
pub mod config;
pub mod digest;
pub mod lazy_result;
pub mod pattern;
pub mod repodata;
