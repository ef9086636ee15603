//! Repository metadata: the package header fields the indexer reads, the
//! records and documents it produces, and the generation state.

pub mod filelists;
pub mod cache;
pub mod header;
pub mod primary;
pub mod repomd;
pub mod scan;
pub mod split;
pub mod state;
