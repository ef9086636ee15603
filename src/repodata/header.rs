//! The fields of a package header that the indexer reads, as plain values.
//! A header reader fills them; a field that the header lacks is `None`.

use vstd::prelude::*;

verus! {

/// One dependency relation of a package, as recorded in its header.
#[derive(Clone, Debug, PartialEq, Eq)]
pub struct DependencyEntry {
    pub name: String,
    /// `[epoch:]version[-release]`, or empty when the relation names no version.
    pub version: String,
    /// The header's sense bitmask: comparator in the low four bits, markers above.
    pub flags: i32,
}

/// The structured fields of one package header.
#[derive(Clone, Debug, PartialEq, Eq)]
pub struct PackageHeader {
    pub name: Option<String>,
    pub epoch: Option<i32>,
    pub version: Option<String>,
    pub release: Option<String>,
    pub arch: Option<String>,
    pub license: Option<String>,
    pub vendor: Option<String>,
    pub group: Option<Vec<String>>,
    pub build_host: Option<String>,
    pub source_rpm: Option<String>,
    pub url: Option<String>,
    pub packager: Option<Vec<String>>,
    pub description: Option<Vec<String>>,
    pub summary: Option<Vec<String>>,
    pub build_time: Option<u64>,
    pub installed_size: Option<u64>,
    pub archive_size: Option<u64>,
    pub provides: Option<Vec<DependencyEntry>>,
    pub requires: Option<Vec<DependencyEntry>>,
    pub conflicts: Option<Vec<DependencyEntry>>,
    pub obsoletes: Option<Vec<DependencyEntry>>,
    /// Paths of the files that the package installs.
    pub files: Option<Vec<String>>,
}

/// Size and modification time of a package file, as the file system reports them.
#[derive(Clone, Copy, Debug, PartialEq, Eq)]
pub struct FileStat {
    pub size: u64,
    pub mtime: i64,
}

/// The entries of an optional list; an absent list has none.
pub open spec fn entries_of<T>(list: Option<Vec<T>>) -> Seq<T> {
    match list {
        Some(v) => v@,
        None => Seq::empty(),
    }
}

/// The view of an optional string.
pub open spec fn opt_view(s: Option<String>) -> Option<Seq<char>> {
    match s {
        Some(v) => Some(v@),
        None => None,
    }
}

} // verus!
