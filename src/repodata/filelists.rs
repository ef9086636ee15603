//! File-list metadata: the complete file list of each package, keyed by its checksum.

use crate::repodata::header::{entries_of, opt_view, PackageHeader};
use crate::repodata::primary::{
    version_of_header, ExtractError, FileEntry, HeaderField, PackageVersion,
};
use crate::repodata::split::{decided_by, partition, select};
use vstd::prelude::*;

verus! {

/// The file-list record of one package.
#[derive(Clone, Debug, PartialEq, Eq)]
pub struct Package {
    /// Checksum of the package file; joins this record to its primary record.
    pub pkgid: String,
    pub name: String,
    pub arch: Option<String>,
    pub version: PackageVersion,
    pub files: Vec<FileEntry>,
}

pub open spec fn entry_paths(files: Seq<FileEntry>) -> Seq<Seq<char>> {
    files.map_values(|f: FileEntry| f.path@)
}

pub open spec fn header_paths(files: Option<Vec<String>>) -> Seq<Seq<char>> {
    entries_of(files).map_values(|f: String| f@)
}

/// `p` is the file-list record that header `h` gives a file with checksum `sha`.
pub open spec fn filelist_record_of(p: Package, h: PackageHeader, sha: Seq<char>) -> bool {
    &&& p.pkgid@ == sha
    &&& p.name@ == h.name.unwrap()@
    &&& opt_view(p.arch) == opt_view(h.arch)
    &&& version_of_header(p.version, h)
    &&& entry_paths(p.files@) == header_paths(h.files)
}

fn all_files(files: &Option<Vec<String>>) -> (r: Vec<FileEntry>)
    ensures
        entry_paths(r@) == header_paths(*files),
{
    let mut out: Vec<FileEntry> = Vec::new();
    match files {
        Some(v) => {
            let mut i: usize = 0;
            while i < v.len()
                invariant
                    i <= v@.len(),
                    entries_of(*files) == v@,
                    out@.len() == i,
                    forall|j: int| 0 <= j < i ==> #[trigger] out@[j].path@ == v@[j]@,
                decreases v.len() - i,
            {
                out.push(FileEntry::of_rpm_file_entry(&v[i]));
                i = i + 1;
            }
            assert(entry_paths(out@) =~= header_paths(*files));
        },
        None => {
            assert(entry_paths(out@) =~= header_paths(*files));
        },
    }
    out
}

impl Package {
    /// Builds the file-list record of a package from its header and checksum.
    pub fn of_rpm_package(header: &PackageHeader, file_sha: &str) -> (r: Result<Self, ExtractError>)
        ensures
            r is Ok <==> (header.name is Some && header.version is Some && header.release is Some),
            match r {
                Ok(p) => filelist_record_of(p, *header, file_sha@),
                Err(e) => (header.name is None && e == ExtractError::MissingField(
                    HeaderField::Name,
                )) || (header.name is Some && header.version is None && e
                    == ExtractError::MissingField(HeaderField::Version)) || (header.name is Some
                    && header.version is Some && header.release is None && e
                    == ExtractError::MissingField(HeaderField::Release)),
            },
    {
        let files = all_files(&header.files);
        let name = match &header.name {
            Some(n) => n.clone(),
            None => return Err(ExtractError::MissingField(HeaderField::Name)),
        };
        let arch = match &header.arch {
            Some(a) => Some(a.clone()),
            None => None,
        };
        let version = match PackageVersion::of_header(header) {
            Ok(v) => v,
            Err(e) => return Err(e),
        };
        Ok(Package { pkgid: file_sha.to_owned(), name, arch, version, files })
    }
}

pub open spec fn filelists_namespace() -> Seq<char> {
    "http://linux.duke.edu/metadata/filelists"@
}

/// The file-list index document.
#[derive(Debug, PartialEq, Eq)]
pub struct Filelists {
    pub xmlns: String,
    /// The number of records, as the document states it.
    pub packages: usize,
    pub package: Vec<Package>,
}

impl Filelists {
    /// The stated count is the number of records.
    pub open spec fn wf(&self) -> bool {
        self.packages == self.package@.len()
    }

    /// An empty document.
    pub fn new() -> (r: Self)
        ensures
            r.wf(),
            r.package@.len() == 0,
            r.xmlns@ == filelists_namespace(),
    {
        Filelists {
            xmlns: "http://linux.duke.edu/metadata/filelists".to_owned(),
            packages: 0,
            package: Vec::new(),
        }
    }

    /// Appends a record and counts it.
    pub fn add_package(&mut self, package: Package)
        requires
            old(self).packages < usize::MAX,
        ensures
            final(self).packages == old(self).packages + 1,
            final(self).package@ == old(self).package@.push(package),
            final(self).xmlns == old(self).xmlns,
    {
        self.packages = self.packages + 1;
        self.package.push(package);
    }

    /// Keeps the records that `pred` accepts and returns the others, both in order.
    pub fn drain_filter<F: Fn(&Package) -> bool>(&mut self, pred: F) -> (r: Vec<Package>)
        requires
            forall|p: &Package| pred.requires((p,)),
        ensures
            final(self).wf(),
            final(self).xmlns == old(self).xmlns,
            exists|keep: Seq<bool>|
                {
                    &&& decided_by(pred, old(self).package@, keep)
                    &&& final(self).package@ == select(old(self).package@, keep, true)
                    &&& r@ == select(old(self).package@, keep, false)
                },
    {
        let mut items: Vec<Package> = Vec::new();
        std::mem::swap(&mut items, &mut self.package);
        let (keep, drained, Ghost(decisions)) = partition(items, &pred);
        self.packages = keep.len();
        self.package = keep;
        assert(decided_by(pred, old(self).package@, decisions));
        drained
    }
}

} // verus!
