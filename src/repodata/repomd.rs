//! The repository manifest: where each index document lives and how to check it.

use vstd::prelude::*;

verus! {

#[derive(Clone, Debug, PartialEq, Eq)]
pub struct Checksum {
    pub type_: String,
    pub value: String,
}

impl Checksum {
    /// A SHA-1 checksum with the given hex digest.
    pub fn new(value: String) -> (r: Self)
        ensures
            r.type_@ == "sha"@,
            r.value == value,
    {
        Checksum { type_: "sha".to_owned(), value }
    }
}

#[derive(Clone, Debug, PartialEq, Eq)]
pub struct Location {
    /// Path relative to the repository root.
    pub href: String,
}

impl Location {
    pub fn new(href: String) -> (r: Self)
        ensures
            r.href == href,
    {
        Location { href }
    }
}

/// The kind of index document that a manifest entry describes.
#[derive(Clone, Copy, Debug, PartialEq, Eq, Structural)]
pub enum DataType {
    Primary,
    Filelists,
    Other,
    PrimaryDb,
    FilelistsDb,
    OtherDb,
}

/// One manifest entry.
#[derive(Clone, Debug, PartialEq, Eq)]
pub struct Data {
    pub type_: DataType,
    /// Checksum of the compressed document.
    pub checksum: Checksum,
    /// Checksum of the document before compression.
    pub open_checksum: Checksum,
    pub location: Location,
    pub timestamp: i64,
    /// Size of the compressed document.
    pub size: u64,
    /// Size of the document before compression.
    pub open_size: usize,
}

/// The manifest document.
#[derive(Debug, PartialEq, Eq)]
pub struct Repomd {
    pub xmlns: String,
    pub xmlns_url: String,
    /// Seconds since the Unix epoch when the manifest was generated.
    pub revision: u64,
    pub data: Vec<Data>,
}

/// The index of the first entry of `data` of type `t`, if any.
pub open spec fn first_of_type(data: Seq<Data>, t: DataType) -> Option<int> {
    if exists|i: int| 0 <= i < data.len() && #[trigger] data[i].type_ == t {
        Some(
            choose|i: int|
                0 <= i < data.len() && #[trigger] data[i].type_ == t && forall|j: int|
                    0 <= j < i ==> #[trigger] data[j].type_ != t,
        )
    } else {
        None
    }
}

/// `r` is the location of the first entry of `data` of type `t`, or none when there is none.
pub open spec fn location_found(data: Seq<Data>, t: DataType, r: Option<&str>) -> bool {
    match first_of_type(data, t) {
        Some(i) => r matches Some(s) && s@ == data[i].location.href@,
        None => r is None,
    }
}

impl Repomd {
    /// An empty manifest with the given revision.
    pub fn new(revision: u64) -> (r: Self)
        ensures
            r.xmlns@ == "http://linux.duke.edu/metadata/common"@,
            r.xmlns_url@ == "http://linux.duke.edu/metadata/rpm"@,
            r.revision == revision,
            r.data@.len() == 0,
    {
        Repomd {
            xmlns: "http://linux.duke.edu/metadata/common".to_owned(),
            xmlns_url: "http://linux.duke.edu/metadata/rpm".to_owned(),
            revision,
            data: Vec::new(),
        }
    }

    pub fn add_data(&mut self, data: Data)
        ensures
            final(self).data@ == old(self).data@.push(data),
            final(self).xmlns == old(self).xmlns,
            final(self).xmlns_url == old(self).xmlns_url,
            final(self).revision == old(self).revision,
    {
        self.data.push(data);
    }

    /// The location of the first entry of type `t`.
    pub fn location_of(&self, t: DataType) -> (r: Option<&str>)
        ensures
            location_found(self.data@, t, r),
    {
        let mut i: usize = 0;
        while i < self.data.len()
            invariant
                i <= self.data@.len(),
                forall|j: int| 0 <= j < i ==> #[trigger] self.data@[j].type_ != t,
            decreases self.data.len() - i,
        {
            if self.data[i].type_ == t {
                assert(first_of_type(self.data@, t) == Some(i as int));
                return Some(self.data[i].location.href.as_str());
            }
            i = i + 1;
        }
        None
    }
}

} // verus!
