//! One generation run: the previous index as lookup caches, the documents
//! being built, and the per-file decision to reuse or rebuild a record.

use crate::compress::{compress, gzip_of};
use crate::digest::{content_sha128, sha1_hex, str_sha128};
use crate::lazy_result::LazyResult;
use crate::pattern::FilePattern;
use crate::repodata::cache::Cache;
use crate::repodata::filelists::{self, Filelists};
use crate::repodata::header::{FileStat, PackageHeader};
use crate::repodata::primary::{self, Primary};
use crate::repodata::repomd::{location_found, Checksum, Data, DataType, Location, Repomd};
use crate::repodata::split::{lemma_concat_contains, lemma_select_filter, reversed, select};
use vstd::hash_map::StringHashMap;
use vstd::prelude::*;
use vstd::string::*;

verus! {

/// What the previous index holds for a candidate file.
pub enum Claim {
    /// The cached record is still valid; `filelist` is its cached file-list record, when
    /// file lists are generated and one was found.
    Hit { package: primary::Package, filelist: Option<filelists::Package> },
    /// The record must be rebuilt from the file.
    Miss,
}

/// The records of one package file, ready to be added to the documents.
pub struct Records {
    pub primary: primary::Package,
    pub filelist: Option<filelists::Package>,
}

/// The previous records keyed by location; a later record replaces an earlier one.
pub open spec fn keyed_by_location(s: Seq<primary::Package>) -> Map<Seq<char>, primary::Package>
    decreases s.len(),
{
    if s.len() == 0 {
        Map::empty()
    } else {
        keyed_by_location(s.drop_last()).insert(s.last().location.href@, s.last())
    }
}

/// The previous file-list records keyed by checksum; a later record replaces an earlier one.
pub open spec fn keyed_by_pkgid(s: Seq<filelists::Package>) -> Map<Seq<char>, filelists::Package>
    decreases s.len(),
{
    if s.len() == 0 {
        Map::empty()
    } else {
        keyed_by_pkgid(s.drop_last()).insert(s.last().pkgid@, s.last())
    }
}

/// A cached record is reused exactly when the file's size and modification time are unchanged.
pub open spec fn is_cache_hit(cached: primary::Package, stat: FileStat) -> bool {
    cached.size.package == stat.size && cached.time.file == stat.mtime
}

/// Some path of `paths` is `href`.
pub open spec fn in_paths(paths: Seq<String>, href: Seq<char>) -> bool {
    exists|i: int| 0 <= i < paths.len() && #[trigger] paths[i]@ == href
}

pub open spec fn location_in(paths: Seq<String>) -> spec_fn(primary::Package) -> bool {
    |p: primary::Package| in_paths(paths, p.location.href@)
}

pub open spec fn location_not_in(paths: Seq<String>) -> spec_fn(primary::Package) -> bool {
    |p: primary::Package| !in_paths(paths, p.location.href@)
}

/// Some record of `removed` has checksum `id`.
pub open spec fn checksum_in(removed: Seq<primary::Package>, id: Seq<char>) -> bool {
    exists|i: int| 0 <= i < removed.len() && #[trigger] removed[i].checksum.value@ == id
}

pub open spec fn pkgid_in(removed: Seq<primary::Package>) -> spec_fn(filelists::Package) -> bool {
    |f: filelists::Package| checksum_in(removed, f.pkgid@)
}

pub open spec fn pkgid_not_in(removed: Seq<primary::Package>) -> spec_fn(filelists::Package) -> bool {
    |f: filelists::Package| !checksum_in(removed, f.pkgid@)
}

/// Some record of `m` is `v`.
pub open spec fn has_value<V>(m: Map<Seq<char>, V>, v: V) -> bool {
    exists|k: Seq<char>| m.contains_key(k) && #[trigger] m[k] == v
}

fn append_packages(doc: &mut Primary, items: Vec<primary::Package>)
    requires
        old(doc).wf(),
        old(doc).packages + items@.len() < usize::MAX,
    ensures
        final(doc).wf(),
        final(doc).package@ == old(doc).package@ + items@,
        final(doc).xmlns == old(doc).xmlns,
        final(doc).xmlns_url == old(doc).xmlns_url,
{
    let ghost orig = items@;
    let ghost start = doc.package@;
    let n = items.len();
    let mut rev = reversed(items);
    let mut m: usize = 0;
    while m < n
        invariant
            n == orig.len(),
            m <= n,
            rev@.len() == n - m,
            forall|k: int| 0 <= k < rev@.len() ==> #[trigger] rev@[k] == orig[n - 1 - k],
            doc.wf(),
            doc.package@ == start + orig.take(m as int),
            start.len() + n < usize::MAX,
            doc.xmlns == old(doc).xmlns,
            doc.xmlns_url == old(doc).xmlns_url,
        decreases n - m,
    {
        let p = rev.pop().unwrap();
        doc.add_package(p);
        assert(start + orig.take(m + 1) =~= (start + orig.take(m as int)).push(p));
        m = m + 1;
    }
    assert(orig.take(n as int) =~= orig);
}

fn append_filelists(doc: &mut Filelists, items: Vec<filelists::Package>)
    requires
        old(doc).wf(),
        old(doc).packages + items@.len() < usize::MAX,
    ensures
        final(doc).wf(),
        final(doc).package@ == old(doc).package@ + items@,
        final(doc).xmlns == old(doc).xmlns,
{
    let ghost orig = items@;
    let ghost start = doc.package@;
    let n = items.len();
    let mut rev = reversed(items);
    let mut m: usize = 0;
    while m < n
        invariant
            n == orig.len(),
            m <= n,
            rev@.len() == n - m,
            forall|k: int| 0 <= k < rev@.len() ==> #[trigger] rev@[k] == orig[n - 1 - k],
            doc.wf(),
            doc.package@ == start + orig.take(m as int),
            start.len() + n < usize::MAX,
            doc.xmlns == old(doc).xmlns,
        decreases n - m,
    {
        let p = rev.pop().unwrap();
        doc.add_package(p);
        assert(start + orig.take(m + 1) =~= (start + orig.take(m as int)).push(p));
        m = m + 1;
    }
    assert(orig.take(n as int) =~= orig);
}

/// `after` is `before` followed by the records of `cache`: every added record is one of
/// them and each of them is added. A record is in `after` exactly when it is in `before`
/// or in `cache`.
pub open spec fn restored<V>(before: Seq<V>, after: Seq<V>, cache: Map<Seq<char>, V>) -> bool {
    &&& before.len() <= after.len()
    &&& after.subrange(0, before.len() as int) == before
    &&& forall|i: int| before.len() <= i < after.len() ==> has_value(cache, #[trigger] after[i])
    &&& forall|v: V|
        has_value(cache, v) ==> after.subrange(before.len() as int, after.len() as int).contains(v)
    &&& forall|v: V| after.contains(v) <==> (before.contains(v) || has_value(cache, v))
}

proof fn lemma_restored<V>(before: Seq<V>, added: Seq<V>, cache: Map<Seq<char>, V>)
    requires
        forall|v: V| added.contains(v) <==> has_value(cache, v),
    ensures
        restored(before, before + added, cache),
{
    let after = before + added;
    assert(after.subrange(0, before.len() as int) =~= before);
    assert(after.subrange(before.len() as int, after.len() as int) =~= added);
    assert forall|i: int| before.len() <= i < after.len() implies has_value(cache, #[trigger] after[i]) by {
        assert(after[i] == added[i - before.len()]);
        assert(added.contains(added[i - before.len()]));
    }
    assert forall|v: V| after.contains(v) <==> (before.contains(v) || has_value(cache, v)) by {
        lemma_concat_contains(before, added, v);
    }
}

fn restore_packages(doc: &mut Primary, cache: &mut Cache<primary::Package>)
    requires
        old(doc).wf(),
        old(cache).wf(),
        old(doc).packages + old(cache).used() < usize::MAX,
    ensures
        final(doc).wf(),
        final(cache).wf(),
        final(cache).view() == Map::<Seq<char>, primary::Package>::empty(),
        final(cache).used() == 0,
        restored(old(doc).package@, final(doc).package@, old(cache).view()),
        final(doc).xmlns == old(doc).xmlns,
        final(doc).xmlns_url == old(doc).xmlns_url,
{
    let items = cache.drain();
    let ghost added = items@;
    append_packages(doc, items);
    proof {
        lemma_restored(old(doc).package@, added, old(cache).view());
    }
}

fn restore_filelists(doc: &mut Filelists, cache: &mut Cache<filelists::Package>)
    requires
        old(doc).wf(),
        old(cache).wf(),
        old(doc).packages + old(cache).used() < usize::MAX,
    ensures
        final(doc).wf(),
        final(cache).wf(),
        final(cache).view() == Map::<Seq<char>, filelists::Package>::empty(),
        final(cache).used() == 0,
        restored(old(doc).package@, final(doc).package@, old(cache).view()),
        final(doc).xmlns == old(doc).xmlns,
{
    let items = cache.drain();
    let ghost added = items@;
    append_filelists(doc, items);
    proof {
        lemma_restored(old(doc).package@, added, old(cache).view());
    }
}

fn contains_path(paths: &Vec<String>, href: &String) -> (r: bool)
    ensures
        r == in_paths(paths@, href@),
{
    let mut i: usize = 0;
    while i < paths.len()
        invariant
            i <= paths@.len(),
            forall|j: int| 0 <= j < i ==> #[trigger] paths@[j]@ != href@,
        decreases paths.len() - i,
    {
        if paths[i] == *href {
            return true;
        }
        i = i + 1;
    }
    false
}

/// Why a package file could not be indexed.
#[derive(Clone, Debug, PartialEq, Eq)]
pub enum FileError {
    /// Reading the file, its checksum or its header failed.
    Read(String),
    /// The header does not give a record.
    Extract(primary::ExtractError),
    /// A document's count is at its limit.
    IndexFull,
}

/// `v` is a value that `l` can hand out: the kept one, or one its computation may return.
pub open spec fn lazy_gives<T, F: Fn() -> Result<T, String>>(l: LazyResult<T, String, F>, v: T) -> bool {
    match l.cached() {
        Some(c) => c == v,
        None => l.initializer().ensures((), Ok::<T, String>(v)),
    }
}

/// `l` keeps no value, and its computation may fail with `e`.
pub open spec fn lazy_can_fail<T, F: Fn() -> Result<T, String>>(l: LazyResult<T, String, F>, e: String) -> bool {
    l.cached() is None && l.initializer().ensures((), Err::<T, String>(e))
}

/// The header names the package, its version and its release.
pub open spec fn identifies_package(h: PackageHeader) -> bool {
    h.name is Some && h.version is Some && h.release is Some
}

/// Produces the primary record of one candidate file, together with the file-list record
/// that a valid claim brings. A valid claim is reused as it stands and nothing is computed;
/// otherwise the checksum and header are computed (each at most once, through `sha` and
/// `header`) and the record is built from them.
pub fn build_records<FS, FH>(
    claim: Claim,
    relative_path: &str,
    stat: &FileStat,
    useful_files: &FilePattern,
    sha: &mut LazyResult<String, String, FS>,
    header: &mut LazyResult<PackageHeader, String, FH>,
) -> (r: Result<Records, FileError>) where
    FS: Fn() -> Result<String, String>,
    FH: Fn() -> Result<PackageHeader, String>,

    requires
        old(sha).cached() is None ==> old(sha).initializer().requires(()),
        old(header).cached() is None ==> old(header).initializer().requires(()),
    ensures
        final(sha).initializer() == old(sha).initializer(),
        final(header).initializer() == old(header).initializer(),
        claim is Miss && r is Ok ==> (final(header).cached() matches Some(h)
            && primary::header_decodable(h)),
        match claim {
            Claim::Hit { package, filelist } => {
                &&& r matches Ok(rec) && rec.primary == package && rec.filelist == filelist
                &&& final(sha).cached() == old(sha).cached()
                &&& final(header).cached() == old(header).cached()
            },
            Claim::Miss => match r {
                Ok(rec) => rec.filelist is None && exists|h: PackageHeader, s: String|
                    {
                        &&& lazy_gives(*old(header), h)
                        &&& final(header).cached() == Some(h)
                        &&& lazy_gives(*old(sha), s)
                        &&& final(sha).cached() == Some(s)
                        &&& primary::header_decodable(h)
                        &&& primary::primary_record_of(
                            rec.primary,
                            h,
                            *stat,
                            relative_path@,
                            s@,
                            useful_files.source()@,
                        )
                    },
                Err(FileError::Extract(_)) => exists|h: PackageHeader|
                    lazy_gives(*old(header), h) && !primary::header_decodable(h),
                Err(FileError::Read(e)) => lazy_can_fail(*old(sha), e) || lazy_can_fail(
                    *old(header),
                    e,
                ),
                Err(FileError::IndexFull) => false,
            },
        },
{
    match claim {
        Claim::Hit { package, filelist } => Ok(Records { primary: package, filelist }),
        Claim::Miss => {
            let s = match sha.get() {
                Ok(s) => s,
                Err(e) => return Err(FileError::Read(e)),
            };
            let h = match header.get() {
                Ok(h) => h,
                Err(e) => return Err(FileError::Read(e)),
            };
            let hr: &PackageHeader = &*h;
            let sr: &String = &*s;
            assert(lazy_gives(*old(header), *hr));
            assert(lazy_gives(*old(sha), *sr));
            let package = match primary::Package::of_rpm_package(
                hr,
                stat,
                relative_path,
                sr.as_str(),
                useful_files,
            ) {
                Ok(p) => p,
                Err(e) => return Err(FileError::Extract(e)),
            };
            Ok(Records { primary: package, filelist: None })
        },
    }
}

/// Gives the records their file-list record when file lists are generated and none was
/// found in the previous index: it is built from the header (read through `header` at most
/// once), keyed by the primary record's checksum. Without file lists, there is none.
pub fn complete_filelist<FH>(
    records: Records,
    generate_fileslists: bool,
    header: &mut LazyResult<PackageHeader, String, FH>,
) -> (r: Result<Records, FileError>) where FH: Fn() -> Result<PackageHeader, String>,

    requires
        old(header).cached() is None ==> old(header).initializer().requires(()),
    ensures
        final(header).initializer() == old(header).initializer(),
        if !generate_fileslists || records.filelist is Some {
            &&& r matches Ok(rec) && rec.primary == records.primary && rec.filelist == (if generate_fileslists {
                records.filelist
            } else {
                None
            })
            &&& final(header).cached() == old(header).cached()
        } else {
            match r {
                Ok(rec) => rec.primary == records.primary && exists|h: PackageHeader|
                    {
                        &&& lazy_gives(*old(header), h)
                        &&& rec.filelist matches Some(fl) && filelists::filelist_record_of(
                            fl,
                            h,
                            records.primary.checksum.value@,
                        )
                    },
                Err(FileError::Extract(_)) => exists|h: PackageHeader|
                    lazy_gives(*old(header), h) && !identifies_package(h),
                Err(FileError::Read(e)) => lazy_can_fail(*old(header), e),
                Err(FileError::IndexFull) => false,
            }
        },
{
    if !generate_fileslists {
        return Ok(Records { primary: records.primary, filelist: None });
    }
    match records.filelist {
        Some(f) => Ok(Records { primary: records.primary, filelist: Some(f) }),
        None => {
            let h = match header.get() {
                Ok(h) => h,
                Err(e) => return Err(FileError::Read(e)),
            };
            let hr: &PackageHeader = &*h;
            assert(lazy_gives(*old(header), *hr));
            match filelists::Package::of_rpm_package(hr, records.primary.checksum.value.as_str()) {
                Ok(fl) => Ok(Records { primary: records.primary, filelist: Some(fl) }),
                Err(e) => {
                    assert(!identifies_package(*hr));
                    Err(FileError::Extract(e))
                },
            }
        },
    }
}

/// `d` is the manifest entry of the document `filename` of type `t`, serialized as
/// `text` and compressed as `gz`, written at `timestamp`.
pub open spec fn describes(
    d: Data,
    t: DataType,
    filename: Seq<char>,
    text: Seq<u8>,
    gz: Seq<u8>,
    timestamp: i64,
) -> bool {
    &&& d.type_ == t
    &&& d.checksum.type_@ == "sha"@
    &&& d.checksum.value@ == sha1_hex(gz)
    &&& d.open_checksum.type_@ == "sha"@
    &&& d.open_checksum.value@ == sha1_hex(text)
    &&& d.location.href@ == "repodata/"@ + filename + ".xml.gz"@
    &&& d.timestamp == timestamp
    &&& d.size == gz.len()
    &&& d.open_size == text.len()
}

/// Compresses one serialized document and describes it for the manifest.
pub fn finish_xml(filename: &str, text: &str, data_type: DataType, timestamp: i64) -> (r: (
    Vec<u8>,
    Data,
))
    ensures
        r.0@ == gzip_of(text.spec_bytes()),
        describes(r.1, data_type, filename@, text.spec_bytes(), r.0@, timestamp),
{
    let bytes = text.as_bytes();
    let gz = compress(bytes);
    let checksum = content_sha128(gz.as_slice());
    let open_checksum = str_sha128(text);
    let mut href = String::from_str("repodata/");
    href.append(filename);
    href.append(".xml.gz");
    let size = gz.len() as u64;
    let data = Data {
        type_: data_type,
        checksum: Checksum::new(checksum),
        open_checksum: Checksum::new(open_checksum),
        location: Location::new(href),
        timestamp,
        size,
        open_size: bytes.len(),
    };
    (gz, data)
}

/// The compressed documents and the manifest that describes them.
pub struct Finished {
    pub primary_gz: Vec<u8>,
    pub filelists_gz: Option<Vec<u8>>,
    pub repomd: Repomd,
}

/// Each file-list record of the previous index is stored under its own checksum.
pub proof fn lemma_keyed_by_pkgid(s: Seq<filelists::Package>)
    ensures
        forall|k: Seq<char>| #[trigger]
            keyed_by_pkgid(s).contains_key(k) ==> keyed_by_pkgid(s)[k].pkgid@ == k,
    decreases s.len(),
{
    if s.len() > 0 {
        lemma_keyed_by_pkgid(s.drop_last());
    }
}

/// Add/update law: once the unclaimed cached records have been restored into the primary
/// document (`restored`, from the published records `before` and the cache `cached`) and
/// the records of the files at `paths` evicted, the document holds exactly the previous
/// records, published or cached, whose location is not one of `paths`.
pub proof fn lemma_update_keeps_untouched(
    restored: Seq<primary::Package>,
    before: Seq<primary::Package>,
    cached: Map<Seq<char>, primary::Package>,
    paths: Seq<String>,
)
    requires
        forall|q: primary::Package|
            restored.contains(q) <==> (before.contains(q) || has_value(cached, q)),
    ensures
        forall|p: primary::Package|
            restored.filter(location_not_in(paths)).contains(p) <==> ((before.contains(p)
                || has_value(cached, p)) && !in_paths(paths, p.location.href@)),
{
    let keep = location_not_in(paths);
    assert forall|p: primary::Package|
        restored.filter(keep).contains(p) <==> ((before.contains(p) || has_value(cached, p))
            && !in_paths(paths, p.location.href@)) by {
        let f = restored.filter(keep);
        if f.contains(p) {
            restored.lemma_filter_contains_rev(keep, p);
            let i = choose|i: int| 0 <= i < f.len() && f[i] == p;
            restored.lemma_filter_pred(keep, i);
        }
        if (before.contains(p) || has_value(cached, p)) && !in_paths(paths, p.location.href@) {
            assert(restored.contains(p));
            let i = choose|i: int| 0 <= i < restored.len() && restored[i] == p;
            restored.lemma_filter_contains(keep, i);
        }
    }
}

/// The state of one generation run.
pub struct State {
    generate_fileslists: bool,
    current_packages: Cache<primary::Package>,
    current_fileslist: Cache<filelists::Package>,
    primary_xml: Primary,
    fileslist: Filelists,
}

fn cache_packages(doc: Option<Primary>) -> (r: Cache<primary::Package>)
    ensures
        r.wf(),
        r.view() == match doc {
            Some(d) => keyed_by_location(d.package@),
            None => Map::empty(),
        },
        r.used() == match doc {
            Some(d) => d.package@.len(),
            None => 0,
        },
{
    let mut cache = Cache::new();
    match doc {
        Some(d) => {
            let ghost orig = d.package@;
            let n = d.package.len();
            let mut rev = reversed(d.package);
            let mut m: usize = 0;
            while m < n
                invariant
                    n == orig.len(),
                    m <= n,
                    rev@.len() == n - m,
                    forall|k: int| 0 <= k < rev@.len() ==> #[trigger] rev@[k] == orig[n - 1 - k],
                    cache.wf(),
                    cache.used() == m,
                    cache.view() == keyed_by_location(orig.take(m as int)),
                decreases n - m,
            {
                let p = rev.pop().unwrap();
                assert(orig.take(m + 1).drop_last() =~= orig.take(m as int));
                let key = p.location.href.clone();
                cache.insert(key, p);
                m = m + 1;
            }
            assert(orig.take(n as int) =~= orig);
        },
        None => {},
    }
    cache
}

fn cache_filelists(doc: Option<Filelists>) -> (r: Cache<filelists::Package>)
    ensures
        r.wf(),
        r.view() == match doc {
            Some(d) => keyed_by_pkgid(d.package@),
            None => Map::empty(),
        },
        r.used() == match doc {
            Some(d) => d.package@.len(),
            None => 0,
        },
{
    let mut cache = Cache::new();
    match doc {
        Some(d) => {
            let ghost orig = d.package@;
            let n = d.package.len();
            let mut rev = reversed(d.package);
            let mut m: usize = 0;
            while m < n
                invariant
                    n == orig.len(),
                    m <= n,
                    rev@.len() == n - m,
                    forall|k: int| 0 <= k < rev@.len() ==> #[trigger] rev@[k] == orig[n - 1 - k],
                    cache.wf(),
                    cache.used() == m,
                    cache.view() == keyed_by_pkgid(orig.take(m as int)),
                decreases n - m,
            {
                let p = rev.pop().unwrap();
                assert(orig.take(m + 1).drop_last() =~= orig.take(m as int));
                let key = p.pkgid.clone();
                cache.insert(key, p);
                m = m + 1;
            }
            assert(orig.take(n as int) =~= orig);
        },
        None => {},
    }
    cache
}

impl State {
    pub closed spec fn generates_fileslists(&self) -> bool {
        self.generate_fileslists
    }

    /// Previous primary records not claimed yet, by relative path.
    pub closed spec fn cached_packages(&self) -> Map<Seq<char>, primary::Package> {
        self.current_packages.view()
    }

    /// Previous file-list records not claimed yet, by checksum.
    pub closed spec fn cached_filelists(&self) -> Map<Seq<char>, filelists::Package> {
        self.current_fileslist.view()
    }

    /// How many records the primary cache has held.
    pub closed spec fn packages_used(&self) -> nat {
        self.current_packages.used()
    }

    /// How many records the file-list cache has held.
    pub closed spec fn filelists_used(&self) -> nat {
        self.current_fileslist.used()
    }

    /// The primary document being built.
    pub closed spec fn primary(&self) -> Primary {
        self.primary_xml
    }

    /// The file-list document being built.
    pub closed spec fn filelists(&self) -> Filelists {
        self.fileslist
    }

    pub closed spec fn wf(&self) -> bool {
        &&& self.current_packages.wf()
        &&& self.current_fileslist.wf()
        &&& self.primary_xml.wf()
        &&& self.fileslist.wf()
        &&& forall|k: Seq<char>| #[trigger]
            self.current_fileslist.view().contains_key(k) ==> self.current_fileslist.view()[k].pkgid@
                == k
    }

    /// A well-formed run keeps each document's count equal to its number of records.
    pub proof fn lemma_documents_wf(&self)
        requires
            self.wf(),
        ensures
            self.primary().wf(),
            self.filelists().wf(),
            forall|k: Seq<char>| #[trigger]
                self.cached_filelists().contains_key(k) ==> self.cached_filelists()[k].pkgid@ == k,
    {
    }

    /// The cached record of `rel` is reused for a file with status `stat`.
    pub open spec fn reuses(&self, rel: Seq<char>, stat: FileStat) -> bool {
        self.cached_packages().contains_key(rel) && is_cache_hit(self.cached_packages()[rel], stat)
    }

    /// Where the previous manifest says the previous primary and (when file lists are
    /// generated) file-list documents are.
    pub fn sources(repomd: &Repomd, generate_fileslists: bool) -> (r: (Option<&str>, Option<&str>))
        ensures
            location_found(repomd.data@, DataType::Primary, r.0),
            if generate_fileslists {
                location_found(repomd.data@, DataType::Filelists, r.1)
            } else {
                r.1 is None
            },
    {
        let primary = repomd.location_of(DataType::Primary);
        let filelists = if generate_fileslists {
            repomd.location_of(DataType::Filelists)
        } else {
            None
        };
        (primary, filelists)
    }

    /// A run whose caches hold the previous documents that could be read: primary records
    /// by relative path and, when file lists are generated, file-list records by checksum.
    pub fn new(
        generate_fileslists: bool,
        previous_primary: Option<Primary>,
        previous_fileslists: Option<Filelists>,
    ) -> (r: Self)
        ensures
            r.wf(),
            r.primary().wf(),
            r.filelists().wf(),
            r.primary().packages == 0,
            r.filelists().packages == 0,
            r.generates_fileslists() == generate_fileslists,
            r.primary().package@.len() == 0,
            r.primary().xmlns@ == primary::common_namespace(),
            r.primary().xmlns_url@ == primary::rpm_namespace(),
            r.filelists().package@.len() == 0,
            r.filelists().xmlns@ == filelists::filelists_namespace(),
            r.cached_packages() == match previous_primary {
                Some(d) => keyed_by_location(d.package@),
                None => Map::empty(),
            },
            r.packages_used() == match previous_primary {
                Some(d) => d.package@.len(),
                None => 0,
            },
            r.cached_filelists() == match (generate_fileslists, previous_fileslists) {
                (true, Some(d)) => keyed_by_pkgid(d.package@),
                _ => Map::empty(),
            },
            r.filelists_used() == match (generate_fileslists, previous_fileslists) {
                (true, Some(d)) => d.package@.len(),
                _ => 0,
            },
    {
        let previous_fileslists = if generate_fileslists {
            previous_fileslists
        } else {
            None
        };
        let ghost pf = previous_fileslists;
        proof {
            match pf {
                Some(d) => lemma_keyed_by_pkgid(d.package@),
                None => {},
            }
        }
        State {
            generate_fileslists,
            current_packages: cache_packages(previous_primary),
            current_fileslist: cache_filelists(previous_fileslists),
            primary_xml: Primary::new(),
            fileslist: Filelists::new(),
        }
    }

    /// A run with empty caches.
    pub fn empty_new(generate_fileslists: bool) -> (r: Self)
        ensures
            r.wf(),
            r.primary().wf(),
            r.filelists().wf(),
            r.primary().packages == 0,
            r.filelists().packages == 0,
            r.generates_fileslists() == generate_fileslists,
            r.primary().package@.len() == 0,
            r.filelists().package@.len() == 0,
            r.cached_packages() == Map::<Seq<char>, primary::Package>::empty(),
            r.cached_filelists() == Map::<Seq<char>, filelists::Package>::empty(),
    {
        State::new(generate_fileslists, None, None)
    }

    pub fn generate_fileslists(&self) -> (r: bool)
        ensures
            r == self.generates_fileslists(),
    {
        self.generate_fileslists
    }

    pub fn primary_xml(&self) -> (r: &Primary)
        ensures
            *r == self.primary(),
    {
        &self.primary_xml
    }

    pub fn fileslist(&self) -> (r: &Filelists)
        ensures
            *r == self.filelists(),
    {
        &self.fileslist
    }

    /// Removes the cached record of the file at `relative_path` and decides whether it
    /// is still valid for a file with status `stat`.
    pub fn claim(&mut self, relative_path: &str, stat: &FileStat) -> (r: Claim)
        requires
            old(self).wf(),
        ensures
            final(self).wf(),
            final(self).generates_fileslists() == old(self).generates_fileslists(),
            final(self).primary() == old(self).primary(),
            final(self).filelists() == old(self).filelists(),
            final(self).packages_used() == old(self).packages_used(),
            final(self).filelists_used() == old(self).filelists_used(),
            final(self).cached_packages() == old(self).cached_packages().remove(relative_path@),
            match r {
                Claim::Hit { package, filelist } => {
                    &&& old(self).cached_packages().contains_key(relative_path@)
                    &&& package == old(self).cached_packages()[relative_path@]
                    &&& is_cache_hit(package, *stat)
                    &&& if old(self).generates_fileslists() {
                        let id = package.checksum.value@;
                        &&& final(self).cached_filelists() == old(self).cached_filelists().remove(id)
                        &&& match filelist {
                            Some(f) => old(self).cached_filelists().contains_key(id) && f
                                == old(self).cached_filelists()[id],
                            None => !old(self).cached_filelists().contains_key(id),
                        }
                    } else {
                        filelist is None && final(self).cached_filelists()
                            == old(self).cached_filelists()
                    }
                },
                Claim::Miss => {
                    &&& !old(self).cached_packages().contains_key(relative_path@)
                        || !is_cache_hit(old(self).cached_packages()[relative_path@], *stat)
                    &&& final(self).cached_filelists() == old(self).cached_filelists()
                },
            },
    {
        match self.current_packages.take(relative_path) {
            Some(v) => {
                if v.size.package == stat.size && v.time.file == stat.mtime {
                    let filelist = if self.generate_fileslists {
                        self.current_fileslist.take(v.checksum.value.as_str())
                    } else {
                        None
                    };
                    Claim::Hit { package: v, filelist }
                } else {
                    Claim::Miss
                }
            },
            None => Claim::Miss,
        }
    }

    /// Appends the records of one file to the documents; the file-list record only when
    /// file lists are generated. Adds nothing, and returns false, when a document's count
    /// is at its limit.
    pub fn add_records(&mut self, records: Records) -> (r: bool)
        requires
            old(self).wf(),
        ensures
            final(self).wf(),
            final(self).generates_fileslists() == old(self).generates_fileslists(),
            final(self).cached_packages() == old(self).cached_packages(),
            final(self).cached_filelists() == old(self).cached_filelists(),
            final(self).packages_used() == old(self).packages_used(),
            final(self).filelists_used() == old(self).filelists_used(),
            r == (old(self).primary().packages < usize::MAX && old(self).filelists().packages
                < usize::MAX),
            r ==> final(self).primary().package@ == old(self).primary().package@.push(
                records.primary,
            ),
            r ==> match (old(self).generates_fileslists(), records.filelist) {
                (true, Some(f)) => final(self).filelists().package@ == old(self).filelists().package@.push(f),
                _ => final(self).filelists() == old(self).filelists(),
            },
            !r ==> final(self).primary() == old(self).primary() && final(self).filelists()
                == old(self).filelists(),
            final(self).primary().xmlns == old(self).primary().xmlns,
            final(self).primary().xmlns_url == old(self).primary().xmlns_url,
            final(self).filelists().xmlns == old(self).filelists().xmlns,
    {
        if self.primary_xml.packages == usize::MAX || self.fileslist.packages == usize::MAX {
            return false;
        }
        self.primary_xml.add_package(records.primary);
        if self.generate_fileslists {
            match records.filelist {
                Some(f) => self.fileslist.add_package(f),
                None => {},
            }
        }
        true
    }

    /// Puts every unclaimed cached record back into the documents, so that packages
    /// outside the files about to be processed stay in the index. The previous records
    /// stay in place; the cached records follow them.
    pub fn restore_current(&mut self)
        requires
            old(self).wf(),
            old(self).primary().packages + old(self).packages_used() < usize::MAX,
            old(self).filelists().packages + old(self).filelists_used() < usize::MAX,
        ensures
            final(self).wf(),
            final(self).generates_fileslists() == old(self).generates_fileslists(),
            final(self).primary().wf(),
            final(self).filelists().wf(),
            final(self).cached_packages() == Map::<Seq<char>, primary::Package>::empty(),
            final(self).cached_filelists() == Map::<Seq<char>, filelists::Package>::empty(),
            restored(old(self).primary().package@, final(self).primary().package@, old(self).cached_packages()),
            restored(old(self).filelists().package@, final(self).filelists().package@, old(self).cached_filelists()),
            final(self).primary().xmlns == old(self).primary().xmlns,
            final(self).primary().xmlns_url == old(self).primary().xmlns_url,
            final(self).filelists().xmlns == old(self).filelists().xmlns,
    {
        restore_packages(&mut self.primary_xml, &mut self.current_packages);
        restore_filelists(&mut self.fileslist, &mut self.current_fileslist);
        assert(self.current_fileslist.view() =~= Map::<Seq<char>, filelists::Package>::empty());
    }

    /// Whether `restore_current` can put every cached record back without the
    /// documents' counts overflowing.
    pub fn can_restore(&self) -> (r: bool)
        requires
            self.wf(),
        ensures
            r == (self.primary().packages + self.packages_used() < usize::MAX
                && self.filelists().packages + self.filelists_used() < usize::MAX),
    {
        let a = self.current_packages.used_count();
        let b = self.current_fileslist.used_count();
        a < usize::MAX - self.primary_xml.packages && b < usize::MAX - self.fileslist.packages
    }

    /// Evicts from the documents the records of the files at `paths` and the file-list
    /// records that share their checksums; returns the evicted primary records.
    pub fn drain_files(&mut self, paths: &Vec<String>) -> (r: Vec<primary::Package>)
        requires
            old(self).wf(),
        ensures
            final(self).wf(),
            final(self).primary().wf(),
            final(self).filelists().wf(),
            final(self).generates_fileslists() == old(self).generates_fileslists(),
            final(self).cached_packages() == old(self).cached_packages(),
            final(self).cached_filelists() == old(self).cached_filelists(),
            final(self).packages_used() == old(self).packages_used(),
            final(self).filelists_used() == old(self).filelists_used(),
            final(self).primary().package@ == old(self).primary().package@.filter(
                location_not_in(paths@),
            ),
            r@ == old(self).primary().package@.filter(location_in(paths@)),
            final(self).filelists().package@ == old(self).filelists().package@.filter(
                pkgid_not_in(r@),
            ),
            final(self).primary().xmlns == old(self).primary().xmlns,
            final(self).primary().xmlns_url == old(self).primary().xmlns_url,
            final(self).filelists().xmlns == old(self).filelists().xmlns,
    {
        let keep_package = |package: &primary::Package| -> (b: bool)
            ensures
                b == !in_paths(paths@, package.location.href@),
            { !contains_path(paths, &package.location.href) };
        let ghost old_primary = self.primary_xml.package@;
        let removed = self.primary_xml.drain_filter(keep_package);
        proof {
            let keep = choose|keep: Seq<bool>|
                {
                    &&& crate::repodata::split::decided_by(keep_package, old_primary, keep)
                    &&& self.primary_xml.package@ == select(old_primary, keep, true)
                    &&& removed@ == select(old_primary, keep, false)
                };
            lemma_select_filter(old_primary, keep, location_not_in(paths@), location_in(paths@));
        }
        let mut ids: StringHashMap<bool> = StringHashMap::new();
        let mut i: usize = 0;
        while i < removed.len()
            invariant
                i <= removed@.len(),
                forall|k: Seq<char>| #[trigger]
                    ids@.contains_key(k) <==> exists|j: int|
                        0 <= j < i && #[trigger] removed@[j].checksum.value@ == k,
            decreases removed.len() - i,
        {
            ids.insert(removed[i].checksum.value.clone(), true);
            assert forall|k: Seq<char>| #[trigger]
                ids@.contains_key(k) <==> exists|j: int|
                    0 <= j < i + 1 && #[trigger] removed@[j].checksum.value@ == k by {
                if k == removed@[i as int].checksum.value@ {
                    assert(removed@[i as int].checksum.value@ == k);
                }
            }
            i = i + 1;
        }
        let keep_filelist = |f: &filelists::Package| -> (b: bool)
            ensures
                b == !checksum_in(removed@, f.pkgid@),
            { !ids.contains_key(f.pkgid.as_str()) };
        let ghost old_filelists = self.fileslist.package@;
        let _ = self.fileslist.drain_filter(keep_filelist);
        proof {
            let keep = choose|keep: Seq<bool>|
                {
                    &&& crate::repodata::split::decided_by(keep_filelist, old_filelists, keep)
                    &&& self.fileslist.package@ == select(old_filelists, keep, true)
                };
            lemma_select_filter(old_filelists, keep, pkgid_not_in(removed@), pkgid_in(removed@));
        }
        removed
    }


    /// Looks up, when file lists are generated and the records have no file-list record,
    /// the previous file-list record under the primary record's checksum, and removes it
    /// from the cache.
    pub fn resolve_filelist(&mut self, records: Records) -> (r: Records)
        requires
            old(self).wf(),
        ensures
            final(self).wf(),
            final(self).generates_fileslists() == old(self).generates_fileslists(),
            final(self).cached_packages() == old(self).cached_packages(),
            final(self).primary() == old(self).primary(),
            final(self).filelists() == old(self).filelists(),
            final(self).packages_used() == old(self).packages_used(),
            final(self).filelists_used() == old(self).filelists_used(),
            r.primary == records.primary,
            if old(self).generates_fileslists() && records.filelist is None {
                let id = records.primary.checksum.value@;
                &&& final(self).cached_filelists() == old(self).cached_filelists().remove(id)
                &&& match r.filelist {
                    Some(f) => old(self).cached_filelists().contains_key(id) && f
                        == old(self).cached_filelists()[id],
                    None => !old(self).cached_filelists().contains_key(id),
                }
            } else {
                r.filelist == records.filelist && final(self).cached_filelists()
                    == old(self).cached_filelists()
            },
    {
        if self.generate_fileslists && records.filelist.is_none() {
            let found = self.current_fileslist.take(records.primary.checksum.value.as_str());
            Records { primary: records.primary, filelist: found }
        } else {
            records
        }
    }

    /// Processes one candidate file: claims its cached record and reuses it, computing
    /// nothing, when the file's size and modification time are unchanged; otherwise builds
    /// the record from the file's checksum and header. The file-list record is the cached
    /// one under the record's checksum, or else is built from the header. Both records are
    /// appended; on any failure the documents stay as they were.
    pub fn add_file<FS, FH>(
        &mut self,
        relative_path: &str,
        stat: &FileStat,
        useful_files: &FilePattern,
        sha: &mut LazyResult<String, String, FS>,
        header: &mut LazyResult<PackageHeader, String, FH>,
    ) -> (r: Result<(), FileError>) where
        FS: Fn() -> Result<String, String>,
        FH: Fn() -> Result<PackageHeader, String>,

        requires
            old(self).wf(),
            old(sha).cached() is None ==> old(sha).initializer().requires(()),
            old(header).cached() is None ==> old(header).initializer().requires(()),
        ensures
            final(self).wf(),
            final(self).primary().wf(),
            final(self).filelists().wf(),
            final(self).generates_fileslists() == old(self).generates_fileslists(),
            (r == Err::<(), FileError>(FileError::IndexFull)) <==> (old(self).primary().packages
                == usize::MAX || old(self).filelists().packages == usize::MAX),
            r == Err::<(), FileError>(FileError::IndexFull) ==> final(self).cached_packages()
                == old(self).cached_packages(),
            r != Err::<(), FileError>(FileError::IndexFull) ==> final(self).cached_packages()
                == old(self).cached_packages().remove(relative_path@),
            r is Err ==> {
                &&& final(self).primary() == old(self).primary()
                &&& final(self).filelists() == old(self).filelists()
                &&& final(self).cached_filelists() == old(self).cached_filelists()
            },
            r matches Err(FileError::Read(e)) ==> lazy_can_fail(*old(sha), e) || lazy_can_fail(
                *old(header),
                e,
            ),
            r matches Err(FileError::Extract(_)) ==> exists|h: PackageHeader|
                lazy_gives(*old(header), h) && !primary::header_decodable(h),
            ({
                &&& old(self).reuses(relative_path@, *stat)
                &&& old(self).primary().packages < usize::MAX
                &&& old(self).filelists().packages < usize::MAX
                &&& old(self).generates_fileslists() ==> old(self).cached_filelists().contains_key(
                    old(self).cached_packages()[relative_path@].checksum.value@,
                )
            }) ==> {
                &&& r is Ok
                &&& final(sha).cached() == old(sha).cached()
                &&& final(header).cached() == old(header).cached()
            },
            r is Ok ==> {
                let p = final(self).primary().package@.last();
                let id = p.checksum.value@;
                &&& final(self).primary().package@ == old(self).primary().package@.push(p)
                &&& if old(self).reuses(relative_path@, *stat) {
                    p == old(self).cached_packages()[relative_path@]
                } else {
                    exists|h: PackageHeader, s: String|
                        {
                            &&& lazy_gives(*old(header), h)
                            &&& lazy_gives(*old(sha), s)
                            &&& primary::primary_record_of(
                                p,
                                h,
                                *stat,
                                relative_path@,
                                s@,
                                useful_files.source()@,
                            )
                        }
                }
                &&& if old(self).generates_fileslists() {
                    let f = final(self).filelists().package@.last();
                    &&& final(self).filelists().package@ == old(self).filelists().package@.push(f)
                    &&& f.pkgid@ == id
                    &&& final(self).cached_filelists() == old(self).cached_filelists().remove(id)
                    &&& if old(self).cached_filelists().contains_key(id) {
                        f == old(self).cached_filelists()[id]
                    } else {
                        exists|h: PackageHeader|
                            lazy_gives(*old(header), h) && filelists::filelist_record_of(f, h, id)
                    }
                } else {
                    &&& final(self).filelists() == old(self).filelists()
                    &&& final(self).cached_filelists() == old(self).cached_filelists()
                }
            },
    {
        if self.primary_xml.packages == usize::MAX || self.fileslist.packages == usize::MAX {
            return Err(FileError::IndexFull);
        }
        let ghost s0 = *self;
        let claim = self.claim(relative_path, stat);
        let ghost claimed = claim;
        let ghost s1 = *self;
        let records = match build_records(claim, relative_path, stat, useful_files, sha, header) {
            Ok(v) => v,
            Err(e) => {
                assert(self.cached_filelists() =~= s0.cached_filelists());
                return Err(e);
            },
        };
        let ghost built = records;
        let ghost mid_header = *header;
        let records = self.resolve_filelist(records);
        let ghost s2 = *self;
        let generate = self.generate_fileslists;
        let records = match complete_filelist(records, generate, header) {
            Ok(v) => v,
            Err(e) => {
                assert(self.cached_filelists() =~= s0.cached_filelists());
                proof {
                    if e is Extract {
                        let h2 = choose|h2: PackageHeader|
                            lazy_gives(mid_header, h2) && !identifies_package(h2);
                        match claimed {
                            Claim::Hit { package, filelist } => {
                                assert(mid_header.cached() == old(header).cached());
                                assert(lazy_gives(*old(header), h2));
                                assert(!primary::header_decodable(h2));
                            },
                            Claim::Miss => {
                                assert(primary::header_decodable(mid_header.cached()->0));
                                assert(false);
                            },
                        }
                    }
                }
                return Err(e);
            },
        };
        let ghost done = records;
        let added = self.add_records(records);
        assert(added);
        proof {
            let p = self.primary_xml.package@.last();
            assert(p == done.primary);
            assert(done.primary == built.primary);
            match claimed {
                Claim::Hit { package, filelist } => {
                    assert(p == package);
                },
                Claim::Miss => {},
            }
            if self.generate_fileslists {
                let id = p.checksum.value@;
                assert(self.cached_filelists() =~= s0.cached_filelists().remove(id));
            } else {
                assert(self.cached_filelists() =~= s0.cached_filelists());
            }
        }
        Ok(())
    }

    /// Compresses the serialized documents and assembles the manifest, with an entry for
    /// the primary document and, when file lists are generated, one for the file lists.
    pub fn finish(&self, primary_text: &str, filelists_text: &str, timestamp: i64, revision: u64) -> (f:
        Finished)
        ensures
            f.repomd.revision == revision,
            f.repomd.xmlns@ == "http://linux.duke.edu/metadata/common"@,
            f.repomd.xmlns_url@ == "http://linux.duke.edu/metadata/rpm"@,
            f.primary_gz@ == gzip_of(primary_text.spec_bytes()),
            f.repomd.data@.len() == (if self.generates_fileslists() {
                2int
            } else {
                1int
            }),
            describes(
                f.repomd.data@[0],
                DataType::Primary,
                "primary"@,
                primary_text.spec_bytes(),
                f.primary_gz@,
                timestamp,
            ),
            if self.generates_fileslists() {
                f.filelists_gz matches Some(z) && z@ == gzip_of(filelists_text.spec_bytes())
                    && describes(
                    f.repomd.data@[1],
                    DataType::Filelists,
                    "filelists"@,
                    filelists_text.spec_bytes(),
                    z@,
                    timestamp,
                )
            } else {
                f.filelists_gz is None
            },
    {
        let mut repomd = Repomd::new(revision);
        let (primary_gz, data) = finish_xml("primary", primary_text, DataType::Primary, timestamp);
        repomd.add_data(data);
        let filelists_gz = if self.generate_fileslists {
            let (gz, data) = finish_xml("filelists", filelists_text, DataType::Filelists, timestamp);
            repomd.add_data(data);
            Some(gz)
        } else {
            None
        };
        Finished { primary_gz, filelists_gz, repomd }
    }
}

} // verus!
