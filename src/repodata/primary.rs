//! Primary metadata: one searchable record per package, the decoding of a
//! package header into such a record, and the primary index document.

use crate::repodata::header::{entries_of, opt_view, DependencyEntry, FileStat, PackageHeader};
use crate::pattern::{decimal_digit, pattern_matches, unicode_decimal_digit, FilePattern};
use crate::repodata::split::{decided_by, partition, select};
use vstd::prelude::*;
use vstd::string::*;

verus! {

/// A value written as the text content of its element.
#[derive(Clone, Debug, PartialEq, Eq)]
pub struct Tagged<T> {
    pub value: T,
}

#[derive(Clone, Debug, PartialEq, Eq)]
pub struct PackageVersion {
    pub epoch: i32,
    pub ver: String,
    pub rel: String,
}

#[derive(Clone, Debug, PartialEq, Eq)]
pub struct PackageChecksum {
    pub type_: String,
    pub pkgid: String,
    pub value: String,
}

#[derive(Clone, Debug, PartialEq, Eq)]
pub struct PackageTime {
    /// Modification time of the package file.
    pub file: i64,
    /// Build time recorded in the header.
    pub build: u64,
}

#[derive(Clone, Debug, PartialEq, Eq)]
pub struct PackageSize {
    /// Size of the package file.
    pub package: u64,
    pub installed: u64,
    pub archive: Option<u64>,
}

/// One dependency relation in the form the index writes it.
#[derive(Clone, Debug, PartialEq, Eq)]
pub struct RpmEntry {
    pub name: String,
    pub flags: Option<String>,
    pub epoch: Option<String>,
    pub ver: Option<String>,
    pub rel: Option<String>,
    pub pre: Option<u8>,
}

#[derive(Clone, Debug, PartialEq, Eq)]
pub struct RpmEntryList {
    pub list: Vec<RpmEntry>,
}

#[derive(Clone, Debug, PartialEq, Eq)]
pub struct FileEntry {
    pub path: String,
}

/// Why a dependency entry cannot be written.
#[derive(Clone, Debug, PartialEq, Eq)]
pub enum EntryError {
    /// The comparator bits hold a value that names no comparator.
    InvalidFlags(i32),
    /// The version does not have the form `[epoch:]version[-release]`.
    InvalidVersion(String),
}

/// A decimal digit: among ASCII characters `0` to `9`, beyond them the Unicode decimal digits.
pub open spec fn is_decimal_digit(c: char) -> bool {
    if (c as u32) < 128 {
        '0' <= c && c <= '9'
    } else {
        unicode_decimal_digit(c)
    }
}

fn is_digit(c: char) -> (r: bool)
    ensures
        r == is_decimal_digit(c),
{
    if (c as u32) < 128 {
        '0' <= c && c <= '9'
    } else {
        decimal_digit(c)
    }
}

/// The first index at or after `i` that does not hold a decimal digit.
pub open spec fn digit_run_end(s: Seq<char>, i: int) -> int
    decreases s.len() - i,
{
    if i < 0 || i >= s.len() || !is_decimal_digit(s[i]) {
        i
    } else {
        digit_run_end(s, i + 1)
    }
}

/// Where the epoch digits would start: after an optional leading colon.
pub open spec fn epoch_digits_start(s: Seq<char>) -> int {
    if s.len() > 0 && s[0] == ':' {
        1
    } else {
        0
    }
}

/// The version starts with `[:]digits:` and something follows that colon.
pub open spec fn has_epoch(s: Seq<char>) -> bool {
    let a = epoch_digits_start(s);
    let e = digit_run_end(s, a);
    a < e && e + 1 < s.len() && s[e] == ':'
}

pub open spec fn version_start(s: Seq<char>) -> int {
    if has_epoch(s) {
        digit_run_end(s, epoch_digits_start(s)) + 1
    } else {
        0
    }
}

/// A release separator (`-` or `:-`) stands at `i`, followed by a non-empty release.
pub open spec fn release_sep_at(s: Seq<char>, i: int) -> bool {
    (s[i] == '-' && i + 1 < s.len()) || (s[i] == ':' && i + 2 < s.len() && s[i + 1] == '-')
}

/// The first release separator at or after `i`, or the length when there is none.
pub open spec fn find_release_sep(s: Seq<char>, i: int) -> int
    decreases s.len() - i,
{
    if i >= s.len() {
        s.len() as int
    } else if i >= 0 && release_sep_at(s, i) {
        i
    } else {
        find_release_sep(s, i + 1)
    }
}

/// The version runs from its start to the first release separator after its first character.
pub open spec fn version_end(s: Seq<char>) -> int {
    find_release_sep(s, version_start(s) + 1)
}

pub open spec fn release_start(s: Seq<char>) -> int {
    let i = version_end(s);
    if s[i] == '-' {
        i + 1
    } else {
        i + 2
    }
}

/// The epoch, version and release that `[epoch:]version[-release]` names; `None` for a
/// version that has no such reading (one with a line break).
pub open spec fn version_parts(s: Seq<char>) -> Option<
    (Option<Seq<char>>, Option<Seq<char>>, Option<Seq<char>>),
> {
    if s.len() == 0 {
        Some((None, None, None))
    } else if s.contains('\n') {
        None
    } else {
        Some(
            (
                if has_epoch(s) {
                    Some(s.subrange(epoch_digits_start(s), digit_run_end(s, epoch_digits_start(s))))
                } else {
                    None
                },
                Some(s.subrange(version_start(s), version_end(s))),
                if version_end(s) < s.len() {
                    Some(s.subrange(release_start(s), s.len() as int))
                } else {
                    None
                },
            ),
        )
    }
}

/// The comparator that the low four bits of `flags` name: `None` when they name none
/// that the index knows, `Some(None)` when they name no comparison.
pub open spec fn comparator_of(flags: i32) -> Option<Option<Seq<char>>> {
    let low = flags & 0x0f;
    if low == 0 {
        Some(None)
    } else if low == 2 {
        Some(Some(seq!['L', 'T']))
    } else if low == 4 {
        Some(Some(seq!['G', 'T']))
    } else if low == 8 {
        Some(Some(seq!['E', 'Q']))
    } else if low == 10 {
        Some(Some(seq!['L', 'E']))
    } else if low == 12 {
        Some(Some(seq!['G', 'E']))
    } else {
        None
    }
}

/// The flag bit that marks a prerequisite.
pub open spec fn is_prerequisite(flags: i32) -> bool {
    flags & 1024 > 0
}

/// The flag bit that marks a capability internal to the package manager.
pub open spec fn is_internal(flags: i32) -> bool {
    flags & 16777216 != 0
}

pub open spec fn entry_valid(d: DependencyEntry) -> bool {
    version_parts(d.version@) is Some && comparator_of(d.flags) is Some
}

/// `e` is the written form of the header entry `d`.
pub open spec fn entry_decodes(e: RpmEntry, d: DependencyEntry) -> bool {
    let parts = version_parts(d.version@).unwrap();
    &&& e.name@ == d.name@
    &&& opt_view(e.flags) == comparator_of(d.flags).unwrap()
    &&& opt_view(e.epoch) == parts.0
    &&& opt_view(e.ver) == parts.1
    &&& opt_view(e.rel) == parts.2
    &&& e.pre == (if is_prerequisite(d.flags) { Some(1u8) } else { None })
}

fn owned(s: &str) -> (r: String)
    ensures
        r@ == s@,
{
    s.to_owned()
}

fn first_release_sep(s: &str, n: usize, from: usize) -> (r: usize)
    requires
        n == s@.len(),
        from <= n,
    ensures
        r == find_release_sep(s@, from as int),
        from <= r <= n,
        r < n ==> release_sep_at(s@, r as int),
{
    let mut i = from;
    while i < n
        invariant
            from <= i <= n,
            n == s@.len(),
            find_release_sep(s@, i as int) == find_release_sep(s@, from as int),
        decreases n - i,
    {
        let c = s.get_char(i);
        if c == '-' && i + 1 < n {
            return i;
        }
        if c == ':' && n - i > 2 && s.get_char(i + 1) == '-' {
            return i;
        }
        i = i + 1;
    }
    i
}

impl RpmEntry {
    /// Reads `[epoch:]version[-release]`; a version with a line break has no reading.
    pub fn split_version(s: &str) -> (r: Option<(Option<String>, Option<String>, Option<String>)>)
        ensures
            match (r, version_parts(s@)) {
                (Some(p), Some(q)) => opt_view(p.0) == q.0 && opt_view(p.1) == q.1 && opt_view(p.2)
                    == q.2,
                (None, None) => true,
                _ => false,
            },
    {
        let n = s.unicode_len();
        if n == 0 {
            return Some((None, None, None));
        }
        let mut i: usize = 0;
        while i < n
            invariant
                i <= n,
                n == s@.len(),
                forall|j: int| 0 <= j < i ==> s@[j] != '\n',
            decreases n - i,
        {
            if s.get_char(i) == '\n' {
                return None;
            }
            i = i + 1;
        }
        assert(!s@.contains('\n'));
        let a: usize = if s.get_char(0) == ':' { 1 } else { 0 };
        let mut e = a;
        while e < n && is_digit(s.get_char(e))
            invariant
                a <= e <= n,
                n == s@.len(),
                digit_run_end(s@, e as int) == digit_run_end(s@, a as int),
            decreases n - e,
        {
            e = e + 1;
        }
        assert(digit_run_end(s@, e as int) == e);
        let with_epoch = a < e && n - e > 1 && s.get_char(e) == ':';
        let start = if with_epoch { e + 1 } else { 0 };
        let end = first_release_sep(s, n, start + 1);
        let epoch = if with_epoch { Some(owned(s.substring_char(a, e))) } else { None };
        let ver = Some(owned(s.substring_char(start, end)));
        let rel = if end < n {
            let rs = if s.get_char(end) == '-' { end + 1 } else { end + 2 };
            Some(owned(s.substring_char(rs, n)))
        } else {
            None
        };
        Some((epoch, ver, rel))
    }

    /// Maps the low four bits of a flag bitmask to the comparator it names.
    pub fn encode_flags(v: i32) -> (r: Result<Option<String>, EntryError>)
        ensures
            match (r, comparator_of(v)) {
                (Ok(c), Some(d)) => opt_view(c) == d,
                (Err(e), None) => e == EntryError::InvalidFlags(v),
                _ => false,
            },
    {
        let low = v & 0x0f;
        let name = if low == 0 {
            return Ok(None);
        } else if low == 2 {
            "LT"
        } else if low == 4 {
            "GT"
        } else if low == 8 {
            "EQ"
        } else if low == 10 {
            "LE"
        } else if low == 12 {
            "GE"
        } else {
            return Err(EntryError::InvalidFlags(v));
        };
        proof {
            reveal_strlit("LT");
            reveal_strlit("GT");
            reveal_strlit("EQ");
            reveal_strlit("LE");
            reveal_strlit("GE");
        }
        Ok(Some(owned(name)))
    }

    /// An owned copy of a non-empty string; nothing for an empty or absent one.
    pub fn nonempty_or_none(v: Option<&str>) -> (r: Option<String>)
        ensures
            match v {
                Some(s) => if s@.len() == 0 {
                    r is None
                } else {
                    opt_view(r) == Some(s@)
                },
                None => r is None,
            },
    {
        match v {
            Some(s) => if s.is_empty() {
                None
            } else {
                Some(owned(s))
            },
            None => None,
        }
    }

    /// The written form of a header dependency entry.
    pub fn of_rpmentry(v: &DependencyEntry) -> (r: Result<Self, EntryError>)
        ensures
            match r {
                Ok(e) => entry_valid(*v) && entry_decodes(e, *v),
                Err(EntryError::InvalidVersion(s)) => version_parts(v.version@) is None && s@
                    == v.version@,
                Err(EntryError::InvalidFlags(f)) => version_parts(v.version@) is Some
                    && comparator_of(v.flags) is None && f == v.flags,
            },
    {
        let parts = match Self::split_version(v.version.as_str()) {
            Some(p) => p,
            None => return Err(EntryError::InvalidVersion(v.version.clone())),
        };
        let pre: Option<u8> = if v.flags & 1024 > 0 { Some(1) } else { None };
        let flags = Self::encode_flags(v.flags)?;
        let (epoch, ver, rel) = parts;
        Ok(RpmEntry { name: v.name.clone(), flags, epoch, ver, rel, pre })
    }
}

#[derive(Clone, Debug, PartialEq, Eq)]
pub struct PackageFormat {
    pub rpm_license: Option<String>,
    pub rpm_vendor: Option<String>,
    pub rpm_group: Option<String>,
    pub rpm_buildhost: Option<String>,
    pub rpm_sourcerpm: Option<String>,
    pub rpm_provides: RpmEntryList,
    pub rpm_conflicts: RpmEntryList,
    pub rpm_obsoletes: RpmEntryList,
    pub rpm_requires: RpmEntryList,
    pub files: Vec<FileEntry>,
}

#[derive(Clone, Debug, PartialEq, Eq)]
pub struct PackageLocation {
    /// Path of the package file relative to the repository root.
    pub href: String,
}

/// The primary record of one package.
#[derive(Clone, Debug, PartialEq, Eq)]
pub struct Package {
    pub type_: String,
    pub name: Tagged<String>,
    pub location: PackageLocation,
    pub arch: Option<Tagged<String>>,
    pub description: Tagged<Option<String>>,
    pub version: PackageVersion,
    pub checksum: PackageChecksum,
    pub summary: Tagged<Option<String>>,
    pub packager: Option<String>,
    pub url: Option<String>,
    pub time: PackageTime,
    pub size: PackageSize,
    pub format: PackageFormat,
}

/// A header field without which no record can be built.
#[derive(Clone, Copy, Debug, PartialEq, Eq)]
pub enum HeaderField {
    Name,
    Version,
    Release,
    BuildTime,
    InstalledSize,
    Description,
    Summary,
}

/// The four dependency lists of a header.
#[derive(Clone, Copy, Debug, PartialEq, Eq)]
pub enum DependencyKind {
    Provides,
    Requires,
    Conflicts,
    Obsoletes,
}

/// Why no record can be built from a header.
#[derive(Clone, Debug, PartialEq, Eq)]
pub enum ExtractError {
    MissingField(HeaderField),
    /// An entry named `name` of the `kind` list cannot be written.
    Entry { kind: DependencyKind, name: String, error: EntryError },
}

pub open spec fn field_missing(h: PackageHeader, f: HeaderField) -> bool {
    match f {
        HeaderField::Name => h.name is None,
        HeaderField::Version => h.version is None,
        HeaderField::Release => h.release is None,
        HeaderField::BuildTime => h.build_time is None,
        HeaderField::InstalledSize => h.installed_size is None,
        HeaderField::Description => h.description is None,
        HeaderField::Summary => h.summary is None,
    }
}

pub open spec fn dependency_list(h: PackageHeader, kind: DependencyKind) -> Option<Vec<DependencyEntry>> {
    match kind {
        DependencyKind::Provides => h.provides,
        DependencyKind::Requires => h.requires,
        DependencyKind::Conflicts => h.conflicts,
        DependencyKind::Obsoletes => h.obsoletes,
    }
}

/// Only the requirements list leaves out the package manager's internal markers.
pub open spec fn entry_selected(kind: DependencyKind, d: DependencyEntry) -> bool {
    kind != DependencyKind::Requires || !is_internal(d.flags)
}

pub open spec fn entry_selector(kind: DependencyKind) -> spec_fn(DependencyEntry) -> bool {
    |d: DependencyEntry| entry_selected(kind, d)
}

/// The header entries of `kind` that the record lists.
pub open spec fn selected_entries(h: PackageHeader, kind: DependencyKind) -> Seq<DependencyEntry> {
    entries_of(dependency_list(h, kind)).filter(entry_selector(kind))
}

pub open spec fn list_valid(list: Option<Vec<DependencyEntry>>, kind: DependencyKind) -> bool {
    forall|i: int|
        0 <= i < entries_of(list).len() && entry_selected(kind, #[trigger] entries_of(list)[i])
            ==> entry_valid(entries_of(list)[i])
}

/// The list holds a listed entry named `name` that cannot be written.
pub open spec fn invalid_entry_named(
    list: Option<Vec<DependencyEntry>>,
    kind: DependencyKind,
    name: Seq<char>,
) -> bool {
    exists|i: int|
        0 <= i < entries_of(list).len() && entry_selected(kind, entries_of(list)[i]) && !entry_valid(
            #[trigger] entries_of(list)[i],
        ) && entries_of(list)[i].name@ == name
}

pub open spec fn entries_decode(out: Seq<RpmEntry>, ins: Seq<DependencyEntry>) -> bool {
    out.len() == ins.len() && forall|i: int| 0 <= i < out.len() ==> entry_decodes(out[i], ins[i])
}

/// Every field that a record needs is there, and every listed entry can be written.
pub open spec fn header_decodable(h: PackageHeader) -> bool {
    &&& h.name is Some
    &&& h.version is Some
    &&& h.release is Some
    &&& h.build_time is Some
    &&& h.installed_size is Some
    &&& h.description is Some
    &&& h.summary is Some
    &&& list_valid(h.provides, DependencyKind::Provides)
    &&& list_valid(h.requires, DependencyKind::Requires)
    &&& list_valid(h.conflicts, DependencyKind::Conflicts)
    &&& list_valid(h.obsoletes, DependencyKind::Obsoletes)
}

/// Filtering a prefix one element longer adds that element when it is kept.
pub proof fn lemma_filter_take_step<A>(s: Seq<A>, p: spec_fn(A) -> bool, i: int)
    requires
        0 <= i < s.len(),
    ensures
        s.take(i + 1).filter(p) == (if p(s[i]) {
            s.take(i).filter(p).push(s[i])
        } else {
            s.take(i).filter(p)
        }),
{
    reveal(Seq::filter);
    assert(s.take(i + 1).drop_last() =~= s.take(i));
    assert(s.take(i + 1).last() == s[i]);
}

/// The concatenation of string parts.
pub open spec fn concat_all(parts: Seq<String>) -> Seq<char>
    decreases parts.len(),
{
    if parts.len() == 0 {
        Seq::empty()
    } else {
        concat_all(parts.drop_last()) + parts.last()@
    }
}

/// The concatenation of the parts of an optional string list; empty when absent.
pub open spec fn joined(parts: Option<Vec<String>>) -> Seq<char> {
    concat_all(entries_of(parts))
}

pub open spec fn path_selector(pattern: Seq<char>) -> spec_fn(String) -> bool {
    |f: String| pattern_matches(pattern, f@)
}

pub open spec fn string_view(f: String) -> Seq<char> {
    f@
}

/// The views of the paths in `files` that `pattern` matches.
pub open spec fn useful_paths(files: Option<Vec<String>>, pattern: Seq<char>) -> Seq<Seq<char>> {
    entries_of(files).filter(path_selector(pattern)).map_values(|f: String| string_view(f))
}

pub open spec fn file_entry_paths(files: Seq<FileEntry>) -> Seq<Seq<char>> {
    files.map_values(|f: FileEntry| f.path@)
}

/// `v` holds the header's epoch (zero when absent), version and release.
pub open spec fn version_of_header(v: PackageVersion, h: PackageHeader) -> bool {
    &&& v.epoch == (match h.epoch {
        Some(e) => e,
        None => 0,
    })
    &&& v.ver@ == h.version.unwrap()@
    &&& v.rel@ == h.release.unwrap()@
}

pub open spec fn tagged_view(t: Option<Tagged<String>>) -> Option<Seq<char>> {
    match t {
        Some(v) => Some(v.value@),
        None => None,
    }
}

/// `p` is the primary record that the header `h` of the file at `rel`, with status
/// `stat` and checksum `sha`, gives when `pattern` selects the listed file paths.
pub open spec fn primary_record_of(
    p: Package,
    h: PackageHeader,
    stat: FileStat,
    rel: Seq<char>,
    sha: Seq<char>,
    pattern: Seq<char>,
) -> bool {
    &&& p.type_@ == seq!['r', 'p', 'm']
    &&& p.name.value@ == h.name.unwrap()@
    &&& p.location.href@ == rel
    &&& tagged_view(p.arch) == opt_view(h.arch)
    &&& opt_view(p.description.value) == Some(joined(h.description))
    &&& version_of_header(p.version, h)
    &&& p.checksum.type_@ == seq!['s', 'h', 'a']
    &&& p.checksum.pkgid@ == seq!['Y', 'E', 'S']
    &&& p.checksum.value@ == sha
    &&& opt_view(p.summary.value) == Some(joined(h.summary))
    &&& opt_view(p.packager) == Some(joined(h.packager))
    &&& opt_view(p.url) == opt_view(h.url)
    &&& p.time.file == stat.mtime
    &&& p.time.build == h.build_time.unwrap()
    &&& p.size.package == stat.size
    &&& p.size.installed == h.installed_size.unwrap()
    &&& p.size.archive == h.archive_size
    &&& opt_view(p.format.rpm_license) == opt_view(h.license)
    &&& opt_view(p.format.rpm_vendor) == opt_view(h.vendor)
    &&& opt_view(p.format.rpm_group) == Some(joined(h.group))
    &&& opt_view(p.format.rpm_buildhost) == opt_view(h.build_host)
    &&& opt_view(p.format.rpm_sourcerpm) == opt_view(h.source_rpm)
    &&& entries_decode(p.format.rpm_provides.list@, selected_entries(h, DependencyKind::Provides))
    &&& entries_decode(p.format.rpm_requires.list@, selected_entries(h, DependencyKind::Requires))
    &&& entries_decode(p.format.rpm_conflicts.list@, selected_entries(h, DependencyKind::Conflicts))
    &&& entries_decode(p.format.rpm_obsoletes.list@, selected_entries(h, DependencyKind::Obsoletes))
    &&& file_entry_paths(p.format.files@) == useful_paths(h.files, pattern)
}

/// The concatenation of the parts of `parts`; empty when absent.
pub fn join_parts(parts: &Option<Vec<String>>) -> (r: String)
    ensures
        r@ == joined(*parts),
{
    let mut r = String::new();
    match parts {
        Some(v) => {
            let mut i: usize = 0;
            while i < v.len()
                invariant
                    i <= v@.len(),
                    r@ == concat_all(v@.take(i as int)),
                decreases v.len() - i,
            {
                assert(v@.take(i + 1).drop_last() =~= v@.take(i as int));
                r.append(v[i].as_str());
                i = i + 1;
            }
            assert(v@.take(v@.len() as int) =~= v@);
        },
        None => {},
    }
    r
}

fn owned_opt(s: &Option<String>) -> (r: Option<String>)
    ensures
        opt_view(r) == opt_view(*s),
{
    match s {
        Some(v) => Some(v.clone()),
        None => None,
    }
}

fn selected_exec(kind: DependencyKind, d: &DependencyEntry) -> (r: bool)
    ensures
        r == entry_selected(kind, *d),
{
    match kind {
        DependencyKind::Requires => d.flags & 16777216 == 0,
        _ => true,
    }
}

/// Writes the entries of one dependency list, leaving out those the record does not list.
pub fn decode_entries(list: &Option<Vec<DependencyEntry>>, kind: DependencyKind) -> (r: Result<
    Vec<RpmEntry>,
    ExtractError,
>)
    ensures
        r is Ok <==> list_valid(*list, kind),
        match r {
            Ok(v) => entries_decode(
                v@,
                entries_of(*list).filter(entry_selector(kind)),
            ),
            Err(ExtractError::Entry { kind: k, name, error: _ }) => k == kind && invalid_entry_named(
                *list,
                kind,
                name@,
            ),
            Err(_) => false,
        },
{
    let ghost sel = entry_selector(kind);
    let mut out: Vec<RpmEntry> = Vec::new();
    match list {
        Some(v) => {
            let mut i: usize = 0;
            while i < v.len()
                invariant
                    i <= v@.len(),
                    entries_of(*list) == v@,
                    sel == entry_selector(kind),
                    entries_decode(out@, v@.take(i as int).filter(sel)),
                    forall|j: int| 0 <= j < i && entry_selected(kind, #[trigger] v@[j]) ==> entry_valid(v@[j]),
                decreases v.len() - i,
            {
                let d = &v[i];
                proof {
                    lemma_filter_take_step(v@, sel, i as int);
                }
                if selected_exec(kind, d) {
                    match RpmEntry::of_rpmentry(d) {
                        Ok(e) => {
                            out.push(e);
                        },
                        Err(error) => {
                            return Err(ExtractError::Entry { kind, name: d.name.clone(), error });
                        },
                    }
                }
                i = i + 1;
            }
            assert(v@.take(v@.len() as int) =~= v@);
        },
        None => {
            assert(entries_of(*list).filter(sel) =~= Seq::<DependencyEntry>::empty()) by {
                reveal(Seq::filter);
            }
        },
    }
    Ok(out)
}

impl Package {
    /// Whether `pattern` selects `path` for the record's file list.
    pub fn useful_file(path: &str, pattern: &FilePattern) -> (r: bool)
        ensures
            r == pattern_matches(pattern.source()@, path@),
    {
        pattern.is_match(path)
    }

    /// The file paths of `files` that `pattern` selects.
    pub fn useful_files(files: &Option<Vec<String>>, pattern: &FilePattern) -> (r: Vec<FileEntry>)
        ensures
            file_entry_paths(r@) == useful_paths(*files, pattern.source()@),
    {
        let ghost pred = path_selector(pattern.source()@);
        let ghost view = |f: String| string_view(f);
        let mut out: Vec<FileEntry> = Vec::new();
        match files {
            Some(v) => {
                let mut i: usize = 0;
                while i < v.len()
                    invariant
                        i <= v@.len(),
                        entries_of(*files) == v@,
                        pred == path_selector(pattern.source()@),
                        view == (|f: String| string_view(f)),
                        file_entry_paths(out@) == v@.take(i as int).filter(pred).map_values(view),
                    decreases v.len() - i,
                {
                    proof {
                        lemma_filter_take_step(v@, pred, i as int);
                    }
                    let ghost before = out@;
                    if Self::useful_file(v[i].as_str(), pattern) {
                        out.push(FileEntry { path: v[i].clone() });
                        assert(v@.take(i + 1).filter(pred) == v@.take(i as int).filter(pred).push(v@[i as int]));
                        assert(file_entry_paths(out@) =~= file_entry_paths(before).push(v@[i as int]@));
                        assert(v@.take(i + 1).filter(pred).map_values(view) =~= v@.take(i as int).filter(pred).map_values(view).push(v@[i as int]@));
                    }
                    i = i + 1;
                }
                assert(v@.take(v@.len() as int) =~= v@);
            },
            None => {
                assert(entries_of(*files).filter(pred) =~= Seq::<String>::empty()) by {
                    reveal(Seq::filter);
                }
                assert(file_entry_paths(out@) =~= useful_paths(*files, pattern.source()@));
            },
        }
        out
    }

    /// Builds the primary record of the package file at `relative_path` from its header,
    /// its file status and its checksum; `useful_files` selects the listed file paths.
    pub fn of_rpm_package(
        header: &PackageHeader,
        stat: &FileStat,
        relative_path: &str,
        file_sha: &str,
        useful_files: &FilePattern,
    ) -> (r: Result<Package, ExtractError>)
        ensures
            r is Ok <==> header_decodable(*header),
            match r {
                Ok(p) => primary_record_of(
                    p,
                    *header,
                    *stat,
                    relative_path@,
                    file_sha@,
                    useful_files.source()@,
                ),
                Err(ExtractError::MissingField(f)) => field_missing(*header, f),
                Err(ExtractError::Entry { kind, name, error: _ }) => invalid_entry_named(
                    dependency_list(*header, kind),
                    kind,
                    name@,
                ),
            },
    {
        let name = match &header.name {
            Some(n) => n.clone(),
            None => return Err(ExtractError::MissingField(HeaderField::Name)),
        };
        let build = match header.build_time {
            Some(b) => b,
            None => return Err(ExtractError::MissingField(HeaderField::BuildTime)),
        };
        let installed = match header.installed_size {
            Some(n) => n,
            None => return Err(ExtractError::MissingField(HeaderField::InstalledSize)),
        };
        let rpm_provides = match decode_entries(&header.provides, DependencyKind::Provides) {
            Ok(v) => v,
            Err(e) => return Err(e),
        };
        let rpm_conflicts = match decode_entries(&header.conflicts, DependencyKind::Conflicts) {
            Ok(v) => v,
            Err(e) => return Err(e),
        };
        let rpm_obsoletes = match decode_entries(&header.obsoletes, DependencyKind::Obsoletes) {
            Ok(v) => v,
            Err(e) => return Err(e),
        };
        let rpm_requires = match decode_entries(&header.requires, DependencyKind::Requires) {
            Ok(v) => v,
            Err(e) => return Err(e),
        };
        let files = Self::useful_files(&header.files, useful_files);
        if header.description.is_none() {
            return Err(ExtractError::MissingField(HeaderField::Description));
        }
        let version = match PackageVersion::of_header(header) {
            Ok(v) => v,
            Err(e) => return Err(e),
        };
        if header.summary.is_none() {
            return Err(ExtractError::MissingField(HeaderField::Summary));
        }
        let format = PackageFormat {
            rpm_license: owned_opt(&header.license),
            rpm_vendor: owned_opt(&header.vendor),
            rpm_group: Some(join_parts(&header.group)),
            rpm_buildhost: owned_opt(&header.build_host),
            rpm_sourcerpm: owned_opt(&header.source_rpm),
            rpm_provides: RpmEntryList { list: rpm_provides },
            rpm_conflicts: RpmEntryList { list: rpm_conflicts },
            rpm_obsoletes: RpmEntryList { list: rpm_obsoletes },
            rpm_requires: RpmEntryList { list: rpm_requires },
            files,
        };
        let arch = match &header.arch {
            Some(a) => Some(Tagged { value: a.clone() }),
            None => None,
        };
        let type_ = owned("rpm");
        let sha = owned("sha");
        let pkgid = owned("YES");
        proof {
            reveal_strlit("rpm");
            reveal_strlit("sha");
            reveal_strlit("YES");
            assert(type_@ =~= seq!['r', 'p', 'm']);
            assert(sha@ =~= seq!['s', 'h', 'a']);
            assert(pkgid@ =~= seq!['Y', 'E', 'S']);
        }
        Ok(Package {
            type_,
            name: Tagged { value: name },
            location: PackageLocation { href: owned(relative_path) },
            arch,
            description: Tagged { value: Some(join_parts(&header.description)) },
            version,
            checksum: PackageChecksum {
                type_: sha,
                pkgid,
                value: owned(file_sha),
            },
            summary: Tagged { value: Some(join_parts(&header.summary)) },
            packager: Some(join_parts(&header.packager)),
            url: owned_opt(&header.url),
            time: PackageTime { file: stat.mtime, build },
            size: PackageSize { package: stat.size, installed, archive: header.archive_size },
            format,
        })
    }
}

impl PackageVersion {
    /// The epoch (zero when absent), version and release of a header.
    pub fn of_header(header: &PackageHeader) -> (r: Result<Self, ExtractError>)
        ensures
            match r {
                Ok(v) => header.version is Some && header.release is Some && version_of_header(
                    v,
                    *header,
                ),
                Err(e) => (header.version is None && e == ExtractError::MissingField(
                    HeaderField::Version,
                )) || (header.version is Some && header.release is None && e
                    == ExtractError::MissingField(HeaderField::Release)),
            },
    {
        let ver = match &header.version {
            Some(v) => v.clone(),
            None => return Err(ExtractError::MissingField(HeaderField::Version)),
        };
        let rel = match &header.release {
            Some(v) => v.clone(),
            None => return Err(ExtractError::MissingField(HeaderField::Release)),
        };
        let epoch = match header.epoch {
            Some(e) => e,
            None => 0,
        };
        Ok(PackageVersion { epoch, ver, rel })
    }
}

impl FileEntry {
    pub fn of_rpm_file_entry(path: &String) -> (r: Self)
        ensures
            r.path@ == path@,
    {
        FileEntry { path: path.clone() }
    }
}

pub open spec fn common_namespace() -> Seq<char> {
    "http://linux.duke.edu/metadata/common"@
}

pub open spec fn rpm_namespace() -> Seq<char> {
    "http://linux.duke.edu/metadata/rpm"@
}

/// The primary index document.
#[derive(Debug, PartialEq, Eq)]
pub struct Primary {
    pub xmlns: String,
    pub xmlns_url: String,
    /// The number of records, as the document states it.
    pub packages: usize,
    pub package: Vec<Package>,
}

impl Primary {
    /// The stated count is the number of records.
    pub open spec fn wf(&self) -> bool {
        self.packages == self.package@.len()
    }

    /// An empty document.
    pub fn new() -> (r: Self)
        ensures
            r.wf(),
            r.package@.len() == 0,
            r.xmlns@ == common_namespace(),
            r.xmlns_url@ == rpm_namespace(),
    {
        Primary {
            xmlns: owned("http://linux.duke.edu/metadata/common"),
            xmlns_url: owned("http://linux.duke.edu/metadata/rpm"),
            packages: 0,
            package: Vec::new(),
        }
    }

    /// Appends a record and counts it.
    pub fn add_package(&mut self, package: Package)
        requires
            old(self).packages < usize::MAX,
        ensures
            final(self).packages == old(self).packages + 1,
            final(self).package@ == old(self).package@.push(package),
            final(self).xmlns == old(self).xmlns,
            final(self).xmlns_url == old(self).xmlns_url,
    {
        self.packages = self.packages + 1;
        self.package.push(package);
    }

    /// Keeps the records that `pred` accepts and returns the others, both in order.
    pub fn drain_filter<F: Fn(&Package) -> bool>(&mut self, pred: F) -> (r: Vec<Package>)
        requires
            forall|p: &Package| pred.requires((p,)),
        ensures
            final(self).wf(),
            final(self).xmlns == old(self).xmlns,
            final(self).xmlns_url == old(self).xmlns_url,
            exists|keep: Seq<bool>|
                {
                    &&& decided_by(pred, old(self).package@, keep)
                    &&& final(self).package@ == select(old(self).package@, keep, true)
                    &&& r@ == select(old(self).package@, keep, false)
                },
    {
        let mut items: Vec<Package> = Vec::new();
        std::mem::swap(&mut items, &mut self.package);
        let (keep, drained, Ghost(decisions)) = partition(items, &pred);
        self.packages = keep.len();
        self.package = keep;
        assert(decided_by(pred, old(self).package@, decisions));
        drained
    }
}

} // verus!
