use rpm_tool::pattern::FilePattern;
use rpm_tool::repodata::filelists::{self, Filelists};
use rpm_tool::repodata::header::{DependencyEntry, FileStat, PackageHeader};
use rpm_tool::repodata::primary::{
    DependencyKind, EntryError, ExtractError, FileEntry, HeaderField, Package, PackageChecksum,
    PackageFormat, PackageLocation, PackageSize, PackageTime, PackageVersion, Primary, RpmEntry,
    RpmEntryList, Tagged,
};

fn s(v: &str) -> Option<String> {
    Some(v.to_owned())
}

fn dep(name: &str, version: &str, flags: i32) -> DependencyEntry {
    DependencyEntry { name: name.to_owned(), version: version.to_owned(), flags }
}

fn header() -> PackageHeader {
    PackageHeader {
        name: s("v8_monolith"),
        epoch: None,
        version: s("10.3.174.14"),
        release: s("1"),
        arch: s("x86_64"),
        license: s("BSD"),
        vendor: s(""),
        group: Some(vec!["System Environment/".to_owned(), "Libraries".to_owned()]),
        build_host: s("some.host"),
        source_rpm: s("v8_monolith-10.3.174.14-1.src.rpm"),
        url: None,
        packager: None,
        description: Some(vec!["JavaScript ".to_owned(), "engine".to_owned()]),
        summary: Some(vec!["JavaScript Engine".to_owned()]),
        build_time: Some(1655985827),
        installed_size: Some(62249667),
        archive_size: Some(62259544),
        provides: Some(vec![
            dep("v8_monolith", "0:10.3.174.14-1", 8),
            dep("v8_monolith(x86-64)", "0:10.3.174.14-1", 8),
        ]),
        requires: Some(vec![dep("rpmlib(CompressedFileNames)", "3.0.4-1", 16777216 | 8 | 2), dep("libc.so.6", "", 0)]),
        conflicts: None,
        obsoletes: Some(vec![]),
        files: Some(vec![
            "/etc/v8.conf".to_owned(),
            "/usr/lib64/libv8.so".to_owned(),
            "/usr/bin/d8".to_owned(),
        ]),
    }
}

fn stat() -> FileStat {
    FileStat { size: 8940944, mtime: 1657717375 }
}

fn entry(name: &str) -> RpmEntry {
    RpmEntry {
        name: name.to_owned(),
        flags: s("EQ"),
        epoch: s("0"),
        ver: s("10.3.174.14"),
        rel: s("1"),
        pre: None,
    }
}

fn expected() -> Package {
    Package {
        type_: "rpm".to_owned(),
        name: Tagged { value: "v8_monolith".to_owned() },
        location: PackageLocation { href: "v8_monolith-10.3.174.14-1.x86_64.rpm".to_owned() },
        arch: Some(Tagged { value: "x86_64".to_owned() }),
        description: Tagged { value: s("JavaScript engine") },
        version: PackageVersion { epoch: 0, ver: "10.3.174.14".to_owned(), rel: "1".to_owned() },
        checksum: PackageChecksum {
            type_: "sha".to_owned(),
            pkgid: "YES".to_owned(),
            value: "bff3977e704f06e9f8ff51ee365c4ab419e91225".to_owned(),
        },
        summary: Tagged { value: s("JavaScript Engine") },
        packager: s(""),
        url: None,
        time: PackageTime { file: 1657717375, build: 1655985827 },
        size: PackageSize { package: 8940944, installed: 62249667, archive: Some(62259544) },
        format: PackageFormat {
            rpm_license: s("BSD"),
            rpm_vendor: s(""),
            rpm_group: s("System Environment/Libraries"),
            rpm_buildhost: s("some.host"),
            rpm_sourcerpm: s("v8_monolith-10.3.174.14-1.src.rpm"),
            rpm_provides: RpmEntryList { list: vec![entry("v8_monolith"), entry("v8_monolith(x86-64)")] },
            rpm_conflicts: RpmEntryList { list: vec![] },
            rpm_obsoletes: RpmEntryList { list: vec![] },
            rpm_requires: RpmEntryList {
                list: vec![RpmEntry {
                    name: "libc.so.6".to_owned(),
                    flags: None,
                    epoch: None,
                    ver: None,
                    rel: None,
                    pre: None,
                }],
            },
            files: vec![
                FileEntry { path: "/etc/v8.conf".to_owned() },
                FileEntry { path: "/usr/bin/d8".to_owned() },
            ],
        },
    }
}

fn build(h: &PackageHeader) -> Result<Package, ExtractError> {
    let pattern = FilePattern::new("(?:^/etc|/bin/|^/usr/lib/sendmail$)").unwrap();
    Package::of_rpm_package(
        h,
        &stat(),
        "v8_monolith-10.3.174.14-1.x86_64.rpm",
        "bff3977e704f06e9f8ff51ee365c4ab419e91225",
        &pattern,
    )
}

#[test]
fn primary_record_from_header() {
    assert_eq!(build(&header()), Ok(expected()));
}

#[test]
fn primary_record_epoch_from_header() {
    let mut h = header();
    h.epoch = Some(2);
    assert_eq!(build(&h).unwrap().version.epoch, 2);
}

#[test]
fn primary_record_missing_fields() {
    let mut h = header();
    h.name = None;
    assert_eq!(build(&h), Err(ExtractError::MissingField(HeaderField::Name)));
    let mut h = header();
    h.build_time = None;
    assert_eq!(build(&h), Err(ExtractError::MissingField(HeaderField::BuildTime)));
    let mut h = header();
    h.installed_size = None;
    assert_eq!(build(&h), Err(ExtractError::MissingField(HeaderField::InstalledSize)));
    let mut h = header();
    h.release = None;
    assert_eq!(build(&h), Err(ExtractError::MissingField(HeaderField::Release)));
    let mut h = header();
    h.summary = None;
    assert_eq!(build(&h), Err(ExtractError::MissingField(HeaderField::Summary)));
}

#[test]
fn primary_record_optional_fields_degrade() {
    let mut h = header();
    h.arch = None;
    h.license = None;
    h.group = None;
    let p = build(&h).unwrap();
    assert_eq!(p.arch, None);
    assert_eq!(p.format.rpm_license, None);
    assert_eq!(p.format.rpm_group, s(""));
}

#[test]
fn primary_record_invalid_entry() {
    let mut h = header();
    h.conflicts = Some(vec![dep("old", "1.0", 5)]);
    assert_eq!(
        build(&h),
        Err(ExtractError::Entry {
            kind: DependencyKind::Conflicts,
            name: "old".to_owned(),
            error: EntryError::InvalidFlags(5),
        })
    );
}

#[test]
fn internal_requirement_with_bad_flags_is_skipped() {
    let mut h = header();
    h.requires = Some(vec![dep("rpmlib(X)", "1", 16777216 | 5)]);
    assert_eq!(build(&h).unwrap().format.rpm_requires.list, vec![]);
}

#[test]
fn filelist_record_from_header() {
    let r = filelists::Package::of_rpm_package(&header(), "abc").unwrap();
    assert_eq!(r.pkgid, "abc");
    assert_eq!(r.name, "v8_monolith");
    assert_eq!(r.arch, s("x86_64"));
    assert_eq!(r.files.len(), 3);
    assert_eq!(r.files[1].path, "/usr/lib64/libv8.so");
    let mut h = header();
    h.version = None;
    assert_eq!(
        filelists::Package::of_rpm_package(&h, "abc"),
        Err(ExtractError::MissingField(HeaderField::Version))
    );
}

#[test]
fn primary_document_counts() {
    let mut doc = Primary::new();
    assert_eq!(doc.xmlns, "http://linux.duke.edu/metadata/common");
    assert_eq!(doc.xmlns_url, "http://linux.duke.edu/metadata/rpm");
    assert_eq!(doc.packages, 0);
    let mut a = expected();
    a.location.href = "a.rpm".to_owned();
    let mut b = expected();
    b.location.href = "b.rpm".to_owned();
    doc.add_package(a.clone());
    doc.add_package(b.clone());
    doc.add_package(a.clone());
    assert_eq!(doc.packages, 3);
    let removed = doc.drain_filter(|p| p.location.href != "a.rpm");
    assert_eq!(removed, vec![a.clone(), a]);
    assert_eq!(doc.package, vec![b]);
    assert_eq!(doc.packages, 1);
}

#[test]
fn filelists_document_counts() {
    let mut doc = Filelists::new();
    assert_eq!(doc.xmlns, "http://linux.duke.edu/metadata/filelists");
    let r = filelists::Package::of_rpm_package(&header(), "abc").unwrap();
    doc.add_package(r.clone());
    assert_eq!(doc.packages, 1);
    let removed = doc.drain_filter(|_| true);
    assert!(removed.is_empty());
    let removed = doc.drain_filter(|_| false);
    assert_eq!(removed, vec![r]);
    assert_eq!(doc.packages, 0);
    assert!(doc.package.is_empty());
}
