use rpm_tool::lazy_result::LazyResult;
use rpm_tool::pattern::FilePattern;
use rpm_tool::repodata::filelists::{self, Filelists};
use rpm_tool::repodata::header::{FileStat, PackageHeader};
use rpm_tool::repodata::primary::{self, Primary};
use rpm_tool::repodata::repomd::{DataType, Repomd};
use rpm_tool::repodata::repomd::{Checksum, Data, Location};
use rpm_tool::repodata::state::{
    build_records, complete_filelist, finish_xml, Claim, FileError, Records, State,
};
use std::cell::Cell;
use std::io::Read;
use std::rc::Rc;

fn header(name: &str) -> PackageHeader {
    PackageHeader {
        name: Some(name.to_owned()),
        epoch: None,
        version: Some("1.0".to_owned()),
        release: Some("1".to_owned()),
        arch: Some("noarch".to_owned()),
        license: None,
        vendor: None,
        group: None,
        build_host: None,
        source_rpm: None,
        url: None,
        packager: None,
        description: Some(vec![]),
        summary: Some(vec![]),
        build_time: Some(100),
        installed_size: Some(10),
        archive_size: None,
        provides: None,
        requires: None,
        conflicts: None,
        obsoletes: None,
        files: Some(vec!["/etc/x".to_owned()]),
    }
}

fn pattern() -> FilePattern {
    FilePattern::new(".*").unwrap()
}

fn record(name: &str, sha: &str, stat: FileStat) -> primary::Package {
    let href = format!("{}.rpm", name);
    primary::Package::of_rpm_package(&header(name), &stat, &href, sha, &pattern()).unwrap()
}

fn previous(records: Vec<primary::Package>) -> Primary {
    let mut doc = Primary::new();
    for r in records {
        doc.add_package(r);
    }
    doc
}

fn previous_filelists(names: &[(&str, &str)]) -> Filelists {
    let mut doc = Filelists::new();
    for (name, sha) in names {
        doc.add_package(filelists::Package::of_rpm_package(&header(name), sha).unwrap());
    }
    doc
}

struct Counted {
    sha: Rc<Cell<u32>>,
    header: Rc<Cell<u32>>,
}

fn run(
    state: &mut State,
    name: &str,
    stat: FileStat,
    sha: &str,
    counts: &Counted,
) -> Result<Records, FileError> {
    let rel = format!("{}.rpm", name);
    let claim = state.claim(&rel, &stat);
    let c = counts.sha.clone();
    let digest = sha.to_owned();
    let mut lazy_sha = LazyResult::new(move || -> Result<String, String> {
        c.set(c.get() + 1);
        Ok(digest.clone())
    });
    let c = counts.header.clone();
    let n = name.to_owned();
    let mut lazy_header = LazyResult::new(move || -> Result<PackageHeader, String> {
        c.set(c.get() + 1);
        Ok(header(&n))
    });
    let generate = state.generate_fileslists();
    let records = build_records(claim, &rel, &stat, &pattern(), &mut lazy_sha, &mut lazy_header)?;
    let records = state.resolve_filelist(records);
    complete_filelist(records, generate, &mut lazy_header)
}

fn counted() -> Counted {
    Counted { sha: Rc::new(Cell::new(0)), header: Rc::new(Cell::new(0)) }
}

#[test]
fn cache_hit_reuses_record_without_hashing() {
    let st = FileStat { size: 5, mtime: 50 };
    let old = record("a", "sha-a", st);
    let mut state = State::new(true, Some(previous(vec![old.clone()])), Some(previous_filelists(&[("a", "sha-a")])));
    let counts = counted();
    let records = run(&mut state, "a", st, "sha-new", &counts).unwrap();
    assert_eq!(records.primary, old);
    assert_eq!(records.filelist.unwrap().pkgid, "sha-a");
    assert_eq!(counts.sha.get(), 0);
    assert_eq!(counts.header.get(), 0);
}

#[test]
fn cache_miss_on_changed_mtime_recomputes() {
    let st = FileStat { size: 5, mtime: 50 };
    let old = record("a", "sha-a", st);
    let mut state = State::new(false, Some(previous(vec![old.clone()])), None);
    let counts = counted();
    let changed = FileStat { size: 5, mtime: 51 };
    let records = run(&mut state, "a", changed, "sha-a", &counts).unwrap();
    assert_eq!(counts.sha.get(), 1);
    assert_eq!(counts.header.get(), 1);
    assert_eq!(records.primary.time.file, 51);
    assert_eq!(records.filelist, None);
}

#[test]
fn cache_miss_on_changed_size() {
    let st = FileStat { size: 5, mtime: 50 };
    let mut state = State::new(false, Some(previous(vec![record("a", "sha-a", st)])), None);
    let claim = state.claim("a.rpm", &FileStat { size: 6, mtime: 50 });
    assert!(matches!(claim, Claim::Miss));
    let claim = state.claim("a.rpm", &st);
    assert!(matches!(claim, Claim::Miss));
}

#[test]
fn cache_hit_without_filelist_builds_it_from_header() {
    let st = FileStat { size: 5, mtime: 50 };
    let old = record("a", "sha-a", st);
    let mut state = State::new(true, Some(previous(vec![old.clone()])), None);
    let counts = counted();
    let records = run(&mut state, "a", st, "sha-other", &counts).unwrap();
    assert_eq!(records.primary, old);
    let filelist = records.filelist.unwrap();
    assert_eq!(filelist.name, "a");
    assert_eq!(filelist.pkgid, "sha-a");
    assert_eq!(counts.sha.get(), 0);
    assert_eq!(counts.header.get(), 1);
}

#[test]
fn read_failure_is_reported() {
    let mut state = State::empty_new(false);
    let st = FileStat { size: 1, mtime: 1 };
    let claim = state.claim("x.rpm", &st);
    let mut lazy_sha = LazyResult::new(|| -> Result<String, String> { Err("unreadable".to_owned()) });
    let mut lazy_header = LazyResult::new(|| -> Result<PackageHeader, String> { Ok(header("x")) });
    let r = build_records(claim, "x.rpm", &st, &pattern(), &mut lazy_sha, &mut lazy_header);
    assert_eq!(r.err(), Some(FileError::Read("unreadable".to_owned())));
}

#[test]
fn add_update_keeps_untouched_packages() {
    let st = FileStat { size: 5, mtime: 50 };
    let a = record("a", "sha-a", st);
    let b = record("b", "sha-b", st);
    let c = record("c", "sha-c", st);
    let mut state = State::new(
        true,
        Some(previous(vec![a.clone(), b.clone(), c.clone()])),
        Some(previous_filelists(&[("a", "sha-a"), ("b", "sha-b"), ("c", "sha-c")])),
    );
    assert!(state.can_restore());
    state.restore_current();
    let removed = state.drain_files(&vec!["b.rpm".to_owned()]);
    assert_eq!(removed, vec![b.clone()]);
    assert_eq!(state.fileslist().packages, 2);
    let counts = counted();
    let fresh = FileStat { size: 7, mtime: 70 };
    let records = run(&mut state, "b", fresh, "sha-b2", &counts).unwrap();
    assert_eq!(counts.sha.get(), 1);
    assert!(state.add_records(records));
    let mut hrefs: Vec<String> =
        state.primary_xml().package.iter().map(|p| p.location.href.clone()).collect();
    hrefs.sort();
    assert_eq!(hrefs, vec!["a.rpm", "b.rpm", "c.rpm"]);
    for p in &state.primary_xml().package {
        match p.location.href.as_str() {
            "a.rpm" => assert_eq!(*p, a),
            "c.rpm" => assert_eq!(*p, c),
            _ => {
                assert_eq!(p.checksum.value, "sha-b2");
                assert_eq!(p.size.package, 7);
            }
        }
    }
    assert_eq!(state.primary_xml().packages, 3);
    let mut ids: Vec<String> = state.fileslist().package.iter().map(|f| f.pkgid.clone()).collect();
    ids.sort();
    assert_eq!(ids, vec!["sha-a", "sha-b2", "sha-c"]);
}

#[test]
fn later_previous_record_replaces_earlier() {
    let st = FileStat { size: 5, mtime: 50 };
    let first = record("a", "sha-1", st);
    let second = record("a", "sha-2", st);
    let mut state = State::new(false, Some(previous(vec![first, second.clone()])), None);
    match state.claim("a.rpm", &st) {
        Claim::Hit { package, filelist } => {
            assert_eq!(package, second);
            assert_eq!(filelist, None);
        }
        Claim::Miss => panic!("expected a hit"),
    }
}

#[test]
fn sources_follow_manifest() {
    let mut repomd = Repomd::new(1);
    let entry = |t: DataType, href: &str| Data {
        type_: t,
        checksum: Checksum::new("x".to_owned()),
        open_checksum: Checksum::new("y".to_owned()),
        location: Location::new(href.to_owned()),
        timestamp: 0,
        size: 0,
        open_size: 0,
    };
    repomd.add_data(entry(DataType::Filelists, "repodata/filelists.xml.gz"));
    repomd.add_data(entry(DataType::Primary, "repodata/primary.xml.gz"));
    assert_eq!(
        State::sources(&repomd, true),
        (Some("repodata/primary.xml.gz"), Some("repodata/filelists.xml.gz"))
    );
    assert_eq!(State::sources(&repomd, false), (Some("repodata/primary.xml.gz"), None));
    assert_eq!(State::sources(&Repomd::new(2), true), (None, None));
}

fn gunzip(data: &[u8]) -> String {
    let mut out = String::new();
    flate2::read::GzDecoder::new(data).read_to_string(&mut out).unwrap();
    out
}

#[test]
fn finish_xml_describes_document() {
    let text = "<metadata packages=\"0\"/>";
    let (gz, data) = finish_xml("primary", text, DataType::Primary, 1234);
    assert_ne!(gz, text.as_bytes());
    assert_eq!(gunzip(&gz), text);
    assert_eq!(data.type_, DataType::Primary);
    assert_eq!(data.location.href, "repodata/primary.xml.gz");
    assert_eq!(data.timestamp, 1234);
    assert_eq!(data.size, gz.len() as u64);
    assert_eq!(data.open_size, text.len());
    assert_eq!(data.checksum.type_, "sha");
    assert_eq!(data.checksum.value, rpm_tool::digest::content_sha128(&gz));
    assert_eq!(data.open_checksum.value, rpm_tool::digest::str_sha128(text));
}

#[test]
fn finish_builds_manifest() {
    let state = State::empty_new(true);
    let f = state.finish("<p/>", "<f/>", 7, 99);
    assert_eq!(f.repomd.revision, 99);
    assert_eq!(f.repomd.data.len(), 2);
    assert_eq!(f.repomd.data[0].type_, DataType::Primary);
    assert_eq!(f.repomd.data[1].type_, DataType::Filelists);
    assert_eq!(f.repomd.data[1].location.href, "repodata/filelists.xml.gz");
    assert_eq!(gunzip(&f.filelists_gz.unwrap()), "<f/>");
    let state = State::empty_new(false);
    let f = state.finish("<p/>", "", 7, 99);
    assert_eq!(f.repomd.data.len(), 1);
    assert!(f.filelists_gz.is_none());
    assert_eq!(gunzip(&f.primary_gz), "<p/>");
}

#[test]
fn add_file_reuses_then_rebuilds() {
    let st = FileStat { size: 5, mtime: 50 };
    let old = record("a", "sha-a", st);
    let mut state = State::new(false, Some(previous(vec![old.clone()])), None);
    let calls = Rc::new(Cell::new(0u32));
    let c = calls.clone();
    let mut sha = LazyResult::new(move || -> Result<String, String> {
        c.set(c.get() + 1);
        Ok("sha-new".to_owned())
    });
    let mut hdr = LazyResult::new(|| -> Result<PackageHeader, String> { Ok(header("a")) });
    assert_eq!(state.add_file("a.rpm", &st, &pattern(), &mut sha, &mut hdr), Ok(()));
    assert_eq!(calls.get(), 0);
    assert_eq!(state.primary_xml().package, vec![old]);
    assert_eq!(state.add_file("a.rpm", &st, &pattern(), &mut sha, &mut hdr), Ok(()));
    assert_eq!(calls.get(), 1);
    assert_eq!(state.primary_xml().packages, 2);
    assert_eq!(state.primary_xml().package[1].checksum.value, "sha-new");
}

#[test]
fn add_file_failure_leaves_documents() {
    let mut state = State::empty_new(false);
    let st = FileStat { size: 1, mtime: 1 };
    let mut sha = LazyResult::new(|| -> Result<String, String> { Ok("x".to_owned()) });
    let mut hdr = LazyResult::new(|| -> Result<PackageHeader, String> {
        let mut h = header("b");
        h.build_time = None;
        Ok(h)
    });
    let r = state.add_file("b.rpm", &st, &pattern(), &mut sha, &mut hdr);
    assert_eq!(
        r,
        Err(FileError::Extract(rpm_tool::repodata::primary::ExtractError::MissingField(
            rpm_tool::repodata::primary::HeaderField::BuildTime
        )))
    );
    assert_eq!(state.primary_xml().packages, 0);
}

#[test]
fn cache_miss_takes_filelist_by_checksum() {
    let st = FileStat { size: 5, mtime: 50 };
    let old = record("a", "sha-a", st);
    let previous_fl = previous_filelists(&[("renamed", "sha-a")]);
    let cached_fl = previous_fl.package[0].clone();
    let mut state = State::new(true, Some(previous(vec![old])), Some(previous_fl));
    let counts = counted();
    let changed = FileStat { size: 5, mtime: 60 };
    let records = run(&mut state, "a", changed, "sha-a", &counts).unwrap();
    assert_eq!(counts.sha.get(), 1);
    assert_eq!(counts.header.get(), 1);
    assert_eq!(records.primary.time.file, 60);
    assert_eq!(records.filelist, Some(cached_fl));
}

#[test]
fn add_file_with_filelists() {
    let st = FileStat { size: 5, mtime: 50 };
    let old = record("a", "sha-a", st);
    let previous_fl = previous_filelists(&[("a", "sha-a")]);
    let cached_fl = previous_fl.package[0].clone();
    let mut state = State::new(true, Some(previous(vec![old.clone()])), Some(previous_fl));
    let mut sha = LazyResult::new(|| -> Result<String, String> { Err("not needed".to_owned()) });
    let mut hdr = LazyResult::new(|| -> Result<PackageHeader, String> { Err("not needed".to_owned()) });
    assert_eq!(state.add_file("a.rpm", &st, &pattern(), &mut sha, &mut hdr), Ok(()));
    assert_eq!(state.primary_xml().package, vec![old]);
    assert_eq!(state.fileslist().package, vec![cached_fl]);
    assert_eq!(state.fileslist().packages, 1);
    let r = state.add_file("b.rpm", &st, &pattern(), &mut sha, &mut hdr);
    assert_eq!(r, Err(FileError::Read("not needed".to_owned())));
    assert_eq!(state.primary_xml().packages, 1);
    assert_eq!(state.fileslist().packages, 1);
}
