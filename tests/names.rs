use rpm_tool::digest::{content_sha128, str_sha128};
use rpm_tool::pattern::{FilePattern, InvalidPattern};
use rpm_tool::repodata::scan::{has_package_extension, is_package_file_name};

#[test]
fn package_file_names() {
    assert!(is_package_file_name("foo-1.0-1.x86_64.rpm"));
    assert!(is_package_file_name("FOO-1.0-1.X86_64.RPM"));
    assert!(!is_package_file_name("foo.rpm.sig"));
    assert!(!is_package_file_name("rpm"));
}

#[test]
fn package_extension_is_case_sensitive() {
    assert!(has_package_extension("a.rpm"));
    assert!(!has_package_extension("a.RPM"));
    assert!(!has_package_extension(".rp"));
}

#[test]
fn invalid_pattern_is_rejected() {
    assert_eq!(
        FilePattern::new("(").err(),
        Some(InvalidPattern { pattern: "(".to_owned() })
    );
    assert_eq!(FilePattern::new("^/etc").unwrap().as_str(), "^/etc");
}

#[test]
fn sha1_of_known_text() {
    assert_eq!(str_sha128("abc"), "a9993e364706816aba3e25717850c26c9cd0d89d");
    assert_eq!(str_sha128(""), "da39a3ee5e6b4b0d3255bfef95601890afd80709");
    assert_eq!(content_sha128(b"abc"), "a9993e364706816aba3e25717850c26c9cd0d89d");
}
